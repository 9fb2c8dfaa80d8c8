use subsignal::menu::{
    declines_create, parse_command, wants_delete, Edited, Menu, MenuState, Naming, Selected,
};
use subsignal::store::{Credential, Preset, PresetStore};

fn cred(secret: &str, resource_id: &str) -> Credential {
    Credential::new(String::from(secret), String::from(resource_id))
}

fn preset(name: &str, secret: &str, resource_id: &str) -> Preset {
    Preset { name: String::from(name), credential: cred(secret, resource_id) }
}

fn menu_of(names: &[&str]) -> Menu {
    let mut store = PresetStore::new();
    for name in names {
        let secret = format!("key-{}", name);
        let resource = format!("chan-{}", name);
        assert!(store.insert(String::from(*name), Credential::new(secret, resource)).is_ok());
    }
    Menu::new(store)
}

fn s(text: &str) -> String {
    String::from(text)
}

#[test]
fn menu_starts_in_load_mode() {
    let menu = menu_of(&["a"]);
    assert_eq!(menu.state(), MenuState::SelectingLoad);
    assert_eq!(menu.store().len(), 1);
    let empty = Menu::new(PresetStore::new());
    assert_eq!(empty.state(), MenuState::SelectingLoad);
}

#[test]
fn commands_are_single_letters_in_either_case() {
    assert_eq!(parse_command("l"), Some(MenuState::SelectingLoad));
    assert_eq!(parse_command("L"), Some(MenuState::SelectingLoad));
    assert_eq!(parse_command("u"), Some(MenuState::SelectingUpdate));
    assert_eq!(parse_command("U"), Some(MenuState::SelectingUpdate));
    assert_eq!(parse_command("n"), Some(MenuState::SelectingNew));
    assert_eq!(parse_command("N"), Some(MenuState::SelectingNew));
    assert_eq!(parse_command("r"), Some(MenuState::SelectingRemove));
    assert_eq!(parse_command("R"), Some(MenuState::SelectingRemove));
    assert_eq!(parse_command("s"), Some(MenuState::Skipping));
    assert_eq!(parse_command("S"), Some(MenuState::Skipping));
    for other in ["", "ll", "l ", " l", "x", "0", "load", "\u{13a}", "L\u{301}", ",", "\u{4c}\u{4c}"] {
        assert_eq!(parse_command(other), None, "{:?}", other);
    }
}

#[test]
fn commands_switch_between_selecting_states() {
    let mut menu = menu_of(&["a", "b"]);
    assert_eq!(menu.select("u"), Selected::Switched);
    assert_eq!(menu.state(), MenuState::SelectingUpdate);
    assert_eq!(menu.select("u"), Selected::Switched);
    assert_eq!(menu.state(), MenuState::SelectingUpdate);
    assert_eq!(menu.select("R"), Selected::Switched);
    assert_eq!(menu.state(), MenuState::SelectingRemove);
    assert_eq!(menu.select("l"), Selected::Switched);
    assert_eq!(menu.state(), MenuState::SelectingLoad);
    assert_eq!(menu.select("n"), Selected::Switched);
    assert_eq!(menu.state(), MenuState::SelectingNew);
    assert_eq!(menu.store().len(), 2);
}

#[test]
fn load_resolves_to_the_credential_at_the_position() {
    let mut menu = menu_of(&["a", "b", "c"]);
    assert_eq!(menu.select("1"), Selected::Resolved(cred("key-b", "chan-b")));
    assert_eq!(menu.state(), MenuState::Resolved);
    assert_eq!(menu.store().len(), 3);
}

#[test]
fn unknown_input_changes_nothing() {
    let mut menu = menu_of(&["a", "b"]);
    for line in ["2", "99", "-1", "x", "", "1.5", "0 ", "a", "18446744073709551616"] {
        assert_eq!(menu.select(line), Selected::Unknown, "{:?}", line);
        assert_eq!(menu.state(), MenuState::SelectingLoad);
    }
    assert_eq!(menu.select("r"), Selected::Switched);
    assert_eq!(menu.select("2"), Selected::Unknown);
    assert_eq!(menu.state(), MenuState::SelectingRemove);
    assert_eq!(menu.store().len(), 2);
    assert_eq!(menu.select("u"), Selected::Switched);
    assert_eq!(menu.select("7"), Selected::Unknown);
    assert_eq!(menu.state(), MenuState::SelectingUpdate);
}

#[test]
fn selecting_in_an_empty_store_knows_no_position() {
    let mut menu = Menu::new(PresetStore::new());
    assert_eq!(menu.select("0"), Selected::Unknown);
    assert_eq!(menu.select("r"), Selected::Switched);
    assert_eq!(menu.select("0"), Selected::Unknown);
    assert_eq!(menu.state(), MenuState::SelectingRemove);
}

#[test]
fn remove_deletes_and_stays_in_remove_mode() {
    let mut menu = menu_of(&["a", "b", "c"]);
    assert_eq!(menu.select("r"), Selected::Switched);
    let reply = menu.select("1");
    assert_eq!(reply, Selected::Removed);
    assert!(reply.must_save());
    assert_eq!(menu.state(), MenuState::SelectingRemove);
    assert_eq!(
        menu.store().list(),
        vec![(0usize, String::from("a")), (1usize, String::from("c"))]
    );
    assert_eq!(menu.select("1"), Selected::Removed);
    assert_eq!(menu.store().list(), vec![(0usize, String::from("a"))]);
    assert_eq!(menu.select("1"), Selected::Unknown);
}

#[test]
fn only_removal_asks_select_for_a_save() {
    assert!(Selected::Removed.must_save());
    assert!(!Selected::Switched.must_save());
    assert!(!Selected::Unknown.must_save());
    assert!(!Selected::Misplaced.must_save());
    assert!(!Selected::Editing(0).must_save());
    assert!(!Selected::Resolved(cred("a", "b")).must_save());
}

#[test]
fn update_picks_then_edits_and_returns_to_load() {
    let mut menu = menu_of(&["a", "b"]);
    assert_eq!(menu.select("u"), Selected::Switched);
    assert_eq!(menu.select("1"), Selected::Editing(1));
    assert_eq!(menu.state(), MenuState::SelectingUpdate);
    let reply = menu.edit(1, s("fresh-key"), s(""), s(""));
    assert_eq!(reply, Edited::Applied { changed: true, name_refused: false });
    assert!(reply.must_save());
    assert_eq!(menu.state(), MenuState::SelectingLoad);
    assert_eq!(
        menu.store().entries(),
        vec![preset("a", "key-a", "chan-a"), preset("b", "fresh-key", "chan-b")]
    );
}

#[test]
fn edit_with_all_blank_changes_nothing_and_asks_no_save() {
    let mut menu = menu_of(&["a", "b"]);
    assert_eq!(menu.select("u"), Selected::Switched);
    let reply = menu.edit(0, s(""), s(""), s(""));
    assert_eq!(reply, Edited::Applied { changed: false, name_refused: false });
    assert!(!reply.must_save());
    assert_eq!(menu.state(), MenuState::SelectingLoad);
    assert_eq!(
        menu.store().entries(),
        vec![preset("a", "key-a", "chan-a"), preset("b", "key-b", "chan-b")]
    );
}

#[test]
fn edit_replaces_every_entered_field_in_place() {
    let mut menu = menu_of(&["a", "b", "c"]);
    assert_eq!(menu.select("u"), Selected::Switched);
    let reply = menu.edit(1, s("k"), s("r"), s("beta"));
    assert_eq!(reply, Edited::Applied { changed: true, name_refused: false });
    assert_eq!(
        menu.store().entries(),
        vec![preset("a", "key-a", "chan-a"), preset("beta", "k", "r"), preset("c", "key-c", "chan-c")]
    );
}

#[test]
fn edit_with_taken_name_keeps_name_but_applies_the_rest() {
    let mut menu = menu_of(&["a", "b"]);
    assert_eq!(menu.select("u"), Selected::Switched);
    let reply = menu.edit(0, s(""), s("new-chan"), s("b"));
    assert_eq!(reply, Edited::Applied { changed: true, name_refused: true });
    assert_eq!(
        menu.store().entries(),
        vec![preset("a", "key-a", "new-chan"), preset("b", "key-b", "chan-b")]
    );
    assert_eq!(menu.state(), MenuState::SelectingLoad);
}

#[test]
fn edit_with_only_a_taken_name_asks_no_save() {
    let mut menu = menu_of(&["a", "b"]);
    assert_eq!(menu.select("u"), Selected::Switched);
    let reply = menu.edit(0, s(""), s(""), s("a"));
    assert_eq!(reply, Edited::Applied { changed: false, name_refused: true });
    assert!(!reply.must_save());
    assert_eq!(
        menu.store().entries(),
        vec![preset("a", "key-a", "chan-a"), preset("b", "key-b", "chan-b")]
    );
}

#[test]
fn edit_outside_update_mode_or_range_is_misplaced() {
    let mut menu = menu_of(&["a"]);
    assert_eq!(menu.edit(0, s("x"), s("y"), s("z")), Edited::Misplaced);
    assert_eq!(menu.state(), MenuState::SelectingLoad);
    assert_eq!(menu.select("u"), Selected::Switched);
    assert_eq!(menu.edit(1, s("x"), s("y"), s("z")), Edited::Misplaced);
    assert_eq!(menu.state(), MenuState::SelectingUpdate);
    assert!(!Edited::Misplaced.must_save());
    assert_eq!(menu.store().entries(), vec![preset("a", "key-a", "chan-a")]);
}

#[test]
fn new_with_blank_name_goes_back_to_load() {
    let mut menu = menu_of(&["a"]);
    assert_eq!(menu.select("n"), Selected::Switched);
    assert_eq!(menu.propose_name(""), Naming::Back);
    assert_eq!(menu.state(), MenuState::SelectingLoad);
    assert_eq!(menu.store().len(), 1);
}

#[test]
fn new_with_taken_name_stays_and_asks_again() {
    let mut menu = menu_of(&["a"]);
    assert_eq!(menu.select("n"), Selected::Switched);
    assert_eq!(menu.propose_name("a"), Naming::Taken);
    assert_eq!(menu.state(), MenuState::SelectingNew);
    assert_eq!(menu.create(s("a"), s("k"), s("c")), Naming::Taken);
    assert_eq!(menu.state(), MenuState::SelectingNew);
    assert_eq!(menu.store().entries(), vec![preset("a", "key-a", "chan-a")]);
}

#[test]
fn new_with_free_name_creates_at_the_end() {
    let mut menu = menu_of(&["a"]);
    assert_eq!(menu.select("n"), Selected::Switched);
    assert_eq!(menu.propose_name("b"), Naming::Free);
    assert_eq!(menu.state(), MenuState::SelectingNew);
    assert_eq!(menu.store().len(), 1);
    let reply = menu.create(s("b"), s("kb"), s("cb"));
    assert_eq!(reply, Naming::Created);
    assert!(reply.must_save());
    assert_eq!(menu.state(), MenuState::SelectingLoad);
    assert_eq!(
        menu.store().entries(),
        vec![preset("a", "key-a", "chan-a"), preset("b", "kb", "cb")]
    );
}

#[test]
fn a_command_letter_is_a_name_while_naming() {
    let mut menu = menu_of(&[]);
    assert_eq!(menu.select("n"), Selected::Switched);
    assert_eq!(menu.propose_name("l"), Naming::Free);
    assert_eq!(menu.create(s("l"), s("k"), s("c")), Naming::Created);
    assert_eq!(menu.store().list(), vec![(0usize, String::from("l"))]);
}

#[test]
fn naming_outside_new_mode_is_misplaced() {
    let mut menu = menu_of(&["a"]);
    assert_eq!(menu.propose_name("b"), Naming::Misplaced);
    assert_eq!(menu.create(s("b"), s("k"), s("c")), Naming::Misplaced);
    assert_eq!(menu.create(s(""), s("k"), s("c")), Naming::Misplaced);
    assert_eq!(menu.state(), MenuState::SelectingLoad);
    assert_eq!(menu.store().len(), 1);
    assert!(!Naming::Misplaced.must_save());
    assert!(!Naming::Back.must_save());
    assert!(!Naming::Taken.must_save());
    assert!(!Naming::Free.must_save());
}

#[test]
fn create_with_blank_name_goes_back_without_storing() {
    let mut menu = menu_of(&["a"]);
    assert_eq!(menu.select("n"), Selected::Switched);
    assert_eq!(menu.create(s(""), s("k"), s("c")), Naming::Back);
    assert_eq!(menu.state(), MenuState::SelectingLoad);
    assert_eq!(menu.store().len(), 1);
}

#[test]
fn skip_resolves_to_a_credential_that_is_not_stored() {
    let mut menu = menu_of(&["a"]);
    assert_eq!(menu.skip(s("k"), s("c")), None);
    assert_eq!(menu.state(), MenuState::SelectingLoad);
    assert_eq!(menu.select("s"), Selected::Switched);
    assert_eq!(menu.state(), MenuState::Skipping);
    assert_eq!(menu.skip(s("once"), s("only")), Some(cred("once", "only")));
    assert_eq!(menu.state(), MenuState::Resolved);
    assert_eq!(menu.store().entries(), vec![preset("a", "key-a", "chan-a")]);
}

#[test]
fn skipping_menu_awaits_a_credential_at_once() {
    let mut menu = Menu::skipping();
    assert_eq!(menu.state(), MenuState::Skipping);
    assert!(menu.store().is_empty());
    assert_eq!(menu.select("l"), Selected::Misplaced);
    assert_eq!(menu.skip(s("k"), s("c")), Some(cred("k", "c")));
    assert_eq!(menu.state(), MenuState::Resolved);
}

#[test]
fn a_resolved_menu_takes_nothing_more() {
    let mut menu = menu_of(&["a"]);
    assert_eq!(menu.select("0"), Selected::Resolved(cred("key-a", "chan-a")));
    assert_eq!(menu.select("0"), Selected::Misplaced);
    assert_eq!(menu.select("r"), Selected::Misplaced);
    assert_eq!(menu.edit(0, s("x"), s(""), s("")), Edited::Misplaced);
    assert_eq!(menu.propose_name("b"), Naming::Misplaced);
    assert_eq!(menu.skip(s("k"), s("c")), None);
    assert_eq!(menu.state(), MenuState::Resolved);
    assert_eq!(menu.store().entries(), vec![preset("a", "key-a", "chan-a")]);
}

#[test]
fn is_selecting_names_the_three_selecting_states() {
    assert!(MenuState::SelectingLoad.is_selecting());
    assert!(MenuState::SelectingUpdate.is_selecting());
    assert!(MenuState::SelectingRemove.is_selecting());
    assert!(!MenuState::SelectingNew.is_selecting());
    assert!(!MenuState::Skipping.is_selecting());
    assert!(!MenuState::Resolved.is_selecting());
}

#[test]
fn yes_and_no_answers_are_single_letters() {
    assert!(wants_delete("y"));
    assert!(wants_delete("Y"));
    for other in ["", "n", "yes", "y ", "N", "\u{fd}"] {
        assert!(!wants_delete(other), "{:?}", other);
    }
    assert!(declines_create("n"));
    assert!(declines_create("N"));
    for other in ["", "y", "no", " n", "Y", "\u{f1}"] {
        assert!(!declines_create(other), "{:?}", other);
    }
}
