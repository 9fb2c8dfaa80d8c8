use subsignal::menu::MenuState;
use subsignal::startup::{begin, first_run, Loaded, Startup};
use subsignal::store::{Credential, Preset};

fn preset(name: &str, secret: &str, resource_id: &str) -> Preset {
    Preset {
        name: String::from(name),
        credential: Credential::new(String::from(secret), String::from(resource_id)),
    }
}

#[test]
fn loaded_presets_start_the_menu_in_load_mode() {
    let entries = vec![preset("a", "1", "x"), preset("b", "2", "y")];
    match begin(Loaded::Presets(entries)) {
        Startup::Menu(menu) => {
            assert_eq!(menu.state(), MenuState::SelectingLoad);
            assert_eq!(
                menu.store().entries(),
                vec![preset("a", "1", "x"), preset("b", "2", "y")]
            );
        }
        _ => panic!("the menu should run"),
    }
}

#[test]
fn an_empty_loaded_store_still_starts_the_menu() {
    match begin(Loaded::Presets(Vec::new())) {
        Startup::Menu(menu) => {
            assert_eq!(menu.state(), MenuState::SelectingLoad);
            assert!(menu.store().is_empty());
        }
        _ => panic!("the menu should run"),
    }
}

#[test]
fn a_missing_store_offers_to_create_a_preset() {
    assert!(matches!(begin(Loaded::Missing), Startup::OfferCreate));
}

#[test]
fn a_corrupt_store_offers_deletion() {
    assert!(matches!(begin(Loaded::Corrupt), Startup::OfferDelete));
}

#[test]
fn repeated_names_count_as_corrupt() {
    let entries = vec![preset("a", "1", "x"), preset("a", "2", "y")];
    assert!(matches!(begin(Loaded::Presets(entries)), Startup::OfferDelete));
}

#[test]
fn an_unreadable_store_aborts_with_the_reason() {
    match begin(Loaded::Unreadable(String::from("permission denied"))) {
        Startup::Abort(reason) => assert_eq!(reason, "permission denied"),
        _ => panic!("the program should end"),
    }
}

#[test]
fn first_run_stores_one_preset_and_resolves_to_it() {
    let (store, credential) = first_run(String::from("main"), String::from("k1"), String::from("c1"));
    assert_eq!(store.entries(), vec![preset("main", "k1", "c1")]);
    assert_eq!(credential, Credential::new(String::from("k1"), String::from("c1")));
}

#[test]
fn first_run_accepts_a_blank_name() {
    let (store, credential) = first_run(String::new(), String::from("k"), String::from("c"));
    assert_eq!(store.list(), vec![(0usize, String::new())]);
    assert_eq!(credential.secret, "k");
    assert_eq!(credential.resource_id, "c");
}
