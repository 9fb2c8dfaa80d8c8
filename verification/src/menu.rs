//! The operator menu: a state machine over the preset store that ends in one
//! resolved credential pair.

use crate::store::{
    distinct_names, has_name, lemma_position_at, Credential, CredentialView, PresetStore,
    PresetView,
};
use crate::text::{numeral_within, parse_index};
use vstd::prelude::*;
use vstd::string::*;

verus! {

/// Where the menu stands.
#[derive(Clone, Copy, Debug, PartialEq, Eq, Structural)]
pub enum MenuState {
    /// A position picks the preset to use.
    SelectingLoad,
    /// A position picks the preset to change.
    SelectingUpdate,
    /// A name for a new preset is awaited.
    SelectingNew,
    /// A position picks the preset to delete.
    SelectingRemove,
    /// A credential pair that is not stored is awaited.
    Skipping,
    /// A credential pair has been obtained; the menu is over.
    Resolved,
}

impl MenuState {
    /// Whether a line typed in this state is a command or a position.
    pub open spec fn spec_is_selecting(self) -> bool {
        self == MenuState::SelectingLoad || self == MenuState::SelectingUpdate || self
            == MenuState::SelectingRemove
    }

    /// Whether a line typed in this state is a command or a position.
    #[verifier::when_used_as_spec(spec_is_selecting)]
    pub fn is_selecting(self) -> (b: bool)
        ensures
            b == self.spec_is_selecting(),
    {
        match self {
            MenuState::SelectingLoad | MenuState::SelectingUpdate | MenuState::SelectingRemove => true,
            _ => false,
        }
    }
}

/// Whether `line` is the single letter whose lower-case form is `lower`, in
/// either case.
pub open spec fn is_letter(line: Seq<char>, lower: char) -> bool {
    line.len() == 1 && (line[0] == lower || line[0] as int + 32 == lower as int)
}

/// The state that a command line asks for: `l`, `u`, `n`, `r` or `s`, in
/// either case. `None` for any other line.
pub open spec fn command_of(line: Seq<char>) -> Option<MenuState> {
    if is_letter(line, 'l') {
        Some(MenuState::SelectingLoad)
    } else if is_letter(line, 'u') {
        Some(MenuState::SelectingUpdate)
    } else if is_letter(line, 'n') {
        Some(MenuState::SelectingNew)
    } else if is_letter(line, 'r') {
        Some(MenuState::SelectingRemove)
    } else if is_letter(line, 's') {
        Some(MenuState::Skipping)
    } else {
        None
    }
}

/// Whether `line` is the one ASCII letter `lower`, in either case.
fn letter_matches(line: &str, lower: u8) -> (b: bool)
    requires
        97 <= lower <= 122,
    ensures
        b == is_letter(line@, lower as char),
{
    if !line.is_ascii() {
        assert(line@.len() == 1 ==> !('\0' <= line@[0] <= '\u{7f}'));
        return false;
    }
    proof {
        vstd::utf8::is_ascii_chars_encode_utf8(line@);
    }
    if line.as_bytes().len() != 1 {
        return false;
    }
    let b: u8 = line.get_ascii(0);
    b == lower || b == lower - 32
}

/// Whether the answer to "delete the unreadable store?" is yes: the letter
/// `y` in either case. Any other answer keeps the store.
pub fn wants_delete(answer: &str) -> (b: bool)
    ensures
        b == is_letter(answer@, 'y'),
{
    letter_matches(answer, 121)
}

/// Whether the answer to "create a first preset?" is no: the letter `n` in
/// either case. Any other answer creates one.
pub fn declines_create(answer: &str) -> (b: bool)
    ensures
        b == is_letter(answer@, 'n'),
{
    letter_matches(answer, 110)
}

/// Reads a command line.
pub fn parse_command(line: &str) -> (r: Option<MenuState>)
    ensures
        r == command_of(line@),
{
    if letter_matches(line, 108) {
        Some(MenuState::SelectingLoad)
    } else if letter_matches(line, 117) {
        Some(MenuState::SelectingUpdate)
    } else if letter_matches(line, 110) {
        Some(MenuState::SelectingNew)
    } else if letter_matches(line, 114) {
        Some(MenuState::SelectingRemove)
    } else if letter_matches(line, 115) {
        Some(MenuState::Skipping)
    } else {
        None
    }
}

/// What a line typed in a selecting state means, in a store of `len`
/// presets: a command names the state to go to, a numeral below `len` picks
/// a position, and anything else is not understood.
pub enum Selection {
    /// The line is a command for this state.
    Switch(MenuState),
    /// The line is the numeral of this position, which the store has.
    Pick(int),
    /// The line is neither.
    Unknown,
}

/// Reads a line typed in a selecting state. Commands come first; any other
/// line is a position where it is a numeral below `len`.
pub open spec fn selection_of(line: Seq<char>, len: nat) -> Selection {
    match command_of(line) {
        Some(state) => Selection::Switch(state),
        None => match numeral_within(line, usize::MAX as nat) {
            Some(i) => if i < len {
                Selection::Pick(i as int)
            } else {
                Selection::Unknown
            },
            None => Selection::Unknown,
        },
    }
}

/// What the menu did with a line typed in a selecting state.
#[derive(Debug, PartialEq, Eq)]
pub enum Selected {
    /// The line was a command; the menu is in the state it names.
    Switched,
    /// The preset at the position was loaded: the menu has resolved to this
    /// credential pair.
    Resolved(Credential),
    /// The preset at this position was picked for a change; its changes are
    /// awaited.
    Editing(usize),
    /// The preset at the position was deleted; the store is to be saved.
    Removed,
    /// The line is neither a command nor a position in the store.
    Unknown,
    /// The menu is in no selecting state; nothing was done.
    Misplaced,
}

impl Selected {
    /// Whether the store is to be saved after this answer.
    pub open spec fn spec_must_save(&self) -> bool {
        *self == Selected::Removed
    }

    /// Whether the store is to be saved after this answer.
    #[verifier::when_used_as_spec(spec_must_save)]
    pub fn must_save(&self) -> (b: bool)
        ensures
            b == self.spec_must_save(),
    {
        match self {
            Selected::Removed => true,
            _ => false,
        }
    }
}

/// The text of a field after a change: a blank entry keeps the current text.
pub open spec fn kept_or(entered: Seq<char>, current: Seq<char>) -> Seq<char> {
    if entered.len() == 0 {
        current
    } else {
        entered
    }
}

/// Whether the entered name is given to a preset of `s`: it is not blank and
/// no preset of `s` has it.
pub open spec fn name_accepted(s: Seq<PresetView>, entered: Seq<char>) -> bool {
    entered.len() > 0 && !has_name(s, entered)
}

/// The presets `s` after the one at position `i` took the entered secret,
/// resource identifier and name. A blank entry keeps what was there, and so
/// does a name that is taken.
pub open spec fn edited(
    s: Seq<PresetView>,
    i: int,
    secret: Seq<char>,
    resource_id: Seq<char>,
    new_name: Seq<char>,
) -> Seq<PresetView> {
    s.update(
        i,
        PresetView {
            name: if name_accepted(s, new_name) {
                new_name
            } else {
                s[i].name
            },
            credential: CredentialView {
                secret: kept_or(secret, s[i].credential.secret),
                resource_id: kept_or(resource_id, s[i].credential.resource_id),
            },
        },
    )
}

/// What the menu did with the changes entered for a preset.
#[derive(Clone, Copy, Debug, PartialEq, Eq, Structural)]
pub enum Edited {
    /// The changes were taken in. `changed` says whether any field was
    /// entered and taken, so that the store is to be saved; `name_refused`
    /// says whether a name was entered that is taken.
    Applied { changed: bool, name_refused: bool },
    /// The menu is not selecting a preset to change, or the store has no
    /// preset at the position; nothing was done.
    Misplaced,
}

impl Edited {
    /// Whether the store is to be saved after this answer.
    pub open spec fn spec_must_save(&self) -> bool {
        match *self {
            Edited::Applied { changed, .. } => changed,
            Edited::Misplaced => false,
        }
    }

    /// Whether the store is to be saved after this answer.
    #[verifier::when_used_as_spec(spec_must_save)]
    pub fn must_save(&self) -> (b: bool)
        ensures
            b == self.spec_must_save(),
    {
        match self {
            Edited::Applied { changed, .. } => *changed,
            Edited::Misplaced => false,
        }
    }
}

/// What the menu says of a name entered for a new preset.
#[derive(Clone, Copy, Debug, PartialEq, Eq, Structural)]
pub enum Naming {
    /// The name is blank: the menu has gone back to loading.
    Back,
    /// A preset has that name already; another name is awaited.
    Taken,
    /// The name is free; the credential pair for it is awaited.
    Free,
    /// The preset was added and the menu has gone back to loading; the store
    /// is to be saved.
    Created,
    /// The menu is not awaiting a name; nothing was done.
    Misplaced,
}

impl Naming {
    /// Whether the store is to be saved after this answer.
    pub open spec fn spec_must_save(&self) -> bool {
        *self == Naming::Created
    }

    /// Whether the store is to be saved after this answer.
    #[verifier::when_used_as_spec(spec_must_save)]
    pub fn must_save(&self) -> (b: bool)
        ensures
            b == self.spec_must_save(),
    {
        match self {
            Naming::Created => true,
            _ => false,
        }
    }
}

/// The preset store together with the state of the menu over it.
pub struct Menu {
    store: PresetStore,
    state: MenuState,
}

/// What a [`Menu`] holds: the presets in order, and the state.
pub struct MenuView {
    pub presets: Seq<PresetView>,
    pub state: MenuState,
}

impl View for Menu {
    type V = MenuView;

    closed spec fn view(&self) -> MenuView {
        MenuView { presets: self.store@, state: self.state }
    }
}

impl Menu {
    /// Whether the menu is valid: no name occurs twice in its store.
    pub open spec fn wf(&self) -> bool {
        distinct_names(self@.presets)
    }

    /// A menu over `store`, about to load a preset.
    pub fn new(store: PresetStore) -> (m: Menu)
        requires
            store.wf(),
        ensures
            m.wf(),
            m@.presets == store@,
            m@.state == MenuState::SelectingLoad,
    {
        Menu { store, state: MenuState::SelectingLoad }
    }

    /// A menu over an empty store that awaits a credential pair which is not
    /// stored.
    pub fn skipping() -> (m: Menu)
        ensures
            m.wf(),
            m@.presets == Seq::<PresetView>::empty(),
            m@.state == MenuState::Skipping,
    {
        Menu { store: PresetStore::new(), state: MenuState::Skipping }
    }

    /// The state that the menu is in.
    pub fn state(&self) -> (s: MenuState)
        ensures
            s == self@.state,
    {
        self.state
    }

    /// The store that the menu works on.
    pub fn store(&self) -> (s: &PresetStore)
        ensures
            s@ == self@.presets,
    {
        &self.store
    }

    /// Takes a line typed in a selecting state. A command switches the state.
    /// A position in the store loads, picks for a change or deletes the
    /// preset there, as the state says. Any other line changes nothing.
    pub fn select(&mut self, line: &str) -> (r: Selected)
        requires
            old(self).wf(),
        ensures
            final(self).wf(),
            final(self)@.presets != old(self)@.presets ==> r.spec_must_save(),
            !old(self)@.state.spec_is_selecting() ==> r == Selected::Misplaced && final(self)@
                == old(self)@,
            old(self)@.state.spec_is_selecting() ==> match selection_of(
                line@,
                old(self)@.presets.len(),
            ) {
                Selection::Switch(state) => r == Selected::Switched && final(self)@ == (MenuView {
                    state,
                    ..old(self)@
                }),
                Selection::Unknown => r == Selected::Unknown && final(self)@ == old(self)@,
                Selection::Pick(i) => match old(self)@.state {
                    MenuState::SelectingLoad => {
                        &&& r matches Selected::Resolved(c)
                        &&& c@ == old(self)@.presets[i].credential
                        &&& final(self)@ == (MenuView {
                            state: MenuState::Resolved,
                            ..old(self)@
                        })
                    },
                    MenuState::SelectingUpdate => r == Selected::Editing(i as usize) && final(self)@
                        == old(self)@,
                    _ => r == Selected::Removed && final(self)@ == (MenuView {
                        presets: old(self)@.presets.remove(i),
                        ..old(self)@
                    }),
                },
            },
    {
        if !self.state.is_selecting() {
            return Selected::Misplaced;
        }
        match parse_command(line) {
            Some(state) => {
                self.state = state;
                Selected::Switched
            },
            None => {
                let index = match parse_index(line) {
                    Some(i) => i,
                    None => {
                        return Selected::Unknown;
                    },
                };
                let picked = match self.store.get(index) {
                    Some(p) => p.duplicate(),
                    None => {
                        return Selected::Unknown;
                    },
                };
                match self.state {
                    MenuState::SelectingLoad => {
                        self.state = MenuState::Resolved;
                        Selected::Resolved(picked.credential)
                    },
                    MenuState::SelectingUpdate => Selected::Editing(index),
                    _ => {
                        proof {
                            lemma_position_at(self.store@, index as int);
                        }
                        self.store.remove(picked.name.as_str());
                        Selected::Removed
                    },
                }
            },
        }
    }

    /// Takes the changes entered for the preset at `index` while a preset to
    /// change is being selected: each non-blank entry replaces the field, but
    /// a name that is taken is refused while the other entries still apply.
    /// The menu then goes back to loading.
    pub fn edit(
        &mut self,
        index: usize,
        secret: String,
        resource_id: String,
        new_name: String,
    ) -> (r: Edited)
        requires
            old(self).wf(),
        ensures
            final(self).wf(),
            final(self)@.presets != old(self)@.presets ==> r.spec_must_save(),
            old(self)@.state != MenuState::SelectingUpdate || index >= old(self)@.presets.len()
                ==> r == Edited::Misplaced && final(self)@ == old(self)@,
            old(self)@.state == MenuState::SelectingUpdate && index < old(self)@.presets.len()
                ==> r == (Edited::Applied {
                changed: secret@.len() > 0 || resource_id@.len() > 0 || name_accepted(
                    old(self)@.presets,
                    new_name@,
                ),
                name_refused: new_name@.len() > 0 && has_name(old(self)@.presets, new_name@),
            }) && final(self)@ == (MenuView {
                presets: edited(
                    old(self)@.presets,
                    index as int,
                    secret@,
                    resource_id@,
                    new_name@,
                ),
                state: MenuState::SelectingLoad,
            }),
    {
        if self.state != MenuState::SelectingUpdate {
            return Edited::Misplaced;
        }
        let current = match self.store.get(index) {
            Some(p) => p.duplicate(),
            None => {
                return Edited::Misplaced;
            },
        };
        let ghost before = self.store@;
        let mut changed = false;
        let mut name_refused = false;
        let new_secret = if secret.as_str().is_empty() {
            current.credential.secret
        } else {
            changed = true;
            secret
        };
        let new_resource_id = if resource_id.as_str().is_empty() {
            current.credential.resource_id
        } else {
            changed = true;
            resource_id
        };
        proof {
            lemma_position_at(before, index as int);
        }
        self.store.set_credential(
            current.name.as_str(),
            Credential { secret: new_secret, resource_id: new_resource_id },
        );
        let ghost between = self.store@;
        proof {
            lemma_position_at(between, index as int);
            lemma_same_names(before, between, new_name@);
        }
        if !new_name.as_str().is_empty() {
            match self.store.rename(current.name.as_str(), new_name) {
                Ok(_) => {
                    changed = true;
                },
                Err(_) => {
                    name_refused = true;
                },
            }
        }
        self.state = MenuState::SelectingLoad;
        assert(self.store@ =~= edited(before, index as int, secret@, resource_id@, new_name@));
        assert(!changed ==> self.store@ =~= before);
        Edited::Applied { changed, name_refused }
    }

    /// Takes the name entered for a new preset, while one is awaited. A blank
    /// name sends the menu back to loading; otherwise the answer says whether
    /// the name is taken or free, and the menu stays where it is.
    pub fn propose_name(&mut self, name: &str) -> (r: Naming)
        requires
            old(self).wf(),
        ensures
            final(self).wf(),
            final(self)@.presets == old(self)@.presets,
            r == if old(self)@.state != MenuState::SelectingNew {
                Naming::Misplaced
            } else if name@.len() == 0 {
                Naming::Back
            } else if has_name(old(self)@.presets, name@) {
                Naming::Taken
            } else {
                Naming::Free
            },
            final(self)@.state == if r == Naming::Back {
                MenuState::SelectingLoad
            } else {
                old(self)@.state
            },
    {
        if self.state != MenuState::SelectingNew {
            Naming::Misplaced
        } else if name.is_empty() {
            self.state = MenuState::SelectingLoad;
            Naming::Back
        } else if self.store.contains(name) {
            Naming::Taken
        } else {
            Naming::Free
        }
    }

    /// Adds a preset under the entered name, while a name is awaited. A blank
    /// or taken name is answered as by `propose_name`; a free one is stored
    /// at the end with the credential pair, and the menu goes back to
    /// loading.
    pub fn create(&mut self, name: String, secret: String, resource_id: String) -> (r: Naming)
        requires
            old(self).wf(),
        ensures
            final(self).wf(),
            final(self)@.presets != old(self)@.presets ==> r.spec_must_save(),
            r == if old(self)@.state != MenuState::SelectingNew {
                Naming::Misplaced
            } else if name@.len() == 0 {
                Naming::Back
            } else if has_name(old(self)@.presets, name@) {
                Naming::Taken
            } else {
                Naming::Created
            },
            final(self)@.state == if r == Naming::Back || r == Naming::Created {
                MenuState::SelectingLoad
            } else {
                old(self)@.state
            },
            final(self)@.presets == if r == Naming::Created {
                old(self)@.presets.push(
                    PresetView {
                        name: name@,
                        credential: CredentialView { secret: secret@, resource_id: resource_id@ },
                    },
                )
            } else {
                old(self)@.presets
            },
    {
        if self.state != MenuState::SelectingNew {
            return Naming::Misplaced;
        }
        if name.as_str().is_empty() {
            self.state = MenuState::SelectingLoad;
            return Naming::Back;
        }
        match self.store.insert(name, Credential { secret, resource_id }) {
            Err(_) => Naming::Taken,
            Ok(_) => {
                self.state = MenuState::SelectingLoad;
                Naming::Created
            },
        }
    }

    /// Takes the credential pair entered while skipping the presets: the menu
    /// resolves to it, and the store is left alone. `None` where the menu is
    /// not skipping; then nothing is done.
    pub fn skip(&mut self, secret: String, resource_id: String) -> (r: Option<Credential>)
        requires
            old(self).wf(),
        ensures
            final(self).wf(),
            final(self)@.presets == old(self)@.presets,
            old(self)@.state == MenuState::Skipping ==> final(self)@.state == MenuState::Resolved
                && r.is_some() && r.unwrap()@ == (CredentialView {
                secret: secret@,
                resource_id: resource_id@,
            }),
            old(self)@.state != MenuState::Skipping ==> final(self)@.state == old(self)@.state
                && r.is_none(),
    {
        if self.state != MenuState::Skipping {
            return None;
        }
        self.state = MenuState::Resolved;
        Some(Credential { secret, resource_id })
    }
}

/// Two stores with the same names in the same places hold the same names.
proof fn lemma_same_names(a: Seq<PresetView>, b: Seq<PresetView>, name: Seq<char>)
    requires
        a.len() == b.len(),
        forall|k: int| 0 <= k < a.len() ==> (#[trigger] a[k]).name == b[k].name,
    ensures
        has_name(a, name) == has_name(b, name),
{
    if has_name(a, name) {
        let k = choose|k: int| 0 <= k < a.len() && (#[trigger] a[k]).name == name;
        assert(b[k].name == name);
    }
    if has_name(b, name) {
        let k = choose|k: int| 0 <= k < b.len() && (#[trigger] b[k]).name == name;
        assert(a[k].name == name);
    }
}

} // verus!
