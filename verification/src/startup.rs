//! What happens before the menu: the outcome of reading the durable store
//! decides whether the menu runs, the operator is asked something first, or
//! the program ends.

use crate::menu::{Menu, MenuState, MenuView};
use crate::store::{
    distinct_names, has_name, views_of, Credential, CredentialView, Preset, PresetStore,
    PresetView,
};
use vstd::prelude::*;

verus! {

/// What reading the durable store gave.
#[derive(Debug, PartialEq, Eq)]
pub enum Loaded {
    /// The presets that it holds, in the order in which they are shown.
    Presets(Vec<Preset>),
    /// There is no store yet.
    Missing,
    /// There is one, but its contents are malformed.
    Corrupt,
    /// It could not be read, for the reason given.
    Unreadable(String),
}

/// How the program goes on once the store has been read.
pub enum Startup {
    /// The menu runs over the loaded presets.
    Menu(Menu),
    /// The operator is asked whether to create a first preset.
    OfferCreate,
    /// The operator is asked whether to delete the malformed store; the
    /// program ends either way.
    OfferDelete,
    /// The program ends, reporting the reason.
    Abort(String),
}

/// Decides how the program goes on. Presets that repeat a name count as a
/// malformed store: nothing is dropped or repaired.
pub fn begin(loaded: Loaded) -> (r: Startup)
    ensures
        match loaded {
            Loaded::Presets(entries) => if distinct_names(views_of(entries@)) {
                r matches Startup::Menu(m) && m.wf() && m@ == (MenuView {
                    presets: views_of(entries@),
                    state: MenuState::SelectingLoad,
                })
            } else {
                r == Startup::OfferDelete
            },
            Loaded::Missing => r == Startup::OfferCreate,
            Loaded::Corrupt => r == Startup::OfferDelete,
            Loaded::Unreadable(reason) => r == Startup::Abort(reason),
        },
{
    match loaded {
        Loaded::Presets(entries) => match PresetStore::from_entries(entries) {
            Ok(store) => Startup::Menu(Menu::new(store)),
            Err(_) => Startup::OfferDelete,
        },
        Loaded::Missing => Startup::OfferCreate,
        Loaded::Corrupt => Startup::OfferDelete,
        Loaded::Unreadable(reason) => Startup::Abort(reason),
    }
}

/// The store of a first run, holding the one preset entered, and the
/// credential pair that the program goes on with.
pub fn first_run(name: String, secret: String, resource_id: String) -> (r: (
    PresetStore,
    Credential,
))
    ensures
        r.0.wf(),
        r.0@ == seq![
            PresetView {
                name: name@,
                credential: CredentialView { secret: secret@, resource_id: resource_id@ },
            },
        ],
        r.1@ == (CredentialView { secret: secret@, resource_id: resource_id@ }),
{
    let credential = Credential { secret, resource_id };
    let resolved = credential.duplicate();
    let mut store = PresetStore::new();
    assert(!has_name(store@, name@));
    let _ = store.insert(name, credential);
    assert(store@ =~= seq![
        PresetView {
            name: name@,
            credential: CredentialView { secret: secret@, resource_id: resource_id@ },
        },
    ]);
    (store, resolved)
}

} // verus!
