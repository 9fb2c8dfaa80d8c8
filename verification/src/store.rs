//! The preset store: named credential pairs, kept in a stable order, with no
//! name occurring twice.

use crate::text::same_text;
use vstd::prelude::*;

verus! {

/// An API secret together with the identifier of the resource to watch.
/// Neither is checked locally.
#[derive(Debug, PartialEq, Eq)]
pub struct Credential {
    pub secret: String,
    pub resource_id: String,
}

/// The characters of a [`Credential`].
pub struct CredentialView {
    pub secret: Seq<char>,
    pub resource_id: Seq<char>,
}

impl View for Credential {
    type V = CredentialView;

    open spec fn view(&self) -> CredentialView {
        CredentialView { secret: self.secret@, resource_id: self.resource_id@ }
    }
}

impl Credential {
    /// A credential pair of the two given texts.
    pub fn new(secret: String, resource_id: String) -> (c: Credential)
        ensures
            c@.secret == secret@,
            c@.resource_id == resource_id@,
    {
        Credential { secret, resource_id }
    }

    /// A copy of this credential pair.
    pub fn duplicate(&self) -> (c: Credential)
        ensures
            c@ == self@,
    {
        Credential { secret: self.secret.clone(), resource_id: self.resource_id.clone() }
    }
}

/// A credential pair under a name.
#[derive(Debug, PartialEq, Eq)]
pub struct Preset {
    pub name: String,
    pub credential: Credential,
}

/// The characters of a [`Preset`].
pub struct PresetView {
    pub name: Seq<char>,
    pub credential: CredentialView,
}

impl View for Preset {
    type V = PresetView;

    open spec fn view(&self) -> PresetView {
        PresetView { name: self.name@, credential: self.credential@ }
    }
}

impl Preset {
    /// A copy of this preset.
    pub fn duplicate(&self) -> (p: Preset)
        ensures
            p@ == self@,
    {
        Preset { name: self.name.clone(), credential: self.credential.duplicate() }
    }
}

/// Whether some preset of `s` is called `name`.
pub open spec fn has_name(s: Seq<PresetView>, name: Seq<char>) -> bool {
    exists|i: int| 0 <= i < s.len() && (#[trigger] s[i]).name == name
}

/// Whether no two presets of `s` share a name.
pub open spec fn distinct_names(s: Seq<PresetView>) -> bool {
    forall|i: int, j: int|
        0 <= i < j < s.len() ==> (#[trigger] s[i]).name != (#[trigger] s[j]).name
}

/// The position of the first preset of `s` called `name`; the length of `s`
/// where there is none.
pub open spec fn position_of(s: Seq<PresetView>, name: Seq<char>) -> int
    decreases s.len(),
{
    if s.len() == 0 {
        0
    } else if s[0].name == name {
        0
    } else {
        1 + position_of(s.drop_first(), name)
    }
}

/// `position_of` is within bounds exactly for a name that occurs, and then
/// points at a preset of that name with no such preset before it.
pub proof fn lemma_position_of(s: Seq<PresetView>, name: Seq<char>)
    ensures
        0 <= position_of(s, name) <= s.len(),
        has_name(s, name) <==> position_of(s, name) < s.len(),
        position_of(s, name) < s.len() ==> s[position_of(s, name)].name == name,
        forall|k: int| 0 <= k < position_of(s, name) ==> (#[trigger] s[k]).name != name,
    decreases s.len(),
{
    if s.len() == 0 {
    } else if s[0].name == name {
    } else {
        let t = s.drop_first();
        lemma_position_of(t, name);
        let p = position_of(t, name);
        assert forall|k: int| 0 <= k < p + 1 implies (#[trigger] s[k]).name != name by {
            if k > 0 {
                assert(t[k - 1] == s[k]);
            }
        }
        if p < t.len() {
            assert(s[p + 1] == t[p]);
        }
        if has_name(s, name) {
            let i = choose|i: int| 0 <= i < s.len() && (#[trigger] s[i]).name == name;
            assert(t[i - 1] == s[i]);
        }
    }
}

/// In a store without repeated names, the name of the preset at position `i`
/// is found at `i` and nowhere else.
pub proof fn lemma_position_at(s: Seq<PresetView>, i: int)
    requires
        distinct_names(s),
        0 <= i < s.len(),
    ensures
        has_name(s, s[i].name),
        position_of(s, s[i].name) == i,
{
    lemma_position_of(s, s[i].name);
    let p = position_of(s, s[i].name);
    if p < i {
        assert(s[p].name != s[i].name);
    }
}

/// Why a preset could not be added: its name is taken.
#[derive(Clone, Copy, Debug, PartialEq, Eq, Structural)]
pub struct DuplicateName;

/// Why a preset could not be renamed.
#[derive(Clone, Copy, Debug, PartialEq, Eq, Structural)]
pub enum RenameError {
    /// The new name is taken, possibly by the preset itself.
    DuplicateName,
    /// No preset has the old name.
    UnknownName,
}

/// The presets `s` after the one at position `i` took the name `new_name`.
pub open spec fn renamed(s: Seq<PresetView>, i: int, new_name: Seq<char>) -> Seq<PresetView> {
    s.update(i, PresetView { name: new_name, credential: s[i].credential })
}

/// The presets `s` after an attempt to add `name` with the credential pair
/// `c`: it goes to the end, unless the name is taken.
pub open spec fn inserted(s: Seq<PresetView>, name: Seq<char>, c: CredentialView) -> Seq<
    PresetView,
> {
    if has_name(s, name) {
        s
    } else {
        s.push(PresetView { name, credential: c })
    }
}

/// The presets `s` after an attempt to take out the one called `name`: the
/// others keep their order.
pub open spec fn removed(s: Seq<PresetView>, name: Seq<char>) -> Seq<PresetView> {
    if has_name(s, name) {
        s.remove(position_of(s, name))
    } else {
        s
    }
}

/// What an attempt to rename `old_name` to `new_name` in `s` comes to.
pub open spec fn rename_result(s: Seq<PresetView>, old_name: Seq<char>, new_name: Seq<char>)
    -> Result<(), RenameError> {
    if has_name(s, new_name) {
        Err(RenameError::DuplicateName)
    } else if !has_name(s, old_name) {
        Err(RenameError::UnknownName)
    } else {
        Ok(())
    }
}

/// The presets `s` after an attempt to rename `old_name` to `new_name`: the
/// preset keeps its place and its credential pair; a failed attempt changes
/// nothing.
pub open spec fn renamed_to(s: Seq<PresetView>, old_name: Seq<char>, new_name: Seq<char>) -> Seq<
    PresetView,
> {
    if rename_result(s, old_name, new_name).is_ok() {
        renamed(s, position_of(s, old_name), new_name)
    } else {
        s
    }
}

/// The credential pair that `s` holds under `name`, if any.
pub open spec fn credential_of(s: Seq<PresetView>, name: Seq<char>) -> Option<CredentialView> {
    if has_name(s, name) {
        Some(s[position_of(s, name)].credential)
    } else {
        None
    }
}

/// The listing of `s`: each name with its position, in order.
pub open spec fn listed(s: Seq<PresetView>) -> Seq<(usize, Seq<char>)> {
    Seq::new(s.len(), |i: int| (i as usize, s[i].name))
}

/// The characters of a listing.
pub open spec fn listing_view(v: Seq<(usize, String)>) -> Seq<(usize, Seq<char>)> {
    v.map_values(|e: (usize, String)| (e.0, e.1@))
}

/// What loading `entries` comes to: the presets as they are, unless two of
/// them share a name.
pub open spec fn reloaded(entries: Seq<PresetView>) -> Option<Seq<PresetView>> {
    if distinct_names(entries) {
        Some(entries)
    } else {
        None
    }
}

/// The presets `s` after the one at position `i` took the credential pair `c`.
pub open spec fn recredentialed(s: Seq<PresetView>, i: int, c: CredentialView) -> Seq<
    PresetView,
> {
    s.update(i, PresetView { name: s[i].name, credential: c })
}

/// The characters of each preset of `v`, in order.
pub open spec fn views_of(v: Seq<Preset>) -> Seq<PresetView> {
    v.map_values(|p: Preset| p@)
}

/// The named presets, in the order in which they were added.
pub struct PresetStore {
    entries: Vec<Preset>,
}

impl View for PresetStore {
    type V = Seq<PresetView>;

    closed spec fn view(&self) -> Seq<PresetView> {
        views_of(self.entries@)
    }
}

impl PresetStore {
    /// Whether the store is valid: no name occurs twice.
    pub open spec fn wf(&self) -> bool {
        distinct_names(self@)
    }

    /// A store without presets.
    pub fn new() -> (s: PresetStore)
        ensures
            s.wf(),
            s@ == Seq::<PresetView>::empty(),
    {
        let s = PresetStore { entries: Vec::new() };
        assert(s@ =~= Seq::<PresetView>::empty());
        s
    }

    /// The number of presets.
    pub fn len(&self) -> (n: usize)
        ensures
            n == self@.len(),
    {
        self.entries.len()
    }

    /// Whether the store holds no preset.
    pub fn is_empty(&self) -> (b: bool)
        ensures
            b == (self@.len() == 0),
    {
        self.entries.len() == 0
    }

    /// The position of the preset called `name`, if there is one.
    pub fn find(&self, name: &str) -> (r: Option<usize>)
        ensures
            match r {
                Some(i) => has_name(self@, name@) && i == position_of(self@, name@),
                None => !has_name(self@, name@),
            },
    {
        let mut i: usize = 0;
        while i < self.entries.len()
            invariant
                i <= self.entries.len(),
                forall|k: int| 0 <= k < i ==> (#[trigger] self@[k]).name != name@,
            decreases self.entries.len() - i,
        {
            if same_text(self.entries[i].name.as_str(), name) {
                assert(self@[i as int].name == name@);
                proof {
                    lemma_position_of(self@, name@);
                }
                return Some(i);
            }
            i += 1;
        }
        None
    }

    /// Whether a preset is called `name`.
    pub fn contains(&self, name: &str) -> (b: bool)
        ensures
            b == has_name(self@, name@),
    {
        self.find(name).is_some()
    }

    /// The credential pair stored under `name`, if any.
    pub fn lookup(&self, name: &str) -> (r: Option<&Credential>)
        ensures
            match r {
                Some(c) => credential_of(self@, name@) == Some(c@),
                None => credential_of(self@, name@).is_none(),
            },
    {
        match self.find(name) {
            Some(i) => {
                proof {
                    lemma_position_of(self@, name@);
                }
                Some(&self.entries[i].credential)
            },
            None => None,
        }
    }

    /// Adds a preset at the end, unless its name is taken; then nothing
    /// changes.
    pub fn insert(&mut self, name: String, credential: Credential) -> (r: Result<
        (),
        DuplicateName,
    >)
        requires
            old(self).wf(),
        ensures
            final(self).wf(),
            r.is_ok() == !has_name(old(self)@, name@),
            final(self)@ == inserted(old(self)@, name@, credential@),
    {
        if self.contains(name.as_str()) {
            return Err(DuplicateName);
        }
        let ghost added = PresetView { name: name@, credential: credential@ };
        self.entries.push(Preset { name, credential });
        assert(self@ =~= old(self)@.push(added));
        Ok(())
    }

    /// Gives the preset called `old_name` the name `new_name`, in place. Fails,
    /// changing nothing, where `new_name` is taken or `old_name` is unknown.
    pub fn rename(&mut self, old_name: &str, new_name: String) -> (r: Result<(), RenameError>)
        requires
            old(self).wf(),
        ensures
            final(self).wf(),
            r == rename_result(old(self)@, old_name@, new_name@),
            final(self)@ == renamed_to(old(self)@, old_name@, new_name@),
    {
        if self.contains(new_name.as_str()) {
            return Err(RenameError::DuplicateName);
        }
        match self.find(old_name) {
            None => Err(RenameError::UnknownName),
            Some(i) => {
                proof {
                    lemma_position_of(self@, old_name@);
                }
                let ghost before = self@;
                self.entries[i].name = new_name;
                assert(self@ =~= renamed(before, i as int, new_name@));
                Ok(())
            },
        }
    }

    /// Takes out the preset called `name` and returns it; the others keep
    /// their order. Where no preset has that name, nothing changes.
    pub fn remove(&mut self, name: &str) -> (r: Option<Preset>)
        requires
            old(self).wf(),
        ensures
            final(self).wf(),
            final(self)@ == removed(old(self)@, name@),
            match r {
                Some(p) => has_name(old(self)@, name@) && p@ == old(self)@[position_of(
                    old(self)@,
                    name@,
                )],
                None => !has_name(old(self)@, name@),
            },
    {
        match self.find(name) {
            None => None,
            Some(i) => {
                proof {
                    lemma_position_of(self@, name@);
                }
                let p = self.entries.remove(i);
                assert(self@ =~= old(self)@.remove(i as int));
                Some(p)
            },
        }
    }

    /// Replaces the credential pair of the preset called `name`. Returns
    /// whether there is such a preset; where there is none, nothing changes.
    pub fn set_credential(&mut self, name: &str, credential: Credential) -> (found: bool)
        requires
            old(self).wf(),
        ensures
            final(self).wf(),
            found == has_name(old(self)@, name@),
            found ==> final(self)@ == recredentialed(
                old(self)@,
                position_of(old(self)@, name@),
                credential@,
            ),
            !found ==> final(self)@ == old(self)@,
    {
        match self.find(name) {
            None => false,
            Some(i) => {
                proof {
                    lemma_position_of(self@, name@);
                }
                let ghost before = self@;
                self.entries[i].credential = credential;
                assert(self@ =~= recredentialed(before, i as int, credential@));
                true
            },
        }
    }

    /// The names in order, each with its position.
    pub fn list(&self) -> (listing: Vec<(usize, String)>)
        ensures
            listing_view(listing@) == listed(self@),
    {
        let mut listing: Vec<(usize, String)> = Vec::new();
        let mut i: usize = 0;
        while i < self.entries.len()
            invariant
                i <= self.entries.len(),
                listing@.len() == i,
                forall|k: int|
                    0 <= k < i ==> (#[trigger] listing@[k]).0 == k && listing@[k].1@
                        == self@[k].name,
            decreases self.entries.len() - i,
        {
            listing.push((i, self.entries[i].name.clone()));
            i += 1;
        }
        assert(listing_view(listing@) =~= listed(self@));
        listing
    }

    /// A copy of every preset, in order.
    pub fn entries(&self) -> (copy: Vec<Preset>)
        ensures
            views_of(copy@) == self@,
    {
        let mut copy: Vec<Preset> = Vec::new();
        let mut i: usize = 0;
        while i < self.entries.len()
            invariant
                i <= self.entries.len(),
                copy@.len() == i,
                forall|k: int| 0 <= k < i ==> (#[trigger] copy@[k])@ == self@[k],
            decreases self.entries.len() - i,
        {
            copy.push(self.entries[i].duplicate());
            i += 1;
        }
        assert(views_of(copy@) =~= self@);
        copy
    }

    /// The store that holds `entries` in their order. Fails where two of
    /// them share a name.
    pub fn from_entries(entries: Vec<Preset>) -> (r: Result<PresetStore, DuplicateName>)
        ensures
            match reloaded(views_of(entries@)) {
                Some(s) => r.is_ok() && r.unwrap().wf() && r.unwrap()@ == s,
                None => r.is_err(),
            },
    {
        let ghost all = views_of(entries@);
        let mut store = PresetStore::new();
        let mut i: usize = 0;
        while i < entries.len()
            invariant
                i <= entries.len(),
                all == views_of(entries@),
                store.wf(),
                store@ == all.take(i as int),
            decreases entries.len() - i,
        {
            let p = entries[i].duplicate();
            let ghost before = store@;
            match store.insert(p.name, p.credential) {
                Err(_) => {
                    proof {
                        let k = choose|k: int|
                            0 <= k < before.len() && (#[trigger] before[k]).name == all[i as int].name;
                        assert(all[k] == before[k]);
                    }
                    return Err(DuplicateName);
                },
                Ok(_) => {
                    assert(store@ =~= all.take(i + 1));
                },
            }
            i += 1;
        }
        assert(all.take(i as int) =~= all);
        Ok(store)
    }

    /// The preset at position `index`, if the store has that many.
    pub fn get(&self, index: usize) -> (r: Option<&Preset>)
        ensures
            index < self@.len() ==> r.is_some() && r.unwrap()@ == self@[index as int],
            index >= self@.len() ==> r.is_none(),
    {
        if index < self.entries.len() {
            Some(&self.entries[index])
        } else {
            None
        }
    }
}

/// Adding a preset to an empty store leaves a store that lists exactly that
/// name, at position 0.
pub proof fn law_first_insert_lists_one(name: Seq<char>, c: CredentialView)
    ensures
        listed(inserted(Seq::<PresetView>::empty(), name, c)) == seq![(0usize, name)],
{
    let empty = Seq::<PresetView>::empty();
    assert(!has_name(empty, name));
    assert(listed(inserted(empty, name, c)) =~= seq![(0usize, name)]);
}

/// A preset that was added is found afterwards, at the end, with the
/// credential pair it was given.
pub proof fn law_inserted_is_found(s: Seq<PresetView>, name: Seq<char>, c: CredentialView)
    requires
        !has_name(s, name),
    ensures
        has_name(inserted(s, name, c), name),
        position_of(inserted(s, name, c), name) == s.len(),
        inserted(s, name, c)[s.len() as int].credential == c,
{
    let t = inserted(s, name, c);
    assert(t[s.len() as int].name == name);
    lemma_position_of(t, name);
    let p = position_of(t, name);
    if p < s.len() {
        assert(s[p] == t[p]);
    }
}

/// Adding under a name that is taken changes nothing: every preset keeps its
/// name, place and credential pair.
pub proof fn law_insert_taken_changes_nothing(
    s: Seq<PresetView>,
    name: Seq<char>,
    c: CredentialView,
)
    requires
        has_name(s, name),
    ensures
        inserted(s, name, c) == s,
{
}

/// Renaming to a name that is taken fails as a duplicate and changes
/// nothing, whatever the old name is.
pub proof fn law_rename_collision_changes_nothing(
    s: Seq<PresetView>,
    old_name: Seq<char>,
    new_name: Seq<char>,
)
    requires
        has_name(s, new_name),
    ensures
        rename_result(s, old_name, new_name) == Err::<(), RenameError>(RenameError::DuplicateName),
        renamed_to(s, old_name, new_name) == s,
{
}

/// A successful renaming keeps the number of presets, the place and the
/// credential pair of the renamed one, and every other preset as it was.
pub proof fn law_rename_keeps_the_rest(
    s: Seq<PresetView>,
    old_name: Seq<char>,
    new_name: Seq<char>,
)
    requires
        rename_result(s, old_name, new_name).is_ok(),
    ensures
        renamed_to(s, old_name, new_name).len() == s.len(),
        0 <= position_of(s, old_name) < s.len(),
        renamed_to(s, old_name, new_name)[position_of(s, old_name)] == (PresetView {
            name: new_name,
            credential: s[position_of(s, old_name)].credential,
        }),
        forall|k: int|
            0 <= k < s.len() && k != position_of(s, old_name) ==> #[trigger] renamed_to(
                s,
                old_name,
                new_name,
            )[k] == s[k],
{
    lemma_position_of(s, old_name);
}

/// Removing a name that no preset has changes nothing.
pub proof fn law_remove_absent_changes_nothing(s: Seq<PresetView>, name: Seq<char>)
    requires
        !has_name(s, name),
    ensures
        removed(s, name) == s,
{
}

/// Once removed, a name is gone: removing it again changes nothing more.
pub proof fn law_remove_twice(s: Seq<PresetView>, name: Seq<char>)
    requires
        distinct_names(s),
    ensures
        !has_name(removed(s, name), name),
        removed(removed(s, name), name) == removed(s, name),
{
    if has_name(s, name) {
        lemma_position_of(s, name);
        let p = position_of(s, name);
        let t = s.remove(p);
        if has_name(t, name) {
            let k = choose|k: int| 0 <= k < t.len() && (#[trigger] t[k]).name == name;
            if k < p {
                assert(t[k] == s[k]);
                assert(s[k].name != s[p].name);
            } else {
                assert(t[k] == s[k + 1]);
                assert(s[p].name != s[k + 1].name);
            }
        }
    }
}

/// No operation of the store makes two presets share a name.
pub proof fn law_names_stay_distinct(
    s: Seq<PresetView>,
    name: Seq<char>,
    other: Seq<char>,
    c: CredentialView,
)
    requires
        distinct_names(s),
    ensures
        distinct_names(inserted(s, name, c)),
        distinct_names(removed(s, name)),
        distinct_names(renamed_to(s, name, other)),
{
    lemma_position_of(s, name);
    let a = inserted(s, name, c);
    assert forall|i: int, j: int| 0 <= i < j < a.len() implies (#[trigger] a[i]).name
        != (#[trigger] a[j]).name by {
        if !has_name(s, name) {
            assert(a[i] == s[i]);
            if j < s.len() {
                assert(a[j] == s[j]);
            }
        }
    }
    let r = removed(s, name);
    assert forall|i: int, j: int| 0 <= i < j < r.len() implies (#[trigger] r[i]).name
        != (#[trigger] r[j]).name by {
        if has_name(s, name) {
            let p = position_of(s, name);
            let si = if i < p {
                i
            } else {
                i + 1
            };
            let sj = if j < p {
                j
            } else {
                j + 1
            };
            assert(r[i] == s[si]);
            assert(r[j] == s[sj]);
        }
    }
    let n = renamed_to(s, name, other);
    assert forall|i: int, j: int| 0 <= i < j < n.len() implies (#[trigger] n[i]).name
        != (#[trigger] n[j]).name by {
        if rename_result(s, name, other).is_ok() {
            let p = position_of(s, name);
            if i != p {
                assert(n[i] == s[i]);
            }
            if j != p {
                assert(n[j] == s[j]);
            }
        }
    }
}

/// Loading what was saved gives the store back: the copy that `entries`
/// hands out is accepted by `from_entries`, with every preset in its place.
pub proof fn law_save_then_load(s: Seq<PresetView>)
    requires
        distinct_names(s),
    ensures
        reloaded(s) == Some(s),
{
}

/// A store is a mapping from names: two valid stores that hold the same
/// presets, in whatever order, hold the same credential pair under every
/// name.
pub proof fn law_lookup_ignores_order(a: Seq<PresetView>, b: Seq<PresetView>, name: Seq<char>)
    requires
        distinct_names(a),
        distinct_names(b),
        a.to_multiset() == b.to_multiset(),
    ensures
        has_name(a, name) == has_name(b, name),
        credential_of(a, name) == credential_of(b, name),
{
    lemma_same_presets_same_lookup(a, b, name);
    lemma_same_presets_same_lookup(b, a, name);
}

/// One direction of `law_lookup_ignores_order`: what `a` holds under `name`,
/// `b` holds too.
proof fn lemma_same_presets_same_lookup(a: Seq<PresetView>, b: Seq<PresetView>, name: Seq<char>)
    requires
        distinct_names(b),
        a.to_multiset() == b.to_multiset(),
    ensures
        has_name(a, name) ==> has_name(b, name) && credential_of(b, name) == credential_of(
            a,
            name,
        ),
{
    if has_name(a, name) {
        lemma_position_of(a, name);
        let found = a[position_of(a, name)];
        assert(a.contains(found));
        a.to_multiset_ensures();
        b.to_multiset_ensures();
        assert(a.to_multiset().count(found) > 0);
        assert(b.to_multiset().count(found) > 0);
        assert(b.contains(found));
        let q = choose|q: int| 0 <= q < b.len() && b[q] == found;
        lemma_position_at(b, q);
    }
}

} // verus!
