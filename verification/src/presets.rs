//! Named presets: the actions they hold and the table that keeps them by name.

use vstd::prelude::*;
use crate::text::{seq_lt, str_eq, str_lt, lemma_seq_lt_irreflexive, lemma_seq_lt_transitive,
    lemma_seq_lt_trichotomy};

verus! {

/// One group's part of a preset: a brightness, a colour, or both.
#[derive(Debug, Clone, PartialEq, Eq)]
pub struct PresetAction {
    /// The group (room) the action targets.
    pub group: String,
    /// Brightness 0–100 (%).
    pub dim: Option<u8>,
    /// RGB values 0–255.
    pub rgb: Option<[u8; 3]>,
}

/// A preset action as a mathematical value.
pub struct PresetActionView {
    pub group: Seq<char>,
    pub dim: Option<u8>,
    pub rgb: Option<[u8; 3]>,
}

impl View for PresetAction {
    type V = PresetActionView;

    open spec fn view(&self) -> PresetActionView {
        PresetActionView { group: self.group@, dim: self.dim, rgb: self.rgb }
    }
}

/// A named preset: one or more group actions applied together.
#[derive(Debug, Clone, PartialEq, Eq)]
pub struct Preset {
    pub actions: Vec<PresetAction>,
}

impl View for Preset {
    type V = Seq<PresetActionView>;

    open spec fn view(&self) -> Seq<PresetActionView> {
        self.actions@.map_values(|a: PresetAction| a@)
    }
}

/// The presets, each under its own name. They are kept in a vector sorted by
/// name rather than a `HashMap`: vstd's `HashMap` specifications hold only for
/// key types that follow its key model, which `String` does not, and the order
/// is the one `preset list` shows.
#[derive(Debug)]
pub struct Presets {
    entries: Vec<(String, Preset)>,
}

/// An index of `names` that holds `k`.
pub open spec fn index_of_name(names: Seq<Seq<char>>, k: Seq<char>) -> int {
    choose|i: int| 0 <= i < names.len() && names[i] == k
}

/// Whether `names` is in strictly increasing order.
pub open spec fn strictly_sorted(names: Seq<Seq<char>>) -> bool {
    forall|i: int, j: int| 0 <= i < j < names.len() ==> seq_lt(#[trigger] names[i], #[trigger] names[j])
}

/// The names of a list of named presets, in order.
pub open spec fn names_of(entries: Seq<(String, Preset)>) -> Seq<Seq<char>> {
    entries.map_values(|e: (String, Preset)| e.0@)
}

impl Presets {
    /// The names, in the order the table keeps them.
    pub closed spec fn names(&self) -> Seq<Seq<char>> {
        names_of(self.entries@)
    }

    /// The table keeps its names in strictly increasing order, so each name
    /// once. Every table holds this.
    #[verifier::type_invariant]
    pub closed spec fn wf(&self) -> bool {
        strictly_sorted(self.names())
    }

    /// The number of presets.
    pub closed spec fn count(&self) -> nat {
        self.entries@.len()
    }

    /// The name at position `i`.
    pub closed spec fn name_at(&self, i: int) -> Seq<char> {
        self.entries@[i].0@
    }
}

impl View for Presets {
    type V = Map<Seq<char>, Seq<PresetActionView>>;

    closed spec fn view(&self) -> Map<Seq<char>, Seq<PresetActionView>> {
        Map::new(
            |k: Seq<char>| self.names().contains(k),
            |k: Seq<char>| self.entries@[index_of_name(self.names(), k)].1@,
        )
    }
}

impl Presets {
    proof fn lemma_view_at(&self, i: int)
        requires
            self.wf(),
            0 <= i < self.entries@.len(),
        ensures
            self@.contains_key(self.entries@[i].0@),
            self@[self.entries@[i].0@] == self.entries@[i].1@,
    {
        let names = self.names();
        let k = self.entries@[i].0@;
        assert(names[i] == k);
        assert(names.contains(k));
        let j = index_of_name(names, k);
        if j != i {
            lemma_seq_lt_irreflexive(k);
            if j < i {
                assert(seq_lt(names[j], names[i]));
            } else {
                assert(seq_lt(names[i], names[j]));
            }
        }
    }

    proof fn lemma_view_dom(&self, k: Seq<char>)
        ensures
            self@.contains_key(k) <==> exists|i: int| 0 <= i < self.entries@.len() && self.entries@[i].0@ == k,
    {
        let names = self.names();
        if self@.contains_key(k) {
            let i = choose|i: int| 0 <= i < names.len() && names[i] == k;
            assert(self.entries@[i].0@ == k);
        }
        if exists|i: int| 0 <= i < self.entries@.len() && self.entries@[i].0@ == k {
            let i = choose|i: int| 0 <= i < self.entries@.len() && self.entries@[i].0@ == k;
            assert(names[i] == k);
        }
    }

    /// What the table states of itself when well formed: its names, in order,
    /// are exactly the presets' names, each once, in increasing order.
    pub proof fn lemma_names(&self)
        requires
            self.wf(),
        ensures
            self.names().len() == self.count(),
            strictly_sorted(self.names()),
            forall|i: int| 0 <= i < self.count() ==> #[trigger] self.names()[i] == self.name_at(i),
            forall|k: Seq<char>| #[trigger] self@.contains_key(k) <==> self.names().contains(k),
    {
        assert forall|k: Seq<char>| #[trigger] self@.contains_key(k) <==> self.names().contains(k) by {
            self.lemma_view_dom(k);
            if self.names().contains(k) {
                let i = choose|i: int| 0 <= i < self.names().len() && self.names()[i] == k;
                assert(self.entries@[i].0@ == k);
            }
        }
    }

    /// An empty table.
    pub fn new() -> (r: Presets)
        ensures
            r@ == Map::<Seq<char>, Seq<PresetActionView>>::empty(),
    {
        let r = Presets { entries: Vec::new() };
        assert(r@ =~= Map::<Seq<char>, Seq<PresetActionView>>::empty());
        r
    }

    /// Whether the table holds no preset.
    pub fn is_empty(&self) -> (r: bool)
        ensures
            r == (self@.dom().len() == 0),
    {
        proof {
            use_type_invariant(self);
        }
        proof {
            if self.entries@.len() > 0 {
                self.lemma_view_at(0);
                assert(self@.dom().contains(self.entries@[0].0@));
                assert(self@.dom().finite()) by {
                    assert(self@.dom() =~= self.names().to_set());
                }
            } else {
                assert(self@.dom() =~= Set::<Seq<char>>::empty());
            }
        }
        self.entries.len() == 0
    }

    /// The preset named `name`, if there is one.
    pub fn get(&self, name: &str) -> (r: Option<&Preset>)
        ensures
            r is Some <==> self@.contains_key(name@),
            r matches Some(p) ==> p@ == self@[name@],
    {
        proof {
            use_type_invariant(self);
        }
        match self.locate(name) {
            Ok(i) => {
                proof {
                    self.lemma_view_at(i as int);
                }
                Some(&self.entries[i].1)
            },
            Err(p) => {
                proof {
                    self.lemma_view_dom(name@);
                    if self@.contains_key(name@) {
                        let j = choose|j: int| 0 <= j < self.entries@.len() && self.entries@[j].0@ == name@;
                        assert(self.names()[j] == name@);
                        lemma_seq_lt_irreflexive(name@);
                    }
                }
                None
            },
        }
    }

    /// Stores `preset` under `name`, replacing any preset of that name.
    pub fn insert(&mut self, name: String, preset: Preset)
        ensures
            final(self)@ == old(self)@.insert(name@, preset@),
    {
        let ghost k = name@;
        let ghost v = preset@;
        proof {
            use_type_invariant(&*self);
        }
        let ghost before = *self;
        match self.locate(name.as_str()) {
            Ok(i) => {
                let mut entries: Vec<(String, Preset)> = Vec::new();
                std::mem::swap(&mut entries, &mut self.entries);
                entries.set(i, (name, preset));
                assert(names_of(entries@) =~= before.names());
                self.entries = entries;
                proof {
                    self.lemma_view_at(i as int);
                    assert forall|key: Seq<char>| #[trigger] self@.contains_key(key) <==> before@.insert(k, v).contains_key(key) by {
                        self.lemma_view_dom(key);
                        before.lemma_view_dom(key);
                        if self@.contains_key(key) {
                            let j = choose|j: int| 0 <= j < self.entries@.len() && self.entries@[j].0@ == key;
                            assert(before.entries@[j].0@ == key);
                        }
                        if before@.contains_key(key) {
                            let j = choose|j: int| 0 <= j < before.entries@.len() && before.entries@[j].0@ == key;
                            assert(self.entries@[j].0@ == key);
                        }
                    }
                    assert forall|key: Seq<char>| #[trigger] self@.contains_key(key) implies self@[key] == before@.insert(k, v)[key] by {
                        self.lemma_view_dom(key);
                        let j = choose|j: int| 0 <= j < self.entries@.len() && self.entries@[j].0@ == key;
                        self.lemma_view_at(j);
                        if j != i {
                            before.lemma_view_at(j);
                        }
                    }
                    assert(self@ =~= before@.insert(k, v));
                }
            },
            Err(p) => {
                let mut entries: Vec<(String, Preset)> = Vec::new();
                std::mem::swap(&mut entries, &mut self.entries);
                entries.insert(p, (name, preset));
                proof {
                    let ns = names_of(entries@);
                    assert(ns =~= before.names().insert(p as int, k));
                    assert forall|a: int, b: int| 0 <= a < b < ns.len() implies seq_lt(#[trigger] ns[a], #[trigger] ns[b]) by {
                        if a < p && b > p {
                            lemma_seq_lt_transitive(ns[a], k, ns[b]);
                        }
                    }
                }
                self.entries = entries;
                proof {
                    assert forall|key: Seq<char>| #[trigger] self@.contains_key(key) <==> before@.insert(k, v).contains_key(key) by {
                        self.lemma_view_dom(key);
                        before.lemma_view_dom(key);
                        if self@.contains_key(key) && key != k {
                            let j = choose|j: int| 0 <= j < self.entries@.len() && self.entries@[j].0@ == key;
                            if j < p {
                                assert(before.entries@[j].0@ == key);
                            } else {
                                assert(before.entries@[j - 1].0@ == key);
                            }
                        }
                        if before@.contains_key(key) {
                            let j = choose|j: int| 0 <= j < before.entries@.len() && before.entries@[j].0@ == key;
                            if j < p {
                                assert(self.entries@[j].0@ == key);
                            } else {
                                assert(self.entries@[j + 1].0@ == key);
                            }
                        }
                        if key == k {
                            assert(self.entries@[p as int].0@ == key);
                        }
                    }
                    assert forall|key: Seq<char>| #[trigger] self@.contains_key(key) implies self@[key] == before@.insert(k, v)[key] by {
                        self.lemma_view_dom(key);
                        let j = choose|j: int| 0 <= j < self.entries@.len() && self.entries@[j].0@ == key;
                        self.lemma_view_at(j);
                        if j < p {
                            before.lemma_view_at(j);
                            assert(key != k) by {
                                lemma_seq_lt_irreflexive(k);
                            }
                        } else if j > p {
                            before.lemma_view_at(j - 1);
                            assert(key != k) by {
                                lemma_seq_lt_irreflexive(k);
                            }
                        }
                    }
                    assert(self@ =~= before@.insert(k, v));
                }
            },
        }
    }

    /// Appends `action` to the preset named `name`. Returns whether there was
    /// such a preset; when there was none the table is left as it was.
    pub fn push_action(&mut self, name: &str, action: PresetAction) -> (found: bool)
        ensures
            found == old(self)@.contains_key(name@),
            found ==> final(self)@ == old(self)@.insert(name@, old(self)@[name@].push(action@)),
            !found ==> final(self)@ == old(self)@,
    {
        proof {
            use_type_invariant(&*self);
        }
        let ghost before = *self;
        match self.locate(name) {
            Ok(i) => {
                let mut entries: Vec<(String, Preset)> = Vec::new();
                std::mem::swap(&mut entries, &mut self.entries);
                let (n, mut preset) = entries.remove(i);
                let ghost old_actions = preset@;
                preset.actions.push(action);
                proof {
                    before.lemma_view_at(i as int);
                    assert(preset@ =~= old_actions.push(action@));
                    assert(n@ == name@);
                }
                entries.insert(i, (n, preset));
                assert(entries@ =~= before.entries@.update(i as int, (n, preset)));
                assert(names_of(entries@) =~= before.names());
                self.entries = entries;
                proof {
                    let k = name@;
                    let v = before@[name@].push(action@);
                    assert forall|key: Seq<char>| #[trigger] self@.contains_key(key) <==> before@.insert(k, v).contains_key(key) by {
                        self.lemma_view_dom(key);
                        before.lemma_view_dom(key);
                        if self@.contains_key(key) {
                            let j = choose|j: int| 0 <= j < self.entries@.len() && self.entries@[j].0@ == key;
                            assert(before.entries@[j].0@ == key);
                        }
                        if before@.contains_key(key) {
                            let j = choose|j: int| 0 <= j < before.entries@.len() && before.entries@[j].0@ == key;
                            assert(self.entries@[j].0@ == key);
                        }
                    }
                    assert forall|key: Seq<char>| #[trigger] self@.contains_key(key) implies self@[key] == before@.insert(k, v)[key] by {
                        self.lemma_view_dom(key);
                        let j = choose|j: int| 0 <= j < self.entries@.len() && self.entries@[j].0@ == key;
                        self.lemma_view_at(j);
                        if j != i {
                            before.lemma_view_at(j);
                            lemma_seq_lt_irreflexive(k);
                            if j < i {
                                assert(seq_lt(self.names()[j], self.names()[i as int]));
                            } else {
                                assert(seq_lt(self.names()[i as int], self.names()[j]));
                            }
                        } else {
                            assert(self.entries@[i as int].1@ == old_actions.push(action@));
                        }
                    }
                    assert(self@ =~= before@.insert(k, v));
                }
                true
            },
            Err(p) => {
                proof {
                    self.lemma_view_dom(name@);
                    if self@.contains_key(name@) {
                        let j = choose|j: int| 0 <= j < self.entries@.len() && self.entries@[j].0@ == name@;
                        assert(self.names()[j] == name@);
                        lemma_seq_lt_irreflexive(name@);
                    }
                }
                false
            },
        }
    }

    /// Removes the preset named `name`. Returns whether there was one.
    pub fn remove(&mut self, name: &str) -> (found: bool)
        ensures
            found == old(self)@.contains_key(name@),
            final(self)@ == old(self)@.remove(name@),
    {
        proof {
            use_type_invariant(&*self);
        }
        let ghost before = *self;
        match self.locate(name) {
            Ok(i) => {
                let mut entries: Vec<(String, Preset)> = Vec::new();
                std::mem::swap(&mut entries, &mut self.entries);
                entries.remove(i);
                proof {
                    let ns = names_of(entries@);
                    assert(ns =~= before.names().remove(i as int));
                    assert forall|a: int, b: int| 0 <= a < b < ns.len() implies seq_lt(#[trigger] ns[a], #[trigger] ns[b]) by {
                        if a < i && b >= i {
                            assert(ns[b] == before.names()[b + 1]);
                        }
                    }
                }
                self.entries = entries;
                proof {
                    let k = name@;
                    before.lemma_view_at(i as int);
                    assert forall|key: Seq<char>| #[trigger] self@.contains_key(key) <==> before@.remove(k).contains_key(key) by {
                        self.lemma_view_dom(key);
                        before.lemma_view_dom(key);
                        if self@.contains_key(key) {
                            let j = choose|j: int| 0 <= j < self.entries@.len() && self.entries@[j].0@ == key;
                            if j < i {
                                assert(before.entries@[j].0@ == key);
                                assert(seq_lt(before.names()[j], before.names()[i as int]));
                            } else {
                                assert(before.entries@[j + 1].0@ == key);
                                assert(seq_lt(before.names()[i as int], before.names()[j + 1]));
                            }
                            lemma_seq_lt_irreflexive(key);
                        }
                        if before@.contains_key(key) && key != k {
                            let j = choose|j: int| 0 <= j < before.entries@.len() && before.entries@[j].0@ == key;
                            if j < i {
                                assert(self.entries@[j].0@ == key);
                            } else {
                                assert(j != i);
                                assert(self.entries@[j - 1].0@ == key);
                            }
                        }
                    }
                    assert forall|key: Seq<char>| #[trigger] self@.contains_key(key) implies self@[key] == before@.remove(k)[key] by {
                        self.lemma_view_dom(key);
                        let j = choose|j: int| 0 <= j < self.entries@.len() && self.entries@[j].0@ == key;
                        self.lemma_view_at(j);
                        if j < i {
                            before.lemma_view_at(j);
                        } else {
                            before.lemma_view_at(j + 1);
                        }
                    }
                    assert(self@ =~= before@.remove(k));
                }
                true
            },
            Err(p) => {
                proof {
                    self.lemma_view_dom(name@);
                    if self@.contains_key(name@) {
                        let j = choose|j: int| 0 <= j < self.entries@.len() && self.entries@[j].0@ == name@;
                        assert(self.names()[j] == name@);
                        lemma_seq_lt_irreflexive(name@);
                    }
                    assert(self@ =~= before@.remove(name@));
                }
                false
            },
        }
    }

    /// The presets with their names, in increasing order of name.
    pub fn entries(&self) -> (r: &Vec<(String, Preset)>)
        ensures
            r@.len() == self.count(),
            forall|i: int| 0 <= i < r@.len() ==> (#[trigger] r@[i]).0@ == self.names()[i],
            forall|i: int| 0 <= i < r@.len() ==> (#[trigger] r@[i]).1@ == self@[self.names()[i]],
    {
        proof {
            use_type_invariant(self);
        }
        proof {
            assert forall|i: int| 0 <= i < self.entries@.len() implies (#[trigger] self.entries@[i]).1@ == self@[self.names()[i]] by {
                self.lemma_view_at(i);
            }
        }
        &self.entries
    }

    /// Where `name` stands: `Ok(i)` at the entry that holds it, or `Err(p)`
    /// at the position where it would be inserted to keep the order.
    fn locate(&self, name: &str) -> (r: Result<usize, usize>)
        ensures
            r matches Ok(i) ==> i < self.entries@.len() && self.entries@[i as int].0@ == name@,
            r matches Err(p) ==> {
                &&& p <= self.entries@.len()
                &&& forall|j: int| 0 <= j < p ==> seq_lt(#[trigger] self.names()[j], name@)
                &&& forall|j: int| p <= j < self.entries@.len() ==> seq_lt(name@, #[trigger] self.names()[j])
            },
    {
        proof {
            use_type_invariant(self);
        }
        let mut p: usize = 0;
        while p < self.entries.len() && str_lt(self.entries[p].0.as_str(), name)
            invariant
                self.wf(),
                p <= self.entries@.len(),
                forall|j: int| 0 <= j < p ==> seq_lt(#[trigger] self.names()[j], name@),
            decreases self.entries@.len() - p,
        {
            assert(self.names()[p as int] == self.entries@[p as int].0@);
            p = p + 1;
        }
        if p < self.entries.len() && str_eq(self.entries[p].0.as_str(), name) {
            return Ok(p);
        }
        proof {
            if p < self.entries@.len() {
                let np = self.names()[p as int];
                assert(np == self.entries@[p as int].0@);
                lemma_seq_lt_trichotomy(np, name@);
                assert forall|j: int| p <= j < self.entries@.len() implies seq_lt(name@, #[trigger] self.names()[j]) by {
                    if j > p {
                        lemma_seq_lt_transitive(name@, np, self.names()[j]);
                    }
                }
            }
        }
        Err(p)
    }
}

} // verus!
