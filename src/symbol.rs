//! The symbol table: label names and the raw values recorded for them.

use vstd::prelude::*;

verus! {

/// A label name with the raw value recorded for it.
pub struct Symbol {
    pub name: String,
    pub value: u16,
}

/// Labels, looked up by exact name. Each name has at most one entry.
pub struct SymbolTable {
    entries: Vec<Symbol>,
}

/// The value of the first entry named `name`.
pub open spec fn lookup(entries: Seq<(Seq<char>, u16)>, name: Seq<char>) -> Option<u16>
    decreases entries.len(),
{
    if entries.len() == 0 {
        None
    } else if entries[0].0 == name {
        Some(entries[0].1)
    } else {
        lookup(entries.drop_first(), name)
    }
}

/// Whether no two entries of `entries` have the same name.
pub open spec fn unique_names(entries: Seq<(Seq<char>, u16)>) -> bool {
    forall|i: int, j: int|
        0 <= i < entries.len() && 0 <= j < entries.len() && i != j ==> #[trigger] entries[i].0 != #[trigger] entries[j].0
}

/// `lookup` finds a name exactly when an entry has it, and gives the value of
/// such an entry.
proof fn lemma_lookup(entries: Seq<(Seq<char>, u16)>, name: Seq<char>)
    ensures
        lookup(entries, name) is None <==> forall|i: int| 0 <= i < entries.len() ==> #[trigger] entries[i].0 != name,
        lookup(entries, name) matches Some(v) ==> exists|i: int|
            0 <= i < entries.len() && #[trigger] entries[i] == (name, v),
    decreases entries.len(),
{
    if entries.len() > 0 {
        let rest = entries.drop_first();
        lemma_lookup(rest, name);
        assert forall|i: int| 0 < i < entries.len() implies #[trigger] entries[i] == rest[i - 1] by {}
        if entries[0].0 != name {
            if let Some(v) = lookup(rest, name) {
                let i = choose|i: int| 0 <= i < rest.len() && #[trigger] rest[i] == (name, v);
                assert(entries[i + 1] == (name, v));
            }
        } else {
            assert(entries[0] == (name, entries[0].1));
        }
    }
}

/// With unique names, the entry that has a name gives its value.
proof fn lemma_lookup_unique(entries: Seq<(Seq<char>, u16)>, i: int)
    requires
        unique_names(entries),
        0 <= i < entries.len(),
    ensures
        lookup(entries, entries[i].0) == Some(entries[i].1),
{
    lemma_lookup(entries, entries[i].0);
    if let Some(v) = lookup(entries, entries[i].0) {
        let j = choose|j: int| 0 <= j < entries.len() && #[trigger] entries[j] == (entries[i].0, v);
        assert(entries[j].0 == entries[i].0);
        assert(i == j);
    }
}

impl View for SymbolTable {
    type V = Seq<(Seq<char>, u16)>;

    closed spec fn view(&self) -> Seq<(Seq<char>, u16)> {
        Seq::new(self.entries@.len(), |i: int| (self.entries@[i].name@, self.entries@[i].value))
    }
}

impl SymbolTable {
    /// Each name has at most one entry.
    pub open spec fn wf(&self) -> bool {
        unique_names(self@)
    }

    /// A table with no labels.
    pub fn new() -> (r: SymbolTable)
        ensures
            r@ == Seq::<(Seq<char>, u16)>::empty(),
            r.wf(),
    {
        let r = SymbolTable { entries: Vec::new() };
        assert(r@ =~= Seq::<(Seq<char>, u16)>::empty());
        r
    }

    /// Record `value` for `name`, replacing the value that `name` had.
    pub fn insert(&mut self, name: String, value: u16)
        requires
            old(self).wf(),
        ensures
            final(self).wf(),
            forall|n: Seq<char>| #[trigger]
                lookup(final(self)@, n) == if n == name@ {
                    Some(value)
                } else {
                    lookup(old(self)@, n)
                },
    {
        let ghost old_entries = self@;
        let ghost key = name@;
        let mut i: usize = 0;
        while i < self.entries.len()
            invariant
                self@ == old_entries,
                old_entries == old(self)@,
                key == name@,
                unique_names(old_entries),
                self@.len() == self.entries@.len(),
                0 <= i <= self@.len(),
                forall|j: int| 0 <= j < i ==> #[trigger] self@[j].0 != name@,
            decreases self@.len() - i,
        {
            assert(self@[i as int] == (self.entries@[i as int].name@, self.entries@[i as int].value));
            if self.entries[i].name == name {
                let ghost at = i as int;
                assert(old_entries[at].0 == name@);
                self.entries.set(i, Symbol { name, value });
                assert(self@ =~= old_entries.update(at, (old_entries[at].0, value)));
                proof {
                    assert forall|x: int, y: int|
                        0 <= x < self@.len() && 0 <= y < self@.len() && x != y implies #[trigger] self@[x].0
                        != #[trigger] self@[y].0 by {
                        assert(self@[x].0 == old_entries[x].0);
                        assert(self@[y].0 == old_entries[y].0);
                    }
                    assert forall|n: Seq<char>| #[trigger]
                        lookup(self@, n) == if n == key {
                            Some(value)
                        } else {
                            lookup(old_entries, n)
                        } by {
                        lemma_lookup(self@, n);
                        lemma_lookup(old_entries, n);
                        lemma_lookup_unique(self@, at);
                        if n != old_entries[at].0 {
                            assert forall|k: int| 0 <= k < self@.len() implies (#[trigger] self@[k]).0 == n
                                <==> old_entries[k].0 == n by {}
                            if let Some(v) = lookup(old_entries, n) {
                                let k = choose|k: int| 0 <= k < old_entries.len() && #[trigger] old_entries[k] == (n, v);
                                assert(self@[k] == (n, v));
                                lemma_lookup_unique(self@, k);
                                lemma_lookup_unique(old_entries, k);
                            }
                        }
                    }
                }
                return;
            }
            i += 1;
        }
        self.entries.push(Symbol { name, value });
        assert(self@ =~= old_entries.push((name@, value)));
        proof {
            let last = old_entries.len() as int;
            assert forall|x: int, y: int|
                0 <= x < self@.len() && 0 <= y < self@.len() && x != y implies #[trigger] self@[x].0
                != #[trigger] self@[y].0 by {
                if x < last && y < last {
                    assert(self@[x].0 == old_entries[x].0);
                    assert(self@[y].0 == old_entries[y].0);
                } else if x < last {
                    assert(self@[x].0 == old_entries[x].0);
                } else if y < last {
                    assert(self@[y].0 == old_entries[y].0);
                }
            }
            assert forall|n: Seq<char>| #[trigger]
                lookup(self@, n) == if n == name@ {
                    Some(value)
                } else {
                    lookup(old_entries, n)
                } by {
                lemma_lookup(self@, n);
                lemma_lookup(old_entries, n);
                lemma_lookup_unique(self@, last);
                if n != name@ {
                    if let Some(v) = lookup(old_entries, n) {
                        let k = choose|k: int| 0 <= k < old_entries.len() && #[trigger] old_entries[k] == (n, v);
                        assert(self@[k] == (n, v));
                        lemma_lookup_unique(self@, k);
                        lemma_lookup_unique(old_entries, k);
                    }
                }
            }
        }
    }

    /// The raw value recorded for `name`, if any.
    pub fn get(&self, name: &String) -> (r: Option<u16>)
        ensures
            r == lookup(self@, name@),
    {
        let mut i: usize = 0;
        assert(self@.subrange(0, self@.len() as int) =~= self@);
        while i < self.entries.len()
            invariant
                0 <= i <= self@.len(),
                self@.len() == self.entries@.len(),
                lookup(self@, name@) == lookup(self@.subrange(i as int, self@.len() as int), name@),
            decreases self@.len() - i,
        {
            let ghost rest = self@.subrange(i as int, self@.len() as int);
            assert(rest.drop_first() =~= self@.subrange(i + 1, self@.len() as int));
            let entry = &self.entries[i];
            assert(rest[0] == (entry.name@, entry.value));
            if entry.name == *name {
                return Some(entry.value);
            }
            i += 1;
        }
        None
    }
}

} // verus!
