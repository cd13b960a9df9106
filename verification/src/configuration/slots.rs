//! The image of one storage namespace: typed values under string keys.
//!
//! A key holds at most one value, whatever its type: writing under a key
//! replaces what stood there.

use vstd::prelude::*;
use crate::text::same_text;

verus! {

/// One stored value.
#[derive(Debug)]
pub enum Slot {
    /// A string.
    Text(String),
    /// An unsigned 8-bit number.
    U8(u8),
    /// An unsigned 32-bit number.
    U32(u32),
    /// An unsigned 64-bit number.
    U64(u64),
}

/// What a [`Slot`] holds, as a mathematical value.
pub enum SlotView {
    Text(Seq<char>),
    U8(u8),
    U32(u32),
    U64(u64),
}

impl View for Slot {
    type V = SlotView;

    open spec fn view(&self) -> SlotView {
        match self {
            Slot::Text(s) => SlotView::Text(s@),
            Slot::U8(v) => SlotView::U8(*v),
            Slot::U32(v) => SlotView::U32(*v),
            Slot::U64(v) => SlotView::U64(*v),
        }
    }
}

impl Slot {
    /// A copy of the value.
    pub fn duplicate(&self) -> (copy: Slot)
        ensures
            copy@ == self@,
    {
        match self {
            Slot::Text(s) => Slot::Text(s.clone()),
            Slot::U8(v) => Slot::U8(*v),
            Slot::U32(v) => Slot::U32(*v),
            Slot::U64(v) => Slot::U64(*v),
        }
    }
}

/// A key with its value.
struct Entry {
    key: String,
    slot: Slot,
}

/// The values of one namespace, each under its key.
pub struct SlotTable {
    entries: Vec<Entry>,
}

/// Whether some entry of `es` has the key `k`.
spec fn has_key(es: Seq<Entry>, k: Seq<char>) -> bool {
    exists|i: int| 0 <= i < es.len() && #[trigger] es[i].key@ == k
}

/// The place of an entry of `es` that has the key `k`.
spec fn place_of(es: Seq<Entry>, k: Seq<char>) -> int {
    choose|i: int| 0 <= i < es.len() && #[trigger] es[i].key@ == k
}

/// Whether no two entries of `es` share a key.
spec fn distinct_keys(es: Seq<Entry>) -> bool {
    forall|i: int, j: int|
        0 <= i < es.len() && 0 <= j < es.len() && i != j ==> #[trigger] es[i].key@
            != #[trigger] es[j].key@
}

/// The map from keys to values that `es` stands for.
spec fn table_of(es: Seq<Entry>) -> Map<Seq<char>, SlotView> {
    Map::new(|k: Seq<char>| has_key(es, k), |k: Seq<char>| es[place_of(es, k)].slot@)
}

/// In a table without repeated keys, the entry at `i` is the one found
/// under its key.
proof fn lemma_found_at(es: Seq<Entry>, i: int)
    requires
        distinct_keys(es),
        0 <= i < es.len(),
    ensures
        has_key(es, es[i].key@),
        place_of(es, es[i].key@) == i,
        table_of(es).contains_key(es[i].key@),
        table_of(es)[es[i].key@] == es[i].slot@,
{
    let k = es[i].key@;
    assert(es[i].key@ == k);
    let p = place_of(es, k);
    assert(0 <= p < es.len() && es[p].key@ == k);
    if p != i {
        assert(es[p].key@ != es[i].key@);
    }
}

impl SlotTable {
    #[verifier::type_invariant]
    spec fn well_formed(self) -> bool {
        distinct_keys(self.entries@)
    }

    /// The map from keys to values.
    pub closed spec fn view(&self) -> Map<Seq<char>, SlotView> {
        table_of(self.entries@)
    }

    /// A table that holds nothing.
    pub fn new() -> (table: SlotTable)
        ensures
            table@ == Map::<Seq<char>, SlotView>::empty(),
    {
        let table = SlotTable { entries: Vec::new() };
        assert(table@ =~= Map::<Seq<char>, SlotView>::empty());
        table
    }

    /// The place of the entry under `key`, if there is one.
    fn find(&self, key: &str) -> (place: Option<usize>)
        ensures
            match place {
                Some(i) => i < self.entries.len() && self.entries[i as int].key@ == key@,
                None => !has_key(self.entries@, key@),
            },
    {
        let mut i: usize = 0;
        while i < self.entries.len()
            invariant
                i <= self.entries.len(),
                forall|j: int| 0 <= j < i ==> #[trigger] self.entries[j].key@ != key@,
            decreases self.entries.len() - i,
        {
            if same_text(self.entries[i].key.as_str(), key) {
                return Some(i);
            }
            i = i + 1;
        }
        None
    }

    /// The value under `key`, if there is one.
    pub fn get(&self, key: &str) -> (slot: Option<&Slot>)
        ensures
            slot is Some == self@.contains_key(key@),
            slot matches Some(s) ==> s@ == self@[key@],
    {
        proof {
            use_type_invariant(self);
        }
        match self.find(key) {
            Some(i) => {
                proof {
                    lemma_found_at(self.entries@, i as int);
                }
                Some(&self.entries[i].slot)
            },
            None => None,
        }
    }

    /// Takes away the value under `key`; says whether there was one.
    pub fn remove(&mut self, key: &str) -> (found: bool)
        ensures
            found == old(self)@.contains_key(key@),
            final(self)@ == old(self)@.remove(key@),
    {
        proof {
            use_type_invariant(&*self);
        }
        match self.find(key) {
            Some(i) => {
                let ghost before = self.entries@;
                let mut es: Vec<Entry> = Vec::new();
                core::mem::swap(&mut self.entries, &mut es);
                es.remove(i);
                proof {
                    let after = es@;
                    assert(after == before.remove(i as int));
                    lemma_found_at(before, i as int);
                    assert(distinct_keys(after)) by {
                        assert forall|a: int, b: int|
                            0 <= a < after.len() && 0 <= b < after.len() && a != b implies #[trigger] after[a].key@
                            != #[trigger] after[b].key@ by {
                            let from_a = if a < i { a } else { a + 1 };
                            let from_b = if b < i { b } else { b + 1 };
                            assert(after[a] == before[from_a]);
                            assert(after[b] == before[from_b]);
                        }
                    }
                    assert forall|k: Seq<char>| #[trigger]
                        table_of(after).contains_key(k) == table_of(before).remove(
                            key@,
                        ).contains_key(k) by {
                        if has_key(after, k) {
                            let p = place_of(after, k);
                            let origin = if p < i { p } else { p + 1 };
                            assert(after[p] == before[origin]);
                            assert(before[origin].key@ == k);
                            assert(before[origin].key@ != before[i as int].key@);
                        }
                        if has_key(before, k) && k != key@ {
                            let origin = place_of(before, k);
                            let p = if origin < i { origin } else { origin - 1 };
                            assert(after[p] == before[origin]);
                            assert(after[p].key@ == k);
                        }
                    }
                    assert forall|k: Seq<char>| #[trigger]
                        table_of(after).contains_key(k) implies table_of(after)[k] == table_of(
                        before,
                    ).remove(key@)[k] by {
                        let p = place_of(after, k);
                        let origin = if p < i { p } else { p + 1 };
                        assert(after[p] == before[origin]);
                        lemma_found_at(before, origin);
                    }
                    assert(table_of(after) =~= table_of(before).remove(key@));
                }
                core::mem::swap(&mut self.entries, &mut es);
                true
            },
            None => {
                assert(self@.remove(key@) =~= self@);
                false
            },
        }
    }

    /// Puts `slot` under `key`, in place of what stood there.
    pub fn put(&mut self, key: &str, slot: Slot)
        ensures
            final(self)@ == old(self)@.insert(key@, slot@),
    {
        let ghost start = self@;
        self.remove(key);
        proof {
            use_type_invariant(&*self);
        }
        let ghost before = self.entries@;
        assert(table_of(before) == start.remove(key@));
        let entry = Entry { key: key.to_owned(), slot };
        let mut es: Vec<Entry> = Vec::new();
        core::mem::swap(&mut self.entries, &mut es);
        es.push(entry);
        proof {
            let after = es@;
            let last = before.len() as int;
            assert(!table_of(before).contains_key(key@));
            assert(!has_key(before, key@));
            assert(distinct_keys(after)) by {
                assert forall|a: int, b: int|
                    0 <= a < after.len() && 0 <= b < after.len() && a != b implies #[trigger] after[a].key@
                    != #[trigger] after[b].key@ by {
                    if a < last && b < last {
                        assert(after[a] == before[a]);
                        assert(after[b] == before[b]);
                    } else if a < last {
                        assert(after[a] == before[a]);
                        assert(before[a].key@ != key@);
                    } else {
                        assert(after[b] == before[b]);
                        assert(before[b].key@ != key@);
                    }
                }
            }
            assert forall|k: Seq<char>| #[trigger]
                table_of(after).contains_key(k) == table_of(before).insert(
                    key@,
                    slot@,
                ).contains_key(k) by {
                if has_key(after, k) {
                    let p = place_of(after, k);
                    if p < last {
                        assert(after[p] == before[p]);
                        assert(before[p].key@ == k);
                    }
                }
                if has_key(before, k) {
                    let p = place_of(before, k);
                    assert(after[p] == before[p]);
                    assert(after[p].key@ == k);
                }
                if k == key@ {
                    assert(after[last].key@ == k);
                }
            }
            assert forall|k: Seq<char>| #[trigger]
                table_of(after).contains_key(k) implies table_of(after)[k] == table_of(
                before,
            ).insert(key@, slot@)[k] by {
                let p = place_of(after, k);
                lemma_found_at(after, p);
                if p < last {
                    assert(after[p] == before[p]);
                    lemma_found_at(before, p);
                }
            }
            assert(table_of(after) =~= table_of(before).insert(key@, slot@));
            assert(start.remove(key@).insert(key@, slot@) =~= start.insert(key@, slot@));
        }
        core::mem::swap(&mut self.entries, &mut es);
    }
}

} // verus!
