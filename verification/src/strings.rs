//! The string table: every distinct text once, found again by its index.

use vstd::prelude::*;
use crate::bytes::same_bytes;

verus! {

/// The index of the first entry from `i` on that equals `s`, or the length
/// of the table where there is none.
pub open spec fn scan_for(table: Seq<Seq<u8>>, s: Seq<u8>, i: int) -> int
    decreases table.len() - i,
{
    if i < 0 || i >= table.len() {
        table.len() as int
    } else if table[i] == s {
        i
    } else {
        scan_for(table, s, i + 1)
    }
}

/// The index of the first entry that equals `s`, or the length of the table
/// where there is none.
pub open spec fn position(table: Seq<Seq<u8>>, s: Seq<u8>) -> int {
    scan_for(table, s, 0)
}

/// The table after `s` was interned: unchanged where it holds `s`, with `s`
/// at its end where it does not.
pub open spec fn interned(table: Seq<Seq<u8>>, s: Seq<u8>) -> Seq<Seq<u8>> {
    if position(table, s) < table.len() {
        table
    } else {
        table.push(s)
    }
}

/// Where a scan stops, and what it passed: no entry before the stop equals
/// `s`, and the stop is the end of the table or an entry that equals `s`.
pub proof fn lemma_scan_for(table: Seq<Seq<u8>>, s: Seq<u8>, i: int)
    requires
        0 <= i <= table.len(),
    ensures
        i <= scan_for(table, s, i) <= table.len(),
        forall|k: int| i <= k < scan_for(table, s, i) ==> #[trigger] table[k] != s,
        scan_for(table, s, i) < table.len() ==> table[scan_for(table, s, i)] == s,
    decreases table.len() - i,
{
    if i < table.len() && table[i] != s {
        lemma_scan_for(table, s, i + 1);
    }
}

/// A table of byte strings without repetition. An entry keeps its index for
/// as long as the table lives; nothing is ever removed.
pub struct StringTable {
    entries: Vec<Vec<u8>>,
}

impl View for StringTable {
    type V = Seq<Seq<u8>>;

    closed spec fn view(&self) -> Seq<Seq<u8>> {
        self.entries@.map_values(|e: Vec<u8>| e@)
    }
}

impl StringTable {
    /// No text stands in the table twice.
    pub open spec fn wf(&self) -> bool {
        self@.no_duplicates()
    }

    /// An empty table.
    pub fn new() -> (table: StringTable)
        ensures
            table.wf(),
            table@ == Seq::<Seq<u8>>::empty(),
    {
        let table = StringTable { entries: Vec::new() };
        assert(table@ == Seq::<Seq<u8>>::empty());
        table
    }

    /// Number of entries.
    pub fn len(&self) -> (n: usize)
        ensures
            n == self@.len(),
    {
        self.entries.len()
    }

    /// The index of `s` in the table, if it is there.
    pub fn find(&self, s: &[u8]) -> (r: Option<usize>)
        ensures
            r is Some <==> position(self@, s@) < self@.len(),
            r is Some ==> r->0 == position(self@, s@),
    {
        let mut i: usize = 0;
        while i < self.entries.len()
            invariant
                i <= self@.len(),
                self@.len() == self.entries@.len(),
                scan_for(self@, s@, i as int) == position(self@, s@),
            decreases self@.len() - i,
        {
            assert(self@[i as int] == self.entries@[i as int]@);
            if same_bytes(self.entries[i].as_slice(), s) {
                return Some(i);
            }
            i += 1;
        }
        None
    }

    /// Interns `s`: returns the index of the entry that equals `s`, adding
    /// one at the end of the table where there was none. Entries already
    /// there keep their indices.
    pub fn intern(&mut self, s: &[u8]) -> (index: usize)
        requires
            old(self).wf(),
        ensures
            final(self).wf(),
            index == position(old(self)@, s@),
            final(self)@ == interned(old(self)@, s@),
            final(self)@[index as int] == s@,
    {
        match self.find(s) {
            Some(i) => {
                proof {
                    lemma_scan_for(self@, s@, 0);
                }
                i
            },
            None => {
                let n = self.entries.len();
                let ghost before = self@;
                proof {
                    lemma_scan_for(before, s@, 0);
                }
                let mut copy: Vec<u8> = Vec::new();
                crate::bytes::append(&mut copy, s);
                assert(copy@ == s@);
                self.entries.push(copy);
                assert(self@ == before.push(s@));
                n
            },
        }
    }

    /// The entry at `index`, if there is one.
    pub fn get(&self, index: usize) -> (r: Option<&Vec<u8>>)
        ensures
            r is Some <==> index < self@.len(),
            r is Some ==> r->0@ == self@[index as int],
    {
        if index < self.entries.len() {
            Some(&self.entries[index])
        } else {
            None
        }
    }
}

/// Deduplication: whatever the table held, after `s` was interned it holds
/// `s` exactly once, at the index that interning returned, and interning `s`
/// again returns that index and changes nothing.
pub proof fn lemma_intern_deduplicates(table: Seq<Seq<u8>>, s: Seq<u8>)
    requires
        table.no_duplicates(),
    ensures
        interned(table, s).no_duplicates(),
        0 <= position(table, s) < interned(table, s).len(),
        forall|k: int|
            0 <= k < interned(table, s).len() ==> (#[trigger] interned(table, s)[k] == s <==> k
                == position(table, s)),
        position(interned(table, s), s) == position(table, s),
        interned(interned(table, s), s) == interned(table, s),
{
    lemma_scan_for(table, s, 0);
    let after = interned(table, s);
    lemma_scan_for(after, s, 0);
    let p = position(table, s);
    let q = position(after, s);
    if p == table.len() {
        assert(after[p] == s);
        if q < p {
            assert(after[q] == table[q]);
        }
        assert(q == p);
    }
}

/// Interning never moves an entry: each index of the table before names the
/// same text in the table after.
pub proof fn lemma_intern_keeps_entries(table: Seq<Seq<u8>>, s: Seq<u8>, k: int)
    requires
        0 <= k < table.len(),
    ensures
        k < interned(table, s).len(),
        interned(table, s)[k] == table[k],
{
}

} // verus!
