//! The asset table: every embedded asset by logical name, filled once at
//! startup and read only afterwards.

use vstd::prelude::*;
use crate::fingerprint::MAX_DIGEST_INPUT;
use crate::http::bytes_eq;

verus! {

/// One asset: its logical name and its bytes.
pub struct AssetEntry {
    pub name: Vec<u8>,
    pub content: Vec<u8>,
}

/// The assets by name; no two entries share a name.
pub struct AssetTable {
    entries: Vec<AssetEntry>,
}

/// The entries as (name, bytes) pairs.
pub open spec fn entries_view(es: Seq<AssetEntry>) -> Seq<(Seq<u8>, Seq<u8>)> {
    es.map_values(|e: AssetEntry| (e.name@, e.content@))
}

/// The map from name to bytes that a list of entries stands for.
pub open spec fn table_map(es: Seq<(Seq<u8>, Seq<u8>)>) -> Map<Seq<u8>, Seq<u8>>
    decreases es.len(),
{
    if es.len() == 0 {
        Map::empty()
    } else {
        table_map(es.drop_last()).insert(es.last().0, es.last().1)
    }
}

/// Every asset is short enough to be fingerprinted.
pub open spec fn contents_fit(es: Seq<(Seq<u8>, Seq<u8>)>) -> bool {
    forall|i: int| 0 <= i < es.len() ==> #[trigger] es[i].1.len() < MAX_DIGEST_INPUT
}

pub open spec fn names_distinct(es: Seq<(Seq<u8>, Seq<u8>)>) -> bool {
    forall|i: int, j: int| 0 <= i < j < es.len() ==> es[i].0 != es[j].0
}

/// The name is held by an entry exactly when the map has it, and with
/// distinct names the map gives that entry's bytes.
proof fn lemma_table_map_lookup(es: Seq<(Seq<u8>, Seq<u8>)>, k: Seq<u8>)
    requires
        names_distinct(es),
    ensures
        table_map(es).contains_key(k) <==> exists|i: int| 0 <= i < es.len() && es[i].0 == k,
        forall|i: int| 0 <= i < es.len() && es[i].0 == k ==> table_map(es)[k] == es[i].1,
    decreases es.len(),
{
    if es.len() > 0 {
        let init = es.drop_last();
        assert(names_distinct(init));
        lemma_table_map_lookup(init, k);
        if table_map(es).contains_key(k) && es.last().0 != k {
            let i = choose|i: int| 0 <= i < init.len() && init[i].0 == k;
            assert(es[i].0 == k);
        }
        if exists|i: int| 0 <= i < es.len() && es[i].0 == k {
            let i = choose|i: int| 0 <= i < es.len() && es[i].0 == k;
            if i < es.len() - 1 {
                assert(init[i].0 == k);
            }
        }
        assert forall|i: int| 0 <= i < es.len() && es[i].0 == k implies table_map(es)[k]
            == es[i].1 by {
            if i < es.len() - 1 {
                assert(init[i] == es[i]);
            }
        }
    }
}

/// Round trip: a table filled with assets of distinct names gives back, for
/// each name, exactly the bytes it was filled with.
pub proof fn lemma_round_trip(es: Seq<(Seq<u8>, Seq<u8>)>)
    requires
        names_distinct(es),
    ensures
        forall|i: int|
            0 <= i < es.len() ==> table_map(es).contains_key(#[trigger] es[i].0) && table_map(
                es,
            )[es[i].0] == es[i].1,
{
    assert forall|i: int| 0 <= i < es.len() implies table_map(es).contains_key(#[trigger] es[i].0)
        && table_map(es)[es[i].0] == es[i].1 by {
        lemma_table_map_lookup(es, es[i].0);
    }
}

impl AssetTable {
    /// No two entries share a name, and every asset can be fingerprinted.
    pub closed spec fn wf(&self) -> bool {
        names_distinct(entries_view(self.entries@)) && contents_fit(entries_view(self.entries@))
    }

    /// The bytes of every asset are shorter than `MAX_DIGEST_INPUT`.
    pub proof fn lemma_contents_fit(&self, name: Seq<u8>)
        requires
            self.wf(),
            self.view().contains_key(name),
        ensures
            self.view()[name].len() < MAX_DIGEST_INPUT,
    {
        let es = entries_view(self.entries@);
        lemma_table_map_lookup(es, name);
        let i = choose|i: int| 0 <= i < es.len() && es[i].0 == name;
        assert(es[i].1.len() < MAX_DIGEST_INPUT);
    }

    /// The assets as a map from name to bytes.
    pub closed spec fn view(&self) -> Map<Seq<u8>, Seq<u8>> {
        table_map(entries_view(self.entries@))
    }

    /// An empty table.
    pub fn new() -> (r: Self)
        ensures
            r.wf(),
            r.view() == Map::<Seq<u8>, Seq<u8>>::empty(),
    {
        AssetTable { entries: Vec::new() }
    }

    /// A table holding `entries`, or `None` where two of them share a name or
    /// one is too long to fingerprint.
    pub fn from_entries(entries: &Vec<AssetEntry>) -> (r: Option<Self>)
        ensures
            r is Some <==> names_distinct(entries_view(entries@)) && contents_fit(
                entries_view(entries@),
            ),
            r matches Some(t) ==> t.wf() && t.view() == table_map(entries_view(entries@)),
    {
        let ghost es = entries_view(entries@);
        let mut table = AssetTable::new();
        let mut n: usize = 0;
        assert(es.subrange(0, 0) =~= Seq::<(Seq<u8>, Seq<u8>)>::empty());
        while n < entries.len()
            invariant
                table.wf(),
                n <= es.len(),
                es == entries_view(entries@),
                names_distinct(es.subrange(0, n as int)),
                contents_fit(es.subrange(0, n as int)),
                table.view() == table_map(es.subrange(0, n as int)),
            decreases es.len() - n,
        {
            let e = &entries[n];
            let ghost prefix = es.subrange(0, n as int);
            let ghost next = es.subrange(0, n + 1);
            assert(next.drop_last() =~= prefix);
            assert(next.last() == (e.name@, e.content@));
            proof {
                lemma_table_map_lookup(prefix, e.name@);
            }
            if e.content.len() as u64 >= MAX_DIGEST_INPUT {
                assert(es[n as int].1.len() >= MAX_DIGEST_INPUT);
                return None;
            }
            if !table.insert(e.name.as_slice(), e.content.clone()) {
                proof {
                    let j = choose|j: int| 0 <= j < prefix.len() && prefix[j].0 == e.name@;
                    assert(es[j].0 == es[n as int].0);
                }
                return None;
            }
            proof {
                assert forall|a: int| 0 <= a < next.len() implies #[trigger] next[a].1.len()
                    < MAX_DIGEST_INPUT by {
                    if a < n {
                        assert(next[a] == prefix[a]);
                    }
                }
                assert forall|a: int, b: int| 0 <= a < b < next.len() implies next[a].0
                    != next[b].0 by {
                    if b < n {
                        assert(next[a] == prefix[a] && next[b] == prefix[b]);
                    } else {
                        assert(next[a] == prefix[a]);
                    }
                }
            }
            n = n + 1;
        }
        assert(es.subrange(0, n as int) =~= es);
        Some(table)
    }

    /// Position of the entry named `name`, if any.
    fn find(&self, name: &[u8]) -> (r: Option<usize>)
        requires
            self.wf(),
        ensures
            match r {
                Some(i) => i < self.entries@.len() && self.entries@[i as int].name@ == name@,
                None => !self.view().contains_key(name@),
            },
    {
        let ghost es = entries_view(self.entries@);
        let mut i: usize = 0;
        while i < self.entries.len()
            invariant
                i <= self.entries@.len(),
                es == entries_view(self.entries@),
                forall|j: int| 0 <= j < i ==> es[j].0 != name@,
            decreases self.entries@.len() - i,
        {
            if bytes_eq(self.entries[i].name.as_slice(), name) {
                return Some(i);
            }
            i = i + 1;
        }
        proof {
            lemma_table_map_lookup(es, name@);
        }
        None
    }

    /// Adds an asset under a name not yet taken and returns `true`; a name that
    /// is already taken leaves the table as it was and gives `false`.
    pub fn insert(&mut self, name: &[u8], content: Vec<u8>) -> (r: bool)
        requires
            old(self).wf(),
            content@.len() < MAX_DIGEST_INPUT,
        ensures
            final(self).wf(),
            r == !old(self).view().contains_key(name@),
            r ==> final(self).view() == old(self).view().insert(name@, content@),
            !r ==> final(self).view() == old(self).view(),
    {
        match self.find(name) {
            Some(i) => {
                proof {
                    lemma_table_map_lookup(entries_view(self.entries@), name@);
                    assert(entries_view(self.entries@)[i as int].0 == name@);
                }
                false
            },
            None => {
                let ghost before = entries_view(self.entries@);
                proof {
                    lemma_table_map_lookup(before, name@);
                }
                self.entries.push(AssetEntry { name: vstd::slice::slice_to_vec(name), content });
                proof {
                    let after = entries_view(self.entries@);
                    assert(after.drop_last() =~= before);
                    assert forall|i: int| 0 <= i < after.len() implies #[trigger] after[i].1.len()
                        < MAX_DIGEST_INPUT by {
                        if i < after.len() - 1 {
                            assert(before[i] == after[i]);
                        }
                    }
                    assert forall|i: int, j: int| 0 <= i < j < after.len() implies after[i].0
                        != after[j].0 by {
                        if j == after.len() - 1 {
                            assert(before[i].0 == after[i].0);
                        } else {
                            assert(before[i] == after[i] && before[j] == after[j]);
                        }
                    }
                }
                true
            },
        }
    }

    /// The bytes of the asset named `name`, if the table holds it.
    pub fn get(&self, name: &[u8]) -> (r: Option<&Vec<u8>>)
        requires
            self.wf(),
        ensures
            match r {
                Some(c) => self.view().contains_key(name@) && c@ == self.view()[name@],
                None => !self.view().contains_key(name@),
            },
    {
        match self.find(name) {
            Some(i) => {
                proof {
                    lemma_table_map_lookup(entries_view(self.entries@), name@);
                    assert(entries_view(self.entries@)[i as int].0 == name@);
                }
                Some(&self.entries[i].content)
            },
            None => None,
        }
    }
}

} // verus!
