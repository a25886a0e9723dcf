//! The durable store → last-acknowledged issue run identifiers mapping.

use vstd::prelude::*;
use crate::config::opt_view;

verus! {

/// The last run identifiers a user has acknowledged for one store, for
/// failures and for warnings.
#[derive(Debug, Clone)]
pub struct StoreSeenState {
    pub last_seen_failure_run_id: Option<String>,
    pub last_seen_warning_run_id: Option<String>,
}

/// A store's seen identifiers as plain sequences: (failure, warning).
pub type SeenIds = (Option<Seq<char>>, Option<Seq<char>>);

pub open spec fn seen_ids(s: StoreSeenState) -> SeenIds {
    (opt_view(s.last_seen_failure_run_id), opt_view(s.last_seen_warning_run_id))
}

/// One store's entry in the seen-state mapping.
#[derive(Debug, Clone)]
pub struct SeenEntry {
    pub store_id: String,
    pub seen: StoreSeenState,
}

/// The entry that a list of entries holds for `store`; a later entry for the
/// same store overrides an earlier one.
pub open spec fn lookup_entry(es: Seq<SeenEntry>, store: Seq<char>) -> Option<SeenIds>
    decreases es.len(),
{
    if es.len() == 0 {
        None
    } else if es.last().store_id@ == store {
        Some(seen_ids(es.last().seen))
    } else {
        lookup_entry(es.drop_last(), store)
    }
}

/// The mapping that a list of entries describes.
pub open spec fn entries_map(es: Seq<SeenEntry>) -> Map<Seq<char>, SeenIds> {
    Map::new(|k: Seq<char>| lookup_entry(es, k).is_some(), |k: Seq<char>| lookup_entry(es, k).unwrap())
}

/// No two entries name the same store.
pub open spec fn unique_stores(es: Seq<SeenEntry>) -> bool {
    forall|i: int, j: int|
        0 <= i < es.len() && 0 <= j < es.len() && i != j ==> es[i].store_id@ != es[j].store_id@
}

/// The seen state of every store; a store that is absent has seen nothing.
#[derive(Debug, Clone)]
pub struct SeenState {
    entries: Vec<SeenEntry>,
}

/// What an absent store has seen: nothing.
pub open spec fn nothing_seen() -> SeenIds {
    (None, None)
}

/// What `store` has seen according to mapping `m`.
pub open spec fn seen_in(m: Map<Seq<char>, SeenIds>, store: Seq<char>) -> SeenIds {
    if m.contains_key(store) {
        m[store]
    } else {
        nothing_seen()
    }
}

impl SeenState {
    pub closed spec fn entries_spec(&self) -> Seq<SeenEntry> {
        self.entries@
    }

    /// The mapping from store id to seen identifiers.
    pub open spec fn view(&self) -> Map<Seq<char>, SeenIds> {
        entries_map(self.entries_spec())
    }

    pub open spec fn wf(&self) -> bool {
        unique_stores(self.entries_spec())
    }

    /// What `store` has seen, absent entries counting as nothing seen.
    pub open spec fn seen_of(&self, store: Seq<char>) -> SeenIds {
        seen_in(self.view(), store)
    }

    /// The empty mapping: nothing seen anywhere.
    pub fn new() -> (s: Self)
        ensures
            s.wf(),
            s.view() == Map::<Seq<char>, SeenIds>::empty(),
    {
        let s = SeenState { entries: Vec::new() };
        assert(s.view() =~= Map::<Seq<char>, SeenIds>::empty());
        s
    }

    /// What `store` has seen; nothing when the store is absent.
    pub fn get(&self, store: &String) -> (r: StoreSeenState)
        ensures
            seen_ids(r) == self.seen_of(store@),
    {
        let mut i: usize = self.entries.len();
        assert(self.entries@.take(i as int) =~= self.entries@);
        while i > 0
            invariant
                i <= self.entries.len(),
                lookup_entry(self.entries@, store@) == lookup_entry(self.entries@.take(i as int), store@),
            decreases i,
        {
            let e = &self.entries[i - 1];
            let ghost pre = self.entries@.take(i as int);
            assert(pre.drop_last() =~= self.entries@.take(i - 1));
            if e.store_id == *store {
                return e.seen.clone_seen();
            }
            i -= 1;
        }
        StoreSeenState { last_seen_failure_run_id: None, last_seen_warning_run_id: None }
    }

    /// Sets what `store` has seen, replacing any earlier entry for it.
    pub fn set(&mut self, store: String, seen: StoreSeenState)
        ensures
            final(self).view() == old(self).view().insert(store@, seen_ids(seen)),
            old(self).wf() ==> final(self).wf(),
    {
        let ghost old_entries = self.entries@;
        let mut kept: Vec<SeenEntry> = Vec::new();
        let mut i: usize = 0;
        while i < self.entries.len()
            invariant
                i <= self.entries.len(),
                self.entries@ == old_entries,
                forall|k: Seq<char>| #[trigger]
                    lookup_entry(kept@, k) == if k == store@ {
                        None
                    } else {
                        lookup_entry(old_entries.take(i as int), k)
                    },
                forall|a: int| 0 <= a < kept@.len() ==> #[trigger] kept@[a].store_id@ != store@,
                forall|a: int|
                    0 <= a < kept@.len() ==> exists|b: int|
                        0 <= b < i && #[trigger] kept@[a].store_id@ == old_entries[b].store_id@,
                unique_stores(old_entries) ==> unique_stores(kept@),
            decreases self.entries.len() - i,
        {
            let ghost pre = old_entries.take(i + 1);
            let ghost old_kept = kept@;
            assert(pre.drop_last() =~= old_entries.take(i as int));
            assert(pre.last() == old_entries[i as int]);
            let differs = self.entries[i].store_id != store;
            if differs {
                let e = self.entries[i].clone_entry();
                kept.push(e);
                assert(kept@.drop_last() =~= old_kept);
                assert(kept@.last() == old_entries[i as int]);
                assert forall|a: int| 0 <= a < kept@.len() implies exists|b: int|
                    0 <= b < i + 1 && #[trigger] kept@[a].store_id@ == old_entries[b].store_id@ by {
                    if a < old_kept.len() {
                        assert(old_kept[a] == kept@[a]);
                    } else {
                        assert(kept@[a] == old_entries[i as int]);
                    }
                }
                proof {
                    if unique_stores(old_entries) {
                        assert forall|a: int, b: int|
                            0 <= a < kept@.len() && 0 <= b < kept@.len() && a != b
                                implies kept@[a].store_id@ != kept@[b].store_id@ by {
                            let n = old_kept.len() as int;
                            if a < n && b < n {
                                assert(old_kept[a] == kept@[a] && old_kept[b] == kept@[b]);
                            } else if a < n {
                                assert(old_kept[a] == kept@[a]);
                                let c = choose|c: int| 0 <= c < i && #[trigger] old_kept[a].store_id@ == old_entries[c].store_id@;
                            } else if b < n {
                                assert(old_kept[b] == kept@[b]);
                                let c = choose|c: int| 0 <= c < i && #[trigger] old_kept[b].store_id@ == old_entries[c].store_id@;
                            }
                        }
                    }
                }
            }
            assert forall|k: Seq<char>| #[trigger]
                lookup_entry(kept@, k) == if k == store@ {
                    None
                } else {
                    lookup_entry(pre, k)
                } by {
                assert(lookup_entry(old_kept, k) == if k == store@ {
                    None
                } else {
                    lookup_entry(old_entries.take(i as int), k)
                });
                assert(lookup_entry(pre, k) == if pre.last().store_id@ == k {
                    Some(seen_ids(pre.last().seen))
                } else {
                    lookup_entry(old_entries.take(i as int), k)
                });
                if differs {
                    assert(pre.last().store_id@ != store@);
                    assert(kept@.drop_last() =~= old_kept);
                    assert(kept@.last() == pre.last());
                } else {
                    assert(kept@ == old_kept);
                    assert(pre.last().store_id@ == store@);
                }
            }
            i += 1;
        }
        assert(old_entries.take(old_entries.len() as int) =~= old_entries);
        let ghost kept_before = kept@;
        kept.push(SeenEntry { store_id: store, seen });
        assert(kept@.drop_last() =~= kept_before);
        self.entries = kept;
        assert forall|k: Seq<char>| #[trigger]
            lookup_entry(self.entries@, k) == if k == store@ {
                Some(seen_ids(seen))
            } else {
                lookup_entry(old_entries, k)
            } by {
            assert(self.entries@.drop_last() =~= kept_before);
            if k != store@ {
                assert(lookup_entry(kept_before, k) == lookup_entry(
                    old_entries.take(old_entries.len() as int),
                    k,
                ));
            }
        }
        assert(self.view() =~= entries_map(old_entries).insert(store@, seen_ids(seen)));
        proof {
            if unique_stores(old_entries) {
                assert forall|a: int, b: int|
                    0 <= a < self.entries@.len() && 0 <= b < self.entries@.len() && a != b
                        implies self.entries@[a].store_id@ != self.entries@[b].store_id@ by {
                    let n = kept_before.len() as int;
                    if a < n && b < n {
                        assert(kept_before[a] == self.entries@[a] && kept_before[b] == self.entries@[b]);
                    } else if a < n {
                        assert(kept_before[a] == self.entries@[a]);
                    } else if b < n {
                        assert(kept_before[b] == self.entries@[b]);
                    }
                }
            }
        }
    }

    /// The entries of the mapping, one per store, for writing out.
    pub fn to_entries(&self) -> (r: Vec<SeenEntry>)
        ensures
            entries_map(r@) == self.view(),
            self.wf() ==> unique_stores(r@),
    {
        let mut r: Vec<SeenEntry> = Vec::new();
        let mut i: usize = 0;
        while i < self.entries.len()
            invariant
                i <= self.entries.len(),
                r@ == self.entries@.take(i as int),
            decreases self.entries.len() - i,
        {
            r.push(self.entries[i].clone_entry());
            assert(r@ =~= self.entries@.take(i + 1));
            i += 1;
        }
        assert(r@ =~= self.entries@);
        r
    }

    /// The mapping that a list of entries describes, a later entry for a store
    /// overriding an earlier one.
    pub fn from_entries(entries: Vec<SeenEntry>) -> (s: Self)
        ensures
            s.view() == entries_map(entries@),
            s.wf(),
    {
        let mut s = SeenState::new();
        let mut i: usize = 0;
        while i < entries.len()
            invariant
                i <= entries.len(),
                s.wf(),
                s.view() == entries_map(entries@.take(i as int)),
            decreases entries.len() - i,
        {
            let e = entries[i].clone_entry();
            s.set(e.store_id, e.seen);
            let ghost pre = entries@.take(i + 1);
            assert(pre.drop_last() =~= entries@.take(i as int));
            assert(s.view() =~= entries_map(pre));
            i += 1;
        }
        assert(entries@.take(entries.len() as int) =~= entries@);
        s
    }
}

impl StoreSeenState {
    /// A copy of this state.
    pub fn clone_seen(&self) -> (r: StoreSeenState)
        ensures
            r == *self,
    {
        StoreSeenState {
            last_seen_failure_run_id: self.last_seen_failure_run_id.clone(),
            last_seen_warning_run_id: self.last_seen_warning_run_id.clone(),
        }
    }
}

impl SeenEntry {
    /// A copy of this entry.
    pub fn clone_entry(&self) -> (r: SeenEntry)
        ensures
            r == *self,
    {
        SeenEntry { store_id: self.store_id.clone(), seen: self.seen.clone_seen() }
    }
}

/// In a list of entries, an entry for `store` is what the list holds for it
/// when no other entry names that store.
proof fn lemma_lookup_unique(es: Seq<SeenEntry>, i: int)
    requires
        unique_stores(es),
        0 <= i < es.len(),
    ensures
        lookup_entry(es, es[i].store_id@) == Some(seen_ids(es[i].seen)),
    decreases es.len(),
{
    if i < es.len() - 1 {
        let init = es.drop_last();
        assert(es.last() == es[es.len() - 1]);
        assert(unique_stores(init));
        assert(init[i] == es[i]);
        lemma_lookup_unique(init, i);
    }
}

/// A list of entries none of which names `store` holds nothing for it.
proof fn lemma_lookup_absent(es: Seq<SeenEntry>, store: Seq<char>)
    requires
        forall|i: int| 0 <= i < es.len() ==> #[trigger] es[i].store_id@ != store,
    ensures
        lookup_entry(es, store) is None,
    decreases es.len(),
{
    if es.len() > 0 {
        let init = es.drop_last();
        assert(es.last() == es[es.len() - 1]);
        assert forall|i: int| 0 <= i < init.len() implies #[trigger] init[i].store_id@ != store by {
            assert(init[i] == es[i]);
        }
        lemma_lookup_absent(init, store);
    }
}

/// Writing a seen state out as its entries and reading them back, in any
/// order (as from a keyed document), gives the same mapping, absent stores
/// included.
pub proof fn lemma_seen_state_round_trip(s: SeenState, written: Seq<SeenEntry>, read: Seq<SeenEntry>)
    requires
        entries_map(written) == s.view(),
        unique_stores(written),
        unique_stores(read),
        read.to_multiset() == written.to_multiset(),
    ensures
        entries_map(read) == s.view(),
{
    read.to_multiset_ensures();
    written.to_multiset_ensures();
    assert forall|k: Seq<char>| #[trigger] lookup_entry(read, k) == lookup_entry(written, k) by {
        if exists|i: int| 0 <= i < read.len() && #[trigger] read[i].store_id@ == k {
            let i = choose|i: int| 0 <= i < read.len() && #[trigger] read[i].store_id@ == k;
            assert(read.contains(read[i]));
            assert(read.to_multiset().count(read[i]) > 0);
            assert(written.to_multiset().count(read[i]) > 0);
            assert(written.contains(read[i]));
            let j = choose|j: int| 0 <= j < written.len() && written[j] == read[i];
            lemma_lookup_unique(read, i);
            lemma_lookup_unique(written, j);
        } else {
            lemma_lookup_absent(read, k);
            assert forall|j: int| 0 <= j < written.len() implies #[trigger] written[j].store_id@ != k by {
                assert(written.contains(written[j]));
                assert(written.to_multiset().count(written[j]) > 0);
                assert(read.to_multiset().count(written[j]) > 0);
                assert(read.contains(written[j]));
            }
            lemma_lookup_absent(written, k);
        }
    }
    assert(entries_map(read) =~= entries_map(written));
}

} // verus!
