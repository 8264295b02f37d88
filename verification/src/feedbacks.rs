//! Tracks which thread initiated each thread known to the scheduler, plus
//! per-thread metadata and result channels.
//!
//! Threads are identified by an integer identity (the address of the Lua
//! thread); the handles themselves (`H`) are kept so that related threads can
//! be handed back to the caller.
use vstd::prelude::*;
use std::collections::HashMap;
use tokio::sync::mpsc::{UnboundedReceiver, UnboundedSender};
use vstd::multiset::Multiset;
use vstd::std_specs::iter::IteratorSpec;
use vstd::string::StringExecFns;
use crate::cell::XRefCell;
use crate::channel::{unbounded_channel, unbounded_send};

verus! {

broadcast use vstd::std_specs::hash::group_hash_axioms;

/// How many times the initiator entry `k -> v` puts `x` among the threads
/// related to `p`: an entry for `p` contributes its initiator, an entry whose
/// initiator is `p` contributes its thread.
pub open spec fn entry_relates(k: u64, v: u64, p: u64, x: u64) -> nat {
    if k == p {
        if v == x { 1 } else { 0 }
    } else if v == p {
        if k == x { 1 } else { 0 }
    } else {
        0
    }
}

/// The number of times `x` is related to `p` through the initiator map `m`:
/// once if `x` is the initiator of `p`, once more if `p` is the initiator of
/// `x` (and `x` is not `p` itself).
pub open spec fn related_count(m: Map<u64, u64>, p: u64, x: u64) -> nat {
    (if m.contains_key(p) && m[p] == x { 1nat } else { 0nat }) + (if m.contains_key(x) && x != p
        && m[x] == p { 1nat } else { 0nat })
}

/// How often `x` occurs in the related threads of `p`: the threads related to
/// `p` itself, then those related to the initiator of `p`, if it has one.
pub open spec fn related_total(m: Map<u64, u64>, p: u64, x: u64) -> nat {
    related_count(m, p, x) + if m.contains_key(p) { related_count(m, m[p], x) } else { 0 }
}

/// The sum of `entry_relates` over a sequence of entries.
pub open spec fn relates_count(s: Seq<(u64, u64)>, p: u64, x: u64) -> nat
    decreases s.len(),
{
    if s.len() == 0 {
        0
    } else {
        relates_count(s.drop_last(), p, x) + entry_relates(s.last().0, s.last().1, p, x)
    }
}

/// Walking the entries of an initiator map once each, in any order, counts
/// exactly `related_count`.
proof fn lemma_relates_count_of_map(s: Seq<(u64, u64)>, m: Map<u64, u64>, p: u64, x: u64)
    requires
        s.no_duplicates(),
        s.to_set() == m.kv_pairs(),
        m.dom().finite(),
    ensures
        relates_count(s, p, x) == related_count(m, p, x),
    decreases s.len(),
{
    if s.len() == 0 {
        assert(m.dom() =~= Set::empty()) by {
            assert forall|k: u64| m.dom().contains(k) implies false by {
                assert(m.kv_pairs().contains((k, m[k])));
                assert(s.to_set().contains((k, m[k])));
            }
        }
    } else {
        let e = s.last();
        let t = s.drop_last();
        let m2 = m.remove(e.0);
        assert(s.to_set().contains(e)) by {
            assert(s.contains(e));
        }
        assert(m.kv_pairs().contains(e));
        assert(m.contains_key(e.0) && m[e.0] == e.1);
        assert(t.no_duplicates()) by {
            assert forall|i: int, j: int| 0 <= i < t.len() && 0 <= j < t.len() && i != j implies t[i]
                != t[j] by {
                assert(t[i] == s[i] && t[j] == s[j]);
            }
        }
        assert(t.to_set() =~= m2.kv_pairs()) by {
            assert forall|q: (u64, u64)| t.to_set().contains(q) implies m2.kv_pairs().contains(q) by {
                let i: int = choose|i: int| 0 <= i < t.len() && t[i] == q;
                assert(s[i] == q);
                assert(s.contains(q));
                assert(m.kv_pairs().contains(q));
                assert(q != e) by {
                    assert(s[s.len() - 1] == e);
                }
                assert(q.0 != e.0);
            }
            assert forall|q: (u64, u64)| m2.kv_pairs().contains(q) implies t.to_set().contains(q) by {
                assert(m.kv_pairs().contains(q));
                assert(s.to_set().contains(q));
                let i: int = choose|i: int| 0 <= i < s.len() && s[i] == q;
                assert(i != s.len() - 1);
                assert(t[i] == q);
                assert(t.contains(q));
            }
        }
        lemma_relates_count_of_map(t, m2, p, x);
    }
}

/// The initiator of a thread is among its related threads, and so is every
/// thread that it initiated.
pub proof fn law_related_includes_initiator_and_initiated(m: Map<u64, u64>, p: u64, x: u64)
    ensures
        m.contains_key(p) ==> related_total(m, p, m[p]) >= 1,
        m.contains_key(x) && x != p && m[x] == p ==> related_total(m, p, x) >= 1,
{
}

/// A thread that is neither the initiator of `p` nor initiated by `p`, nor
/// related in the same way to the initiator of `p`, is not among the related
/// threads of `p`.
pub proof fn law_related_only_through_initiators(m: Map<u64, u64>, p: u64, x: u64)
    requires
        !(m.contains_key(p) && m[p] == x),
        !(m.contains_key(x) && m[x] == p),
        m.contains_key(p) ==> !(m.contains_key(m[p]) && m[m[p]] == x) && !(m.contains_key(x)
            && m[x] == m[p]),
    ensures
        related_total(m, p, x) == 0,
{
}

/// A thread recorded through `on_thread_add` by a creator that was itself
/// recorded through `on_thread_add` by a creator without an initiator has
/// that first creator as its initiator: initiators are passed down.
pub proof fn law_initiator_passed_down(m: Map<u64, u64>, root: u64, child: u64, grandchild: u64)
    requires
        !m.contains_key(root),
        child != root,
    ensures
        ({
            let m1 = m.insert(child, inherited_initiator(m, root));
            let m2 = m1.insert(grandchild, inherited_initiator(m1, child));
            m2[child] == root && m2[grandchild] == root
        }),
{
}

/// After `add_thread` records `thread_id` as initiated by `initiator_id`, the
/// initiator read back for `thread_id` is `initiator_id`, with the handle that
/// was given for it; after `remove_thread` no initiator is read back.
pub proof fn law_initiator_read_after_write<H: Clone, R>(
    before: &ThreadTracker<H, R>,
    added: &ThreadTracker<H, R>,
    removed: &ThreadTracker<H, R>,
    thread: H,
    thread_id: u64,
    initiator: H,
    initiator_id: u64,
)
    requires
        added.initiators() == before.initiators().insert(thread_id, initiator_id),
        added.handles() == before.handles().insert(thread_id, thread).insert(initiator_id, initiator),
        removed.initiators() == added.initiators().remove(thread_id),
    ensures
        added.initiators().contains_key(thread_id),
        added.initiators()[thread_id] == initiator_id,
        added.handles().contains_key(initiator_id),
        added.handles()[initiator_id] == initiator,
        !removed.initiators().contains_key(thread_id),
{
}

/// What `set_metadata` writes for a thread is what `get_metadata` reads back
/// for it, and the metadata of every other thread stays as it was.
pub proof fn law_metadata_read_after_write<H: Clone, R>(
    before: &ThreadTracker<H, R>,
    after: &ThreadTracker<H, R>,
    thread_id: u64,
    metadata: Seq<char>,
    other: u64,
)
    requires
        after.metadata() == before.metadata().insert(thread_id, metadata),
        other != thread_id,
    ensures
        after.metadata().contains_key(thread_id),
        after.metadata()[thread_id] == metadata,
        after.metadata().contains_key(other) == before.metadata().contains_key(other),
        before.metadata().contains_key(other) ==> after.metadata()[other] == before.metadata()[other],
{
}

/// After `on_thread_add` on a well-formed tracker, the new thread has an
/// initiator, so `get_initiator` returns `Some` for it: the creator's own
/// initiator when the creator has one, else the creator; and that initiator
/// has a handle.
pub proof fn law_on_thread_add_initiator_read<H: Clone, R>(
    before: &ThreadTracker<H, R>,
    after: &ThreadTracker<H, R>,
    creator_id: u64,
    thread_id: u64,
)
    requires
        before.wf(),
        after.wf(),
        after.initiators() == before.initiators().insert(
            thread_id,
            inherited_initiator(before.initiators(), creator_id),
        ),
    ensures
        after.initiators().contains_key(thread_id),
        after.initiators()[thread_id] == (if before.initiators().contains_key(creator_id) {
            before.initiators()[creator_id]
        } else {
            creator_id
        }),
        after.handles().contains_key(after.initiators()[thread_id]),
{
    after.lemma_wf_initiators_have_handles();
}

/// The initiator given to a thread created by `creator`: the creator's own
/// initiator if it has one, else the creator.
pub open spec fn inherited_initiator(m: Map<u64, u64>, creator: u64) -> u64 {
    if m.contains_key(creator) {
        m[creator]
    } else {
        creator
    }
}

/// Tracks the threads known to the scheduler and the thread that initiated
/// each of them.
#[verifier::reject_recursive_types(R)]
pub struct ThreadTracker<H, R> {
    threads_known: XRefCell<HashMap<u64, u64>>,
    thread_hashmap: XRefCell<HashMap<u64, H>>,
    thread_metadata: XRefCell<HashMap<u64, String>>,
    /// Result channels of the threads whose results are tracked.
    pub returns: XRefCell<HashMap<u64, UnboundedSender<Option<R>>>>,
}

impl<H: Clone, R> ThreadTracker<H, R> {
    /// Thread -> the thread that initiated it.
    pub closed spec fn initiators(&self) -> Map<u64, u64> {
        self.threads_known@@
    }

    /// Thread identity -> the handle of that thread.
    pub closed spec fn handles(&self) -> Map<u64, H> {
        self.thread_hashmap@@
    }

    /// Thread identity -> its metadata.
    pub closed spec fn metadata(&self) -> Map<u64, Seq<char>> {
        self.thread_metadata@@.map_values(|s: String| s@)
    }

    /// The threads whose results are watched.
    pub closed spec fn watched(&self) -> Set<u64> {
        self.returns@@.dom()
    }

    /// Every thread that has an initiator, and every initiator, has a handle.
    pub closed spec fn wf(&self) -> bool {
        forall|k: u64|
            #[trigger] self.threads_known@@.contains_key(k) ==> self.thread_hashmap@@.contains_key(k)
                && self.thread_hashmap@@.contains_key(self.threads_known@@[k])
    }

    /// In a well-formed tracker, every thread that has an initiator has a
    /// handle, and so does its initiator.
    pub proof fn lemma_wf_initiators_have_handles(&self)
        requires
            self.wf(),
        ensures
            forall|k: u64|
                #[trigger] self.initiators().contains_key(k) ==> self.handles().contains_key(k)
                    && self.handles().contains_key(self.initiators()[k]),
    {
    }

    /// Creates an empty tracker.
    pub fn new() -> (t: Self)
        ensures
            t.wf(),
            t.initiators() == Map::<u64, u64>::empty(),
            t.handles() == Map::<u64, H>::empty(),
            t.metadata() == Map::<u64, Seq<char>>::empty(),
            t.watched() == Set::<u64>::empty(),
    {
        let t = ThreadTracker {
            threads_known: XRefCell::new(HashMap::new()),
            thread_hashmap: XRefCell::new(HashMap::new()),
            thread_metadata: XRefCell::new(HashMap::new()),
            returns: XRefCell::new(HashMap::new()),
        };
        assert(t.metadata() =~= Map::<u64, Seq<char>>::empty());
        t
    }

    /// Gets the initiator of a thread.
    pub fn get_initiator(&self, thread_id: u64) -> (r: Option<H>)
        ensures
            match r {
                Some(h) => self.initiators().contains_key(thread_id) && self.handles().contains_key(
                    self.initiators()[thread_id],
                ) && cloned(self.handles()[self.initiators()[thread_id]], h),
                None => !(self.initiators().contains_key(thread_id) && self.handles().contains_key(
                    self.initiators()[thread_id],
                )),
            },
            self.wf() ==> (r is Some <==> self.initiators().contains_key(thread_id)),
    {
        let initiator_id: u64 = match self.threads_known.borrow().get(&thread_id) {
            Some(i) => *i,
            None => return None,
        };
        self.thread_hashmap.borrow().get(&initiator_id).cloned()
    }

    /// Identities of the related threads of `thread_id`, in the order in which
    /// they are found.
    fn related_ids(&self, thread_id: u64) -> (ids: Vec<u64>)
        ensures
            forall|x: u64|
                ids@.to_multiset().count(x) == #[trigger] related_count(self.initiators(), thread_id, x),
    {
        broadcast use vstd::seq_lib::group_to_multiset_ensures, vstd::multiset::group_multiset_axioms;

        let mut ids: Vec<u64> = Vec::new();
        let known = self.threads_known.borrow();
        assert(ids@.to_multiset() =~= Multiset::empty());
        let ghost all = vstd::std_specs::hash::spec_hash_map_iter(known).remaining().unref();
        let ghost mut walked: int = 0;
        for (key, value) in it: known.iter()
            invariant
                known@ == self.initiators(),
                all == it.seq().unref(),
                walked == it.index(),
                0 <= walked <= all.len(),
                forall|x: u64| ids@.to_multiset().count(x) == #[trigger] relates_count(
                    all.take(walked),
                    thread_id,
                    x,
                ),
        {
            let ghost before = all.take(walked);
            let ghost after = all.take(walked + 1);
            assert(after.drop_last() =~= before);
            assert(all[walked] == (*key, *value));
            assert(after.last() == (*key, *value));
            let ghost old_ids = ids@;
            assert(forall|x: u64| old_ids.to_multiset().count(x) == #[trigger] relates_count(
                before,
                thread_id,
                x,
            ));
            if *key == thread_id {
                ids.push(*value);
                assert(ids@ == old_ids.push(*value));
            } else if *value == thread_id {
                ids.push(*key);
                assert(ids@ == old_ids.push(*key));
            }
            proof {
                walked = walked + 1;
            }
            assert forall|x: u64| ids@.to_multiset().count(x) == #[trigger] relates_count(
                after,
                thread_id,
                x,
            ) by {
                assert(relates_count(after, thread_id, x) == relates_count(before, thread_id, x)
                    + entry_relates(*key, *value, thread_id, x));
                assert(old_ids.to_multiset().count(x) == relates_count(before, thread_id, x));
                old_ids.to_multiset_ensures();
                if *key == thread_id {
                    assert(ids@ == old_ids.push(*value));
                    assert(ids@.to_multiset() =~= old_ids.to_multiset().insert(*value));
                } else if *value == thread_id {
                    assert(ids@ == old_ids.push(*key));
                    assert(ids@.to_multiset() =~= old_ids.to_multiset().insert(*key));
                } else {
                    assert(ids@ == old_ids);
                }
            }
        }
        proof {
            let s = all;
            assert(walked == all.len());
            assert(all.take(walked) =~= all);
            assert(s.to_set() == known@.kv_pairs());
            assert(s.no_duplicates());
            assert forall|x: u64| ids@.to_multiset().count(x) == #[trigger] related_count(
                self.initiators(),
                thread_id,
                x,
            ) by {
                lemma_relates_count_of_map(s, known@, thread_id, x);
            }
        }
        ids
    }

    /// The handles of the given threads, in the same order.
    fn handles_of(&self, ids: &Vec<u64>) -> (hs: Vec<H>)
        requires
            forall|i: int| 0 <= i < ids.len() ==> self.handles().contains_key(#[trigger] ids[i]),
        ensures
            hs.len() == ids.len(),
            forall|i: int| 0 <= i < ids.len() ==> cloned(self.handles()[ids[i]], #[trigger] hs[i]),
    {
        let mut hs: Vec<H> = Vec::new();
        let handles = self.thread_hashmap.borrow();
        for i in 0..ids.len()
            invariant
                handles@ == self.handles(),
                forall|j: int| 0 <= j < ids.len() ==> self.handles().contains_key(#[trigger] ids[j]),
                hs.len() == i,
                forall|j: int| 0 <= j < i ==> cloned(self.handles()[ids[j]], #[trigger] hs[j]),
        {
            let h = handles.get(&ids[i]).cloned();
            match h {
                Some(h) => hs.push(h),
                None => {
                    assert(false);
                },
            }
        }
        hs
    }

    /// Every thread related to `p` through the initiator map has a handle.
    proof fn lemma_related_have_handles(&self, ids: Seq<u64>, p: u64)
        requires
            self.wf(),
            forall|x: u64| ids.to_multiset().count(x) == #[trigger] related_count(self.initiators(), p, x),
        ensures
            forall|i: int| 0 <= i < ids.len() ==> self.handles().contains_key(#[trigger] ids[i]),
    {
        broadcast use vstd::seq_lib::group_to_multiset_ensures;

        assert forall|i: int| 0 <= i < ids.len() implies self.handles().contains_key(#[trigger] ids[i]) by {
            let x: u64 = ids[i];
            assert(ids.contains(x));
            assert(ids.to_multiset().count(x) > 0);
            assert(related_count(self.initiators(), p, x) > 0);
            if self.initiators().contains_key(p) && self.initiators()[p] == x {
                assert(self.threads_known@@.contains_key(p));
            } else {
                assert(self.threads_known@@.contains_key(x));
            }
        }
    }

    /// Returns the threads related to `thread_id`: the thread that initiated
    /// it and the threads it initiated, then the same for its initiator, if it
    /// has one. Each comes once per initiator entry that relates it, in the
    /// order in which the entries are walked.
    pub fn get_related_threads(&self, thread_id: u64) -> (r: Vec<H>)
        requires
            self.wf(),
        ensures
            exists|ids: Seq<u64>|
                {
                    &&& ids.len() == r.len()
                    &&& forall|i: int|
                        0 <= i < ids.len() ==> self.handles().contains_key(#[trigger] ids[i])
                            && cloned(self.handles()[ids[i]], r[i])
                    &&& forall|x: u64|
                        ids.to_multiset().count(x) == #[trigger] related_total(
                            self.initiators(),
                            thread_id,
                            x,
                        )
                },
    {
        broadcast use vstd::seq_lib::group_to_multiset_ensures, vstd::multiset::group_multiset_axioms;

        let ids = self.related_ids(thread_id);
        proof {
            self.lemma_related_have_handles(ids@, thread_id);
        }
        let mut related = self.handles_of(&ids);
        let initiator_id: Option<u64> = match self.get_initiator(thread_id) {
            Some(_) => Some(*self.threads_known.borrow().get(&thread_id).unwrap()),
            None => None,
        };
        match initiator_id {
            Some(iid) => {
                let more_ids = self.related_ids(iid);
                proof {
                    self.lemma_related_have_handles(more_ids@, iid);
                }
                let mut more = self.handles_of(&more_ids);
                related.append(&mut more);
                proof {
                    let all_ids = ids@ + more_ids@;
                    vstd::seq_lib::lemma_multiset_commutative(ids@, more_ids@);
                    assert forall|i: int| 0 <= i < all_ids.len() implies self.handles().contains_key(
                        #[trigger] all_ids[i],
                    ) && cloned(self.handles()[all_ids[i]], related[i]) by {
                        if i < ids@.len() {
                            assert(all_ids[i] == ids@[i]);
                        } else {
                            assert(all_ids[i] == more_ids@[i - ids@.len()]);
                        }
                    }
                    assert forall|x: u64| all_ids.to_multiset().count(x) == #[trigger] related_total(
                        self.initiators(),
                        thread_id,
                        x,
                    ) by {
                        assert(all_ids.to_multiset().count(x) == ids@.to_multiset().count(x)
                            + more_ids@.to_multiset().count(x));
                        assert(related_count(self.initiators(), thread_id, x) == ids@.to_multiset().count(x));
                        assert(related_count(self.initiators(), iid, x) == more_ids@.to_multiset().count(x));
                    }
                    assert(all_ids.len() == related.len());
                }
            },
            None => {
                proof {
                    assert forall|i: int| 0 <= i < ids@.len() implies self.handles().contains_key(
                        #[trigger] ids@[i],
                    ) && cloned(self.handles()[ids@[i]], related[i]) by {}
                    assert forall|x: u64| ids@.to_multiset().count(x) == #[trigger] related_total(
                        self.initiators(),
                        thread_id,
                        x,
                    ) by {
                        assert(related_count(self.initiators(), thread_id, x) == ids@.to_multiset().count(x));
                    }
                }
            },
        }
        related
    }

    /// Sets the metadata of a thread, replacing any earlier metadata.
    pub fn set_metadata(&mut self, thread_id: u64, metadata: String)
        ensures
            final(self).metadata() == old(self).metadata().insert(thread_id, metadata@),
            final(self).initiators() == old(self).initiators(),
            final(self).handles() == old(self).handles(),
            final(self).watched() == old(self).watched(),
            final(self).wf() == old(self).wf(),
    {
        let ghost m = metadata@;
        self.thread_metadata.borrow_mut().insert(thread_id, metadata);
        assert(self.metadata() =~= old(self).metadata().insert(thread_id, m));
    }

    /// Gets the metadata of a thread.
    pub fn get_metadata(&self, thread_id: u64) -> (r: Option<String>)
        ensures
            match r {
                Some(m) => self.metadata().contains_key(thread_id) && m@ == self.metadata()[thread_id],
                None => !self.metadata().contains_key(thread_id),
            },
    {
        self.thread_metadata.borrow().get(&thread_id).cloned()
    }

    /// Returns a thread whose metadata is `metadata`: the first one in the walk
    /// over the metadata that has a handle, or `None` when no thread with
    /// this metadata has a handle.
    pub fn get_thread_from_metadata(&self, metadata: &str) -> (r: Option<H>)
        ensures
            match r {
                Some(h) => exists|k: u64|
                    #![trigger self.metadata()[k]]
                    self.metadata().contains_key(k) && self.metadata()[k] == metadata@
                        && self.handles().contains_key(k) && cloned(self.handles()[k], h),
                None => !exists|k: u64|
                    #![trigger self.metadata()[k]]
                    self.metadata().contains_key(k) && self.metadata()[k] == metadata@
                        && self.handles().contains_key(k),
            },
    {
        let target = String::from_str(metadata);
        let meta = self.thread_metadata.borrow();
        let handles = self.thread_hashmap.borrow();
        let ghost all = vstd::std_specs::hash::spec_hash_map_iter(meta).remaining().unref();
        let ghost mut walked: int = 0;
        for (key, value) in it: meta.iter()
            invariant
                meta@ == self.thread_metadata@@,
                handles@ == self.handles(),
                target@ == metadata@,
                all == it.seq().unref(),
                walked == it.index(),
                0 <= walked <= all.len(),
                forall|j: int|
                    0 <= j < walked ==> (#[trigger] all[j]).1@ != metadata@
                        || !handles@.contains_key(all[j].0),
        {
            assert(all[walked] == (*key, *value));
            if *value == target {
                match handles.get(key) {
                    Some(h) => {
                        proof {
                            assert(all.to_set().contains((*key, *value))) by {
                                assert(all.contains((*key, *value)));
                            }
                            assert(meta@.kv_pairs().contains((*key, *value)));
                            assert(self.metadata()[*key] == value@);
                        }
                        return Some(h.clone());
                    },
                    None => {},
                }
            }
            proof {
                walked = walked + 1;
            }
        }
        proof {
            assert(walked == all.len());
            assert forall|k: u64| #[trigger] self.metadata().contains_key(k) && self.metadata()[k]
                == metadata@ implies !self.handles().contains_key(k) by {
                assert(meta@.kv_pairs().contains((k, meta@[k])));
                assert(all.to_set().contains((k, meta@[k])));
                let j: int = choose|j: int| 0 <= j < all.len() && all[j] == (k, meta@[k]);
                assert(all[j].1@ != metadata@ || !handles@.contains_key(all[j].0));
            }
        }
        None
    }

    /// Records that `thread` was initiated by `initiator`, keeping the handles
    /// of both.
    pub fn add_thread(&mut self, thread: H, thread_id: u64, initiator: H, initiator_id: u64)
        requires
            old(self).wf(),
        ensures
            final(self).wf(),
            final(self).initiators() == old(self).initiators().insert(thread_id, initiator_id),
            final(self).handles() == old(self).handles().insert(thread_id, thread).insert(
                initiator_id,
                initiator,
            ),
            final(self).metadata() == old(self).metadata(),
            final(self).watched() == old(self).watched(),
    {
        self.threads_known.borrow_mut().insert(thread_id, initiator_id);
        self.thread_hashmap.borrow_mut().insert(thread_id, thread);
        self.thread_hashmap.borrow_mut().insert(initiator_id, initiator);
    }

    /// Forgets the initiator of a thread; its handle is kept.
    pub fn remove_thread(&mut self, thread_id: u64)
        requires
            old(self).wf(),
        ensures
            final(self).wf(),
            final(self).initiators() == old(self).initiators().remove(thread_id),
            final(self).handles() == old(self).handles(),
            final(self).metadata() == old(self).metadata(),
            final(self).watched() == old(self).watched(),
    {
        self.threads_known.borrow_mut().remove(&thread_id);
    }

    /// Starts watching the results of a thread; results reported for it
    /// through [`ThreadTracker::on_response`] arrive on the returned receiver.
    pub fn track_thread(&mut self, thread_id: u64) -> (rx: UnboundedReceiver<Option<R>>)
        requires
            old(self).wf(),
        ensures
            final(self).wf(),
            final(self).watched() == old(self).watched().insert(thread_id),
            final(self).initiators() == old(self).initiators(),
            final(self).handles() == old(self).handles(),
            final(self).metadata() == old(self).metadata(),
    {
        let (tx, rx) = unbounded_channel();
        self.returns.borrow_mut().insert(thread_id, tx);
        rx
    }

    /// Records a thread created by `creator`: the new thread's initiator is
    /// the creator's own initiator if the creator has one, else the creator.
    pub fn on_thread_add(&mut self, _label: &str, creator: H, creator_id: u64, thread: H, thread_id: u64)
        requires
            old(self).wf(),
        ensures
            final(self).wf(),
            final(self).initiators() == old(self).initiators().insert(
                thread_id,
                inherited_initiator(old(self).initiators(), creator_id),
            ),
            !old(self).initiators().contains_key(creator_id) ==> final(self).handles()
                == old(self).handles().insert(thread_id, thread).insert(creator_id, creator),
            old(self).initiators().contains_key(creator_id) ==> exists|h: H|
                cloned(old(self).handles()[old(self).initiators()[creator_id]], h)
                    && final(self).handles() == old(self).handles().insert(thread_id, thread).insert(
                    old(self).initiators()[creator_id],
                    h,
                ),
            final(self).metadata() == old(self).metadata(),
            final(self).watched() == old(self).watched(),
    {
        match self.get_initiator(creator_id) {
            Some(initiator) => {
                let initiator_id: u64 = *self.threads_known.borrow().get(&creator_id).unwrap();
                let ghost h = initiator;
                self.add_thread(thread, thread_id, initiator, initiator_id);
                assert(cloned(old(self).handles()[old(self).initiators()[creator_id]], h));
            },
            None => {
                self.add_thread(thread, thread_id, creator, creator_id);
            },
        }
    }

    /// Hands the result of a thread to its watcher, if the thread is watched.
    pub fn on_response(&self, _label: &str, thread_id: u64, result: Option<R>) {
        match self.returns.borrow().get(&thread_id) {
            Some(tx) => {
                let _ = unbounded_send(tx, result);
            },
            None => {},
        }
    }
}

} // verus!
