//! The bookkeeping of the event-queue scheduler: which delay-queue entries
//! belong to which thread, which threads have a deferred resumption pending,
//! and which threads were cancelled.
//!
//! The scheduler's loop receives events (a thread waits, a thread is
//! deferred, a cancellation arrives, a wait expires, a deferred thread comes
//! up); for each event it asks this book what to do and the book updates
//! itself. Threads are identified by an integer identity.
use vstd::prelude::*;
use std::collections::{HashMap, HashSet};
use tokio_util::time::delay_queue::Key;

verus! {

broadcast use vstd::std_specs::hash::group_hash_axioms;

#[verifier::external_type_specification]
#[verifier::external_body]
pub struct ExDelayQueueKey(Key);

/// Calls `<Key as PartialEq>::eq`. `Key` derives `PartialEq` over its single
/// index field, so two keys compare equal exactly when they are the same
/// value.
#[verifier::external_body]
fn same_key(a: &Key, b: &Key) -> (r: bool)
    ensures
        r == (*a == *b),
{
    a == b
}

/// The abstract state of the book.
#[verifier::ext_equal]
pub struct BookView {
    /// Thread -> the delay-queue entries registered for it.
    pub wait_keys: Map<u64, Seq<Key>>,
    /// Threads with a deferred resumption pending.
    pub known_deferred: Set<u64>,
    /// Threads cancelled whose next resumption is to be dropped.
    pub cancelled: Set<u64>,
}

/// `s` without the occurrences of `k`.
pub open spec fn without(s: Seq<Key>, k: Key) -> Seq<Key>
    decreases s.len(),
{
    if s.len() == 0 {
        s
    } else if s.last() == k {
        without(s.drop_last(), k)
    } else {
        without(s.drop_last(), k).push(s.last())
    }
}

/// The entries registered for `x` (none when it has none).
pub open spec fn keys_of(v: BookView, x: u64) -> Seq<Key> {
    if v.wait_keys.contains_key(x) {
        v.wait_keys[x]
    } else {
        Seq::empty()
    }
}

/// A waiting thread `x` got the delay-queue entry `k`.
pub open spec fn wait_added(v: BookView, x: u64, k: Key) -> BookView {
    BookView { wait_keys: v.wait_keys.insert(x, keys_of(v, x).push(k)), ..v }
}

/// A deferred resumption of `x` was queued.
pub open spec fn deferred_added(v: BookView, x: u64) -> BookView {
    BookView { known_deferred: v.known_deferred.insert(x), ..v }
}

/// The queues were cleared: entries and cancellations are forgotten.
pub open spec fn cleared(v: BookView) -> BookView {
    BookView { wait_keys: Map::empty(), cancelled: Set::empty(), ..v }
}

/// `x` was cancelled by a caller.
pub open spec fn cancel_requested(v: BookView, x: u64) -> BookView {
    BookView { cancelled: v.cancelled.insert(x), ..v }
}

/// The loop received the cancellation of `x`: its entries are dropped (and
/// returned, to be removed from the delay queue) and its deferred
/// resumption is forgotten.
pub open spec fn cancel_received(v: BookView, x: u64) -> BookView {
    BookView { wait_keys: v.wait_keys.remove(x), known_deferred: v.known_deferred.remove(x), ..v }
}

/// Entry `k` of thread `x` expired: it is no longer queued, so it leaves the
/// thread's entries in every case. If `x` was cancelled, the cancellation is
/// used up and nothing is resumed; otherwise `x` is resumed.
pub open spec fn wait_fired(v: BookView, x: u64, k: Key) -> (BookView, bool) {
    let w = if v.wait_keys.contains_key(x) {
        v.wait_keys.insert(x, without(v.wait_keys[x], k))
    } else {
        v.wait_keys
    };
    if v.cancelled.contains(x) {
        (BookView { wait_keys: w, cancelled: v.cancelled.remove(x), ..v }, false)
    } else {
        (BookView { wait_keys: w, ..v }, true)
    }
}

/// A deferred resumption of `x` came up: if `x` was cancelled, the
/// cancellation is used up and nothing is resumed; otherwise `x` is resumed
/// only if its deferred resumption is still pending, which it then no longer
/// is.
pub open spec fn deferred_ready(v: BookView, x: u64) -> (BookView, bool) {
    if v.cancelled.contains(x) {
        (BookView { cancelled: v.cancelled.remove(x), ..v }, false)
    } else if v.known_deferred.contains(x) {
        (BookView { known_deferred: v.known_deferred.remove(x), ..v }, true)
    } else {
        (v, false)
    }
}

/// No occurrence of `k` is left in `without(s, k)`, and every other element
/// of `s` is kept.
proof fn lemma_without(s: Seq<Key>, k: Key)
    ensures
        !without(s, k).contains(k),
        forall|j: Key| j != k ==> (s.contains(j) <==> without(s, k).contains(j)),
    decreases s.len(),
{
    if s.len() > 0 {
        let t = s.drop_last();
        let w = without(t, k);
        lemma_without(t, k);
        assert(s =~= t.push(s.last()));
        lemma_push_contains(t, s.last());
        lemma_push_contains(w, s.last());
    }
}

/// What a sequence with one more element contains.
proof fn lemma_push_contains(t: Seq<Key>, a: Key)
    ensures
        forall|j: Key| #[trigger] t.push(a).contains(j) <==> (t.contains(j) || j == a),
{
    assert forall|j: Key| #[trigger] t.push(a).contains(j) <==> (t.contains(j) || j == a) by {
        if t.push(a).contains(j) {
            let i: int = choose|i: int| 0 <= i < t.push(a).len() && t.push(a)[i] == j;
            if i < t.len() {
                assert(t[i] == j);
            }
        }
        if t.contains(j) {
            let i: int = choose|i: int| 0 <= i < t.len() && t[i] == j;
            assert(t.push(a)[i] == j);
        }
        if j == a {
            assert(t.push(a)[t.len() as int] == j);
        }
    }
}

/// A cancellation drops the thread's next resumption, whether it comes from
/// an expired wait or from a deferred resumption, and is then used up: if the
/// thread had no cancellation pending before, the resumption after that goes
/// ahead.
pub proof fn law_cancel_drops_one_resumption(v: BookView, x: u64, k1: Key, k2: Key)
    ensures
        !wait_fired(cancel_requested(v, x), x, k1).1,
        !deferred_ready(cancel_requested(v, x), x).1,
        !v.cancelled.contains(x) ==> wait_fired(wait_fired(cancel_requested(v, x), x, k1).0, x, k2).1,
        !v.cancelled.contains(x) && v.known_deferred.contains(x) ==> deferred_ready(
            deferred_ready(cancel_requested(v, x), x).0,
            x,
        ).1,
{
    assert(wait_fired(cancel_requested(v, x), x, k1).0.cancelled =~= v.cancelled.remove(x));
    assert(deferred_ready(cancel_requested(v, x), x).0.cancelled =~= v.cancelled.remove(x));
}

/// Once the loop has received the cancellation of a thread, no delay-queue
/// entry of it is left in the book and its deferred resumption no longer
/// goes ahead.
pub proof fn law_cancel_forgets_thread(v: BookView, x: u64)
    ensures
        keys_of(cancel_received(v, x), x) == Seq::<Key>::empty(),
        !deferred_ready(cancel_received(v, x), x).1,
{
}

/// A queued deferred resumption resumes its thread at most once.
pub proof fn law_deferred_resumes_once(v: BookView, x: u64)
    ensures
        deferred_ready(v, x).1 ==> !deferred_ready(deferred_ready(v, x).0, x).1,
{
}

/// When an entry expires, it leaves the thread's registered entries and the
/// others stay, whether or not the thread goes ahead; it goes ahead exactly
/// when no cancellation of it is pending.
pub proof fn law_fired_entry_leaves(v: BookView, x: u64, k: Key)
    ensures
        wait_fired(v, x, k).1 == !v.cancelled.contains(x),
        !keys_of(wait_fired(v, x, k).0, x).contains(k),
        forall|j: Key|
            j != k ==> (keys_of(v, x).contains(j) <==> keys_of(wait_fired(v, x, k).0, x).contains(j)),
{
    lemma_without(keys_of(v, x), k);
}

/// An event that the scheduler's loop hands to the book.
pub enum BookEvent {
    /// Thread `0` waits on the delay-queue entry `1`.
    Wait(u64, Key),
    /// A deferred resumption of the thread was queued.
    Deferred(u64),
    /// The queues were cleared.
    Clear,
    /// A caller cancelled the thread.
    CancelRequested(u64),
    /// The loop received the cancellation of the thread.
    CancelReceived(u64),
    /// Entry `1` of thread `0` expired.
    Fired(u64, Key),
    /// A deferred resumption of the thread came up.
    DeferredReady(u64),
}

/// The book after one event.
pub open spec fn book_step(v: BookView, e: BookEvent) -> BookView {
    match e {
        BookEvent::Wait(x, k) => wait_added(v, x, k),
        BookEvent::Deferred(x) => deferred_added(v, x),
        BookEvent::Clear => cleared(v),
        BookEvent::CancelRequested(x) => cancel_requested(v, x),
        BookEvent::CancelReceived(x) => cancel_received(v, x),
        BookEvent::Fired(x, k) => wait_fired(v, x, k).0,
        BookEvent::DeferredReady(x) => deferred_ready(v, x).0,
    }
}

/// The book after a sequence of events, starting from `v`.
pub open spec fn book_replay(v: BookView, es: Seq<BookEvent>) -> BookView
    decreases es.len(),
{
    if es.len() == 0 {
        v
    } else {
        book_step(book_replay(v, es.drop_last()), es.last())
    }
}

/// The empty book.
pub open spec fn empty_book() -> BookView {
    BookView { wait_keys: Map::empty(), known_deferred: Set::empty(), cancelled: Set::empty() }
}

/// Entry `k` of thread `x` is still queued after `es`: it was registered for
/// `x` by some event, and no later event fired it, cleared the queues, or
/// removed the entries of `x` on a received cancellation.
pub open spec fn still_queued(es: Seq<BookEvent>, x: u64, k: Key) -> bool {
    exists|i: int|
        #![trigger es[i]]
        0 <= i < es.len() && es[i] == BookEvent::Wait(x, k) && forall|j: int|
            #![trigger es[j]]
            i < j < es.len() ==> es[j] != BookEvent::Fired(x, k) && es[j] != BookEvent::Clear
                && es[j] != BookEvent::CancelReceived(x)
}

/// Every entry that the book holds for a thread, and so every entry that
/// `on_cancel` hands back for removal, was registered for that thread and has
/// neither expired nor been removed since: the book never hands back an
/// entry that is no longer queued.
pub proof fn law_book_keys_are_queued(es: Seq<BookEvent>, x: u64, k: Key)
    requires
        keys_of(book_replay(empty_book(), es), x).contains(k),
    ensures
        still_queued(es, x, k),
    decreases es.len(),
{
    if es.len() == 0 {
        assert(keys_of(empty_book(), x) =~= Seq::<Key>::empty());
    } else {
        let t = es.drop_last();
        let v = book_replay(empty_book(), t);
        let e = es.last();
        assert(book_replay(empty_book(), es) == book_step(v, e));
        let old_keys = keys_of(v, x);
        let extends = |i: int|
            0 <= i < t.len() && t[i] == BookEvent::Wait(x, k) && forall|j: int|
                #![trigger t[j]]
                i < j < t.len() ==> t[j] != BookEvent::Fired(x, k) && t[j] != BookEvent::Clear
                    && t[j] != BookEvent::CancelReceived(x);
        match e {
            BookEvent::Wait(y, k2) => {
                if y == x && k2 == k {
                    let i = es.len() - 1;
                    assert(es[i] == BookEvent::Wait(x, k));
                } else {
                    if y == x {
                        lemma_push_contains(old_keys, k2);
                        assert(keys_of(book_step(v, e), x) == old_keys.push(k2));
                    } else {
                        assert(keys_of(book_step(v, e), x) == old_keys);
                    }
                    law_book_keys_are_queued(t, x, k);
                    let i = choose|i: int| #![trigger t[i]] extends(i);
                    assert(es[i] == t[i]);
                    assert forall|j: int| #![trigger es[j]] i < j < es.len() implies es[j]
                        != BookEvent::Fired(x, k) && es[j] != BookEvent::Clear && es[j]
                        != BookEvent::CancelReceived(x) by {
                        if j < t.len() {
                            assert(es[j] == t[j]);
                        }
                    }
                }
            },
            BookEvent::Fired(y, k2) => {
                if y == x {
                    lemma_without(old_keys, k2);
                    if v.wait_keys.contains_key(x) {
                        assert(keys_of(book_step(v, e), x) == without(old_keys, k2));
                    } else {
                        assert(keys_of(book_step(v, e), x) == old_keys);
                        assert(old_keys =~= Seq::<Key>::empty());
                    }
                    assert(k2 != k);
                } else {
                    assert(keys_of(book_step(v, e), x) == old_keys);
                }
                law_book_keys_are_queued(t, x, k);
                let i = choose|i: int| #![trigger t[i]] extends(i);
                assert(es[i] == t[i]);
                assert forall|j: int| #![trigger es[j]] i < j < es.len() implies es[j]
                    != BookEvent::Fired(x, k) && es[j] != BookEvent::Clear && es[j]
                    != BookEvent::CancelReceived(x) by {
                    if j < t.len() {
                        assert(es[j] == t[j]);
                    }
                }
            },
            BookEvent::Clear => {
                assert(keys_of(book_step(v, e), x) =~= Seq::<Key>::empty());
            },
            BookEvent::CancelReceived(y) => {
                if y == x {
                    assert(keys_of(book_step(v, e), x) =~= Seq::<Key>::empty());
                } else {
                    assert(keys_of(book_step(v, e), x) == old_keys);
                    law_book_keys_are_queued(t, x, k);
                    let i = choose|i: int| #![trigger t[i]] extends(i);
                    assert(es[i] == t[i]);
                    assert forall|j: int| #![trigger es[j]] i < j < es.len() implies es[j]
                        != BookEvent::Fired(x, k) && es[j] != BookEvent::Clear && es[j]
                        != BookEvent::CancelReceived(x) by {
                        if j < t.len() {
                            assert(es[j] == t[j]);
                        }
                    }
                }
            },
            _ => {
                assert(keys_of(book_step(v, e), x) == old_keys);
                law_book_keys_are_queued(t, x, k);
                let i = choose|i: int| #![trigger t[i]] extends(i);
                assert(es[i] == t[i]);
                assert forall|j: int| #![trigger es[j]] i < j < es.len() implies es[j]
                    != BookEvent::Fired(x, k) && es[j] != BookEvent::Clear && es[j]
                    != BookEvent::CancelReceived(x) by {
                    if j < t.len() {
                        assert(es[j] == t[j]);
                    }
                }
            },
        }
    }
}

/// Registering a wait keeps every entry the thread already had and adds the
/// new one at the end; the entries of every other thread, the pending
/// deferred resumptions and the cancellations stay as they were.
pub proof fn law_wait_keeps_earlier_entries(v: BookView, x: u64, k: Key)
    ensures
        keys_of(wait_added(v, x, k), x).len() == keys_of(v, x).len() + 1,
        forall|i: int|
            0 <= i < keys_of(v, x).len() ==> #[trigger] keys_of(wait_added(v, x, k), x)[i]
                == keys_of(v, x)[i],
        keys_of(wait_added(v, x, k), x).last() == k,
        forall|y: u64| y != x ==> #[trigger] keys_of(wait_added(v, x, k), y) == keys_of(v, y),
        wait_added(v, x, k).known_deferred == v.known_deferred,
        wait_added(v, x, k).cancelled == v.cancelled,
{
}

/// Queuing a deferred resumption of `x` makes it pending and changes
/// nothing else.
pub proof fn law_deferred_touches_only_its_thread(v: BookView, x: u64)
    ensures
        deferred_added(v, x).known_deferred.contains(x),
        forall|y: u64| y != x ==> (#[trigger] deferred_added(v, x).known_deferred.contains(y)
            == v.known_deferred.contains(y)),
        forall|y: u64| #[trigger] keys_of(deferred_added(v, x), y) == keys_of(v, y),
        deferred_added(v, x).cancelled == v.cancelled,
{
}

/// Clearing the queues forgets every entry and every cancellation, and
/// leaves the pending deferred resumptions as they were.
pub proof fn law_clear_forgets_entries_and_cancellations(v: BookView)
    ensures
        forall|y: u64| #[trigger] keys_of(cleared(v), y).len() == 0,
        cleared(v).cancelled.is_empty(),
        cleared(v).known_deferred == v.known_deferred,
{
}

/// Requesting the cancellation of `x` marks it cancelled and changes nothing
/// else.
pub proof fn law_cancel_request_touches_only_its_thread(v: BookView, x: u64)
    ensures
        cancel_requested(v, x).cancelled.contains(x),
        forall|y: u64| y != x ==> (#[trigger] cancel_requested(v, x).cancelled.contains(y)
            == v.cancelled.contains(y)),
        forall|y: u64| #[trigger] keys_of(cancel_requested(v, x), y) == keys_of(v, y),
        cancel_requested(v, x).known_deferred == v.known_deferred,
{
}

/// Receiving the cancellation of `x` forgets the entries and the pending
/// deferred resumption of `x` only: every other thread keeps its entries
/// and its pending deferred resumption, and the cancellation marks stay.
pub proof fn law_cancel_received_touches_only_its_thread(v: BookView, x: u64)
    ensures
        keys_of(cancel_received(v, x), x).len() == 0,
        !cancel_received(v, x).known_deferred.contains(x),
        forall|y: u64| y != x ==> #[trigger] keys_of(cancel_received(v, x), y) == keys_of(v, y),
        forall|y: u64| y != x ==> (#[trigger] cancel_received(v, x).known_deferred.contains(y)
            == v.known_deferred.contains(y)),
        cancel_received(v, x).cancelled == v.cancelled,
{
}

/// An expired wait of `x` goes ahead exactly when no cancellation of `x` is
/// pending; afterwards no cancellation of `x` is pending. It changes the
/// entries of `x` only, the cancellation marks of other threads not at all,
/// and the pending deferred resumptions of no thread.
pub proof fn law_wait_fired_touches_only_its_thread(v: BookView, x: u64, k: Key)
    ensures
        wait_fired(v, x, k).1 == !v.cancelled.contains(x),
        !wait_fired(v, x, k).0.cancelled.contains(x),
        wait_fired(v, x, k).0.known_deferred == v.known_deferred,
        forall|y: u64| y != x ==> #[trigger] keys_of(wait_fired(v, x, k).0, y) == keys_of(v, y),
        forall|y: u64| y != x ==> (#[trigger] wait_fired(v, x, k).0.cancelled.contains(y)
            == v.cancelled.contains(y)),
{
}

/// A deferred resumption of `x` goes ahead exactly when `x` is not cancelled
/// and has a deferred resumption pending; afterwards `x` has neither. Other
/// threads keep their pending deferred resumptions and cancellation marks,
/// and every thread keeps its entries.
pub proof fn law_deferred_ready_touches_only_its_thread(v: BookView, x: u64)
    ensures
        deferred_ready(v, x).1 == (!v.cancelled.contains(x) && v.known_deferred.contains(x)),
        !deferred_ready(v, x).0.cancelled.contains(x),
        deferred_ready(v, x).0.known_deferred.contains(x) == (v.known_deferred.contains(x)
            && v.cancelled.contains(x)),
        forall|y: u64| y != x ==> (#[trigger] deferred_ready(v, x).0.known_deferred.contains(y)
            == v.known_deferred.contains(y)),
        forall|y: u64| y != x ==> (#[trigger] deferred_ready(v, x).0.cancelled.contains(y)
            == v.cancelled.contains(y)),
        forall|y: u64| #[trigger] keys_of(deferred_ready(v, x).0, y) == keys_of(v, y),
{
}

/// Every entry registered for a thread that has not expired, been cleared,
/// or been removed by a received cancellation of that thread since, is held
/// by the book; so `on_cancel` hands back every entry of the thread that is
/// still queued.
pub proof fn law_queued_keys_are_in_book(es: Seq<BookEvent>, x: u64, k: Key)
    requires
        still_queued(es, x, k),
    ensures
        keys_of(book_replay(empty_book(), es), x).contains(k),
    decreases es.len(),
{
    let n = es.len() - 1;
    let t = es.drop_last();
    let v = book_replay(empty_book(), t);
    let e = es.last();
    assert(book_replay(empty_book(), es) == book_step(v, e));
    let i = choose|i: int|
        #![trigger es[i]]
        0 <= i < es.len() && es[i] == BookEvent::Wait(x, k) && forall|j: int|
            #![trigger es[j]]
            i < j < es.len() ==> es[j] != BookEvent::Fired(x, k) && es[j] != BookEvent::Clear
                && es[j] != BookEvent::CancelReceived(x);
    if i == n {
        assert(e == BookEvent::Wait(x, k));
        lemma_push_contains(keys_of(v, x), k);
        assert(keys_of(book_step(v, e), x) == keys_of(v, x).push(k));
    } else {
        assert(t[i] == es[i]);
        assert forall|j: int| #![trigger t[j]] i < j < t.len() implies t[j] != BookEvent::Fired(x, k)
            && t[j] != BookEvent::Clear && t[j] != BookEvent::CancelReceived(x) by {
            assert(t[j] == es[j]);
        }
        assert(still_queued(t, x, k));
        law_queued_keys_are_in_book(t, x, k);
        let before = keys_of(v, x);
        assert(es[n] == e);
        match e {
            BookEvent::Wait(y, k2) => {
                if y == x {
                    lemma_push_contains(before, k2);
                    assert(keys_of(book_step(v, e), x) == before.push(k2));
                }
            },
            BookEvent::Fired(y, k2) => {
                if y == x {
                    assert(k2 != k);
                    lemma_without(before, k2);
                }
            },
            _ => {},
        }
    }
}

/// The bookkeeping kept by the event-queue scheduler's loop.
pub struct RunBook {
    wait_keys: HashMap<u64, Vec<Key>>,
    known_deferred_threads: HashSet<u64>,
    cancel: HashSet<u64>,
}

impl View for RunBook {
    type V = BookView;

    closed spec fn view(&self) -> BookView {
        BookView {
            wait_keys: self.wait_keys@.map_values(|ks: Vec<Key>| ks@),
            known_deferred: self.known_deferred_threads@,
            cancelled: self.cancel@,
        }
    }
}

impl RunBook {
    /// An empty book.
    pub fn new() -> (b: Self)
        ensures
            b@ == (BookView {
                wait_keys: Map::empty(),
                known_deferred: Set::empty(),
                cancelled: Set::empty(),
            }),
    {
        let b = RunBook {
            wait_keys: HashMap::new(),
            known_deferred_threads: HashSet::new(),
            cancel: HashSet::new(),
        };
        assert(b@.wait_keys =~= Map::empty());
        b
    }

    /// Records that the waiting thread `xid` got the delay-queue entry `key`.
    pub fn on_wait(&mut self, xid: u64, key: Key)
        ensures
            final(self)@ == wait_added(old(self)@, xid, key),
    {
        let mut keys = match self.wait_keys.remove(&xid) {
            Some(ks) => ks,
            None => Vec::new(),
        };
        keys.push(key);
        self.wait_keys.insert(xid, keys);
        assert(self@.wait_keys =~= wait_added(old(self)@, xid, key).wait_keys);
    }

    /// Records that a deferred resumption of `xid` was queued.
    pub fn on_deferred(&mut self, xid: u64)
        ensures
            final(self)@ == deferred_added(old(self)@, xid),
    {
        self.known_deferred_threads.insert(xid);
    }

    /// Forgets every delay-queue entry and every cancellation, as when the
    /// queues are cleared.
    pub fn on_clear(&mut self)
        ensures
            final(self)@ == cleared(old(self)@),
    {
        self.wait_keys.clear();
        self.cancel.clear();
        assert(self@.wait_keys =~= Map::empty());
    }

    /// Marks `xid` as cancelled.
    pub fn request_cancel(&mut self, xid: u64)
        ensures
            final(self)@ == cancel_requested(old(self)@, xid),
    {
        self.cancel.insert(xid);
    }

    /// Handles the arrival of the cancellation of `xid`; returns the
    /// delay-queue entries to remove.
    pub fn on_cancel(&mut self, xid: u64) -> (keys: Vec<Key>)
        ensures
            final(self)@ == cancel_received(old(self)@, xid),
            keys@ == keys_of(old(self)@, xid),
    {
        let keys = match self.wait_keys.remove(&xid) {
            Some(ks) => ks,
            None => Vec::new(),
        };
        self.known_deferred_threads.remove(&xid);
        assert(self@.wait_keys =~= cancel_received(old(self)@, xid).wait_keys);
        keys
    }

    /// Handles the expiry of entry `key` of thread `xid`: the entry leaves the
    /// thread's entries; returns whether the thread is to be resumed.
    pub fn on_wait_fired(&mut self, xid: u64, key: Key) -> (resume: bool)
        ensures
            (final(self)@, resume) == wait_fired(old(self)@, xid, key),
    {
        match self.wait_keys.remove(&xid) {
            Some(old_keys) => {
                let mut new_keys: Vec<Key> = Vec::new();
                for i in 0..old_keys.len()
                    invariant
                        new_keys@ == without(old_keys@.take(i as int), key),
                {
                    assert(old_keys@.take(i + 1).drop_last() =~= old_keys@.take(i as int));
                    if !same_key(&old_keys[i], &key) {
                        new_keys.push(old_keys[i]);
                    }
                }
                assert(old_keys@.take(old_keys.len() as int) =~= old_keys@);
                self.wait_keys.insert(xid, new_keys);
                assert(self@.wait_keys =~= wait_fired(old(self)@, xid, key).0.wait_keys);
            },
            None => {
                assert(self@.wait_keys =~= wait_fired(old(self)@, xid, key).0.wait_keys);
            },
        }
        if self.cancel.remove(&xid) {
            assert(self@ =~= wait_fired(old(self)@, xid, key).0);
            false
        } else {
            assert(self@ =~= wait_fired(old(self)@, xid, key).0);
            true
        }
    }

    /// Handles a deferred resumption of `xid` coming up; returns whether the
    /// thread is to be resumed.
    pub fn on_deferred_ready(&mut self, xid: u64) -> (resume: bool)
        ensures
            (final(self)@, resume) == deferred_ready(old(self)@, xid),
    {
        if self.cancel.remove(&xid) {
            assert(self@ =~= deferred_ready(old(self)@, xid).0);
            return false;
        }
        if self.known_deferred_threads.contains(&xid) {
            self.known_deferred_threads.remove(&xid);
            assert(self@ =~= deferred_ready(old(self)@, xid).0);
            true
        } else {
            assert(self@ =~= deferred_ready(old(self)@, xid).0);
            false
        }
    }
}

/// How a request to start the scheduler's loop ended.
#[derive(Clone, Copy, Debug, PartialEq, Eq, Structural)]
pub enum StartOutcome {
    /// The loop is already running; the caller is told it is up.
    AlreadyRunning,
    /// The scheduler was stopped or the Lua state is gone; nothing starts.
    Refused,
    /// The loop starts now.
    Started,
}

/// The running, cancelled and done flags of a scheduler's loop. "Done" is
/// what waiters are told: no work is pending, or the loop has exited.
pub struct RunFlags {
    is_running: bool,
    is_cancelled: bool,
    is_done: bool,
}

impl RunFlags {
    /// Whether the loop is running.
    pub closed spec fn running(&self) -> bool {
        self.is_running
    }

    /// Whether the scheduler was stopped.
    pub closed spec fn cancelled(&self) -> bool {
        self.is_cancelled
    }

    /// Whether waiters are told that the scheduler is done.
    pub closed spec fn done(&self) -> bool {
        self.is_done
    }

    /// Neither running nor stopped, and done (nothing is pending yet).
    pub fn new() -> (f: Self)
        ensures
            !f.running(),
            !f.cancelled(),
            f.done(),
    {
        RunFlags { is_running: false, is_cancelled: false, is_done: true }
    }

    /// Whether the loop is running.
    pub fn is_running(&self) -> (b: bool)
        ensures
            b == self.running(),
    {
        self.is_running
    }

    /// Whether the scheduler was stopped.
    pub fn is_cancelled(&self) -> (b: bool)
        ensures
            b == self.cancelled(),
    {
        self.is_cancelled
    }

    /// Whether waiters are told that the scheduler is done.
    pub fn is_done(&self) -> (b: bool)
        ensures
            b == self.done(),
    {
        self.is_done
    }

    /// Sets the running flag.
    pub fn set_running(&mut self, running: bool)
        ensures
            final(self).running() == running,
            final(self).cancelled() == old(self).cancelled(),
            final(self).done() == old(self).done(),
    {
        self.is_running = running;
    }

    /// Sets the cancelled flag.
    pub fn set_cancelled(&mut self, cancelled: bool)
        ensures
            final(self).cancelled() == cancelled,
            final(self).running() == old(self).running(),
            final(self).done() == old(self).done(),
    {
        self.is_cancelled = cancelled;
    }

    /// Stops the scheduler: its loop ends at its next iteration.
    pub fn stop(&mut self)
        ensures
            final(self).cancelled(),
            final(self).running() == old(self).running(),
            final(self).done() == old(self).done(),
    {
        self.is_cancelled = true;
    }

    /// Lifts a stop.
    pub fn unstop(&mut self)
        ensures
            !final(self).cancelled(),
            final(self).running() == old(self).running(),
            final(self).done() == old(self).done(),
    {
        self.set_cancelled(false);
    }

    /// Work was handed to the scheduler: waiters are no longer told it is
    /// done.
    pub fn note_pending(&mut self)
        ensures
            !final(self).done(),
            final(self).running() == old(self).running(),
            final(self).cancelled() == old(self).cancelled(),
    {
        self.is_done = false;
    }

    /// After an iteration of the loop: done exactly when every queue is idle.
    pub fn settle(&mut self, idle: bool)
        ensures
            final(self).done() == idle,
            final(self).running() == old(self).running(),
            final(self).cancelled() == old(self).cancelled(),
    {
        self.is_done = idle;
    }

    /// Asks to start the loop: a running loop is not started twice, and a
    /// stopped scheduler or a dropped Lua state starts nothing.
    pub fn start(&mut self, lua_alive: bool) -> (o: StartOutcome)
        ensures
            o == (if old(self).running() {
                StartOutcome::AlreadyRunning
            } else if old(self).cancelled() || !lua_alive {
                StartOutcome::Refused
            } else {
                StartOutcome::Started
            }),
            final(self).running() == (old(self).running() || o == StartOutcome::Started),
            final(self).cancelled() == old(self).cancelled(),
            final(self).done() == old(self).done(),
    {
        if self.is_running {
            StartOutcome::AlreadyRunning
        } else if self.is_cancelled || !lua_alive {
            StartOutcome::Refused
        } else {
            self.is_running = true;
            StartOutcome::Started
        }
    }

    /// Checked at the top of each loop iteration: the loop goes on unless the
    /// scheduler was stopped or the Lua state is gone, in which case the loop
    /// exits, no longer running and done.
    pub fn keep_going(&mut self, lua_alive: bool) -> (go: bool)
        ensures
            go == (!old(self).cancelled() && lua_alive),
            go ==> *final(self) == *old(self),
            !go ==> !final(self).running() && final(self).done(),
            final(self).cancelled() == old(self).cancelled(),
    {
        if self.is_cancelled || !lua_alive {
            self.finish();
            false
        } else {
            true
        }
    }

    /// Every other exit of the loop (a close request, or the Lua state found
    /// gone while handling an event): no longer running, and done.
    pub fn finish(&mut self)
        ensures
            !final(self).running(),
            final(self).done(),
            final(self).cancelled() == old(self).cancelled(),
    {
        self.is_running = false;
        self.is_done = true;
    }
}

} // verus!
