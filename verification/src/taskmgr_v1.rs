//! The timed queue of the polling scheduler: threads waiting for
//! `task.wait` or `task.delay`, kept in order of the instant at which they
//! are due.
//!
//! Instants are plain integers (a count of time units since a fixed start),
//! so that the order in which threads come due is decided here.
use vstd::prelude::*;
use core::cmp::Ordering;
use vstd::std_specs::cmp::{PartialEqSpecImpl, PartialOrdSpecImpl};

verus! {

/// What a waiting thread is resumed with.
pub enum WaitOp<A> {
    /// `task.wait` semantics: resumed with the time that elapsed.
    Wait,
    /// `task.delay` semantics: resumed with the given arguments.
    Delay { args: A },
}

/// A thread waiting in the timed queue.
pub struct WaitingThread<H, A> {
    /// The thread to resume.
    pub thread: H,
    /// What to resume it with.
    pub op: WaitOp<A>,
    /// When it started waiting.
    pub start: u64,
    /// When it is due.
    pub wake_at: u64,
}

/// Two waiting threads compare equal when they are due at the same instant.
impl<H, A> PartialEq for WaitingThread<H, A> {
    fn eq(&self, other: &Self) -> (r: bool) {
        self.wake_at == other.wake_at
    }
}

impl<H, A> PartialEqSpecImpl for WaitingThread<H, A> {
    open spec fn obeys_eq_spec() -> bool {
        true
    }

    open spec fn eq_spec(&self, other: &Self) -> bool {
        self.wake_at == other.wake_at
    }
}

/// Waiting threads are ordered in reverse of their due instants, so that the
/// one due first is the greatest.
impl<H, A> PartialOrd for WaitingThread<H, A> {
    fn partial_cmp(&self, other: &Self) -> (r: Option<Ordering>) {
        if other.wake_at < self.wake_at {
            Some(Ordering::Less)
        } else if other.wake_at == self.wake_at {
            Some(Ordering::Equal)
        } else {
            Some(Ordering::Greater)
        }
    }
}

impl<H, A> PartialOrdSpecImpl for WaitingThread<H, A> {
    open spec fn obeys_partial_cmp_spec() -> bool {
        true
    }

    open spec fn partial_cmp_spec(&self, other: &Self) -> Option<Ordering> {
        if other.wake_at < self.wake_at {
            Some(Ordering::Less)
        } else if other.wake_at == self.wake_at {
            Some(Ordering::Equal)
        } else {
            Some(Ordering::Greater)
        }
    }
}

/// The entries are in non-decreasing order of `wake_at`.
pub open spec fn sorted_by_wake<H, A>(s: Seq<WaitingThread<H, A>>) -> bool {
    forall|i: int, j: int| 0 <= i <= j < s.len() ==> s[i].wake_at <= s[j].wake_at
}

/// When the earliest entry of an ordered queue is not due, no entry is:
/// taking out due entries until none comes out leaves only entries due later.
pub proof fn law_nothing_due_after_none<H, A>(s: Seq<WaitingThread<H, A>>, now: u64)
    requires
        sorted_by_wake(s),
        s.len() == 0 || s[0].wake_at > now,
    ensures
        forall|i: int| 0 <= i < s.len() ==> s[i].wake_at > now,
{
}

/// Entries come out of an ordered queue in order of their due instants: what
/// comes out after the first entry is due no earlier, and the rest stays
/// ordered.
pub proof fn law_taken_in_due_order<H, A>(s: Seq<WaitingThread<H, A>>)
    requires
        sorted_by_wake(s),
        s.len() >= 2,
    ensures
        s[0].wake_at <= s.drop_first()[0].wake_at,
        sorted_by_wake(s.drop_first()),
{
}

/// The queue of waiting threads, earliest due first; threads due at the
/// same instant come out in the order in which they were pushed.
pub struct WaitQueue<H, A> {
    entries: Vec<WaitingThread<H, A>>,
}

impl<H, A> View for WaitQueue<H, A> {
    type V = Seq<WaitingThread<H, A>>;

    /// The entries, earliest due first.
    closed spec fn view(&self) -> Seq<WaitingThread<H, A>> {
        self.entries@
    }
}

impl<H, A> WaitQueue<H, A> {
    /// The queue keeps its entries in order of their due instants.
    pub open spec fn wf(&self) -> bool {
        sorted_by_wake(self@)
    }

    /// An empty queue.
    pub fn new() -> (q: Self)
        ensures
            q.wf(),
            q@ == Seq::<WaitingThread<H, A>>::empty(),
    {
        WaitQueue { entries: Vec::new() }
    }

    /// The number of waiting threads.
    pub fn len(&self) -> (n: usize)
        ensures
            n == self@.len(),
    {
        self.entries.len()
    }

    /// Whether no thread is waiting.
    pub fn is_empty(&self) -> (b: bool)
        ensures
            b == (self@.len() == 0),
    {
        self.entries.len() == 0
    }

    /// The instant at which the earliest entry is due, if any.
    pub fn next_wake(&self) -> (w: Option<u64>)
        ensures
            match w {
                Some(t) => self@.len() > 0 && t == self@[0].wake_at,
                None => self@.len() == 0,
            },
    {
        if self.entries.len() == 0 {
            None
        } else {
            Some(self.entries[0].wake_at)
        }
    }

    /// Adds a waiting thread after every entry due no later than it.
    pub fn push(&mut self, entry: WaitingThread<H, A>)
        requires
            old(self).wf(),
        ensures
            final(self).wf(),
            exists|i: int|
                0 <= i <= old(self)@.len() && final(self)@ == old(self)@.insert(i, entry) && (forall|
                    j: int,
                | 0 <= j < i ==> old(self)@[j].wake_at <= entry.wake_at) && (forall|j: int|
                    i <= j < old(self)@.len() ==> old(self)@[j].wake_at > entry.wake_at),
    {
        let mut i: usize = 0;
        while i < self.entries.len() && self.entries[i].wake_at <= entry.wake_at
            invariant
                0 <= i <= self.entries.len(),
                self@ == old(self)@,
                sorted_by_wake(self@),
                forall|j: int| 0 <= j < i ==> self@[j].wake_at <= entry.wake_at,
            decreases self.entries.len() - i,
        {
            i = i + 1;
        }
        let ghost at: int = i as int;
        let ghost w: u64 = entry.wake_at;
        self.entries.insert(i, entry);
        assert(self@ == old(self)@.insert(at, self@[at]));
        assert forall|j: int| at <= j < old(self)@.len() implies old(self)@[j].wake_at > w by {
            if at < old(self)@.len() {
                assert(old(self)@[at].wake_at > w);
            }
        }
        assert forall|a: int, b: int| 0 <= a <= b < self@.len() implies self@[a].wake_at
            <= self@[b].wake_at by {
            if a < at && b > at {
                assert(self@[a] == old(self)@[a]);
                assert(self@[b] == old(self)@[b - 1]);
            } else if a < at && b == at {
                assert(self@[a] == old(self)@[a]);
            } else if a == at && b > at {
                assert(self@[b] == old(self)@[b - 1]);
            } else if a > at {
                assert(self@[a] == old(self)@[a - 1]);
                assert(self@[b] == old(self)@[b - 1]);
            } else if b < at {
                assert(self@[a] == old(self)@[a]);
                assert(self@[b] == old(self)@[b]);
            }
        }
    }

    /// Takes out the earliest entry if it is due at `now`; leaves the queue
    /// as it is when it is empty or its earliest entry is due later.
    pub fn pop_ready(&mut self, now: u64) -> (r: Option<WaitingThread<H, A>>)
        requires
            old(self).wf(),
        ensures
            final(self).wf(),
            match r {
                Some(e) => old(self)@.len() > 0 && e == old(self)@[0] && e.wake_at <= now
                    && final(self)@ == old(self)@.drop_first(),
                None => final(self)@ == old(self)@ && (old(self)@.len() == 0 || old(self)@[0].wake_at
                    > now),
            },
    {
        if self.entries.len() > 0 && self.entries[0].wake_at <= now {
            let e = self.entries.remove(0);
            assert(self@ =~= old(self)@.drop_first());
            Some(e)
        } else {
            None
        }
    }
}

/// The deferred threads of the polling scheduler. Threads pushed at the back
/// come out first, newest first; a thread pushed at the front comes out after
/// every thread already queued.
pub struct DeferredQueue<T> {
    entries: Vec<T>,
}

impl<T> View for DeferredQueue<T> {
    type V = Seq<T>;

    /// The queued threads, front first; they come out from the back.
    closed spec fn view(&self) -> Seq<T> {
        self.entries@
    }
}

/// A thread pushed at the back is the next to come out, and the rest then
/// come out as before.
pub proof fn law_back_push_comes_out_first<T>(s: Seq<T>, x: T)
    ensures
        s.push(x).last() == x,
        s.push(x).drop_last() == s,
{
}

/// A thread pushed at the front comes out only after every thread that was
/// already queued: it is the last of the queue, seen from the back.
pub proof fn law_front_push_comes_out_last<T>(s: Seq<T>, x: T)
    ensures
        (seq![x] + s)[0] == x,
        (seq![x] + s).drop_first() == s,
{
    assert((seq![x] + s).drop_first() =~= s);
}

impl<T> DeferredQueue<T> {
    /// An empty queue.
    pub fn new() -> (q: Self)
        ensures
            q@ == Seq::<T>::empty(),
    {
        DeferredQueue { entries: Vec::new() }
    }

    /// The number of queued threads.
    pub fn len(&self) -> (n: usize)
        ensures
            n == self@.len(),
    {
        self.entries.len()
    }

    /// Queues a thread to come out before every thread already queued.
    pub fn push_back(&mut self, x: T)
        ensures
            final(self)@ == old(self)@.push(x),
    {
        self.entries.push(x);
    }

    /// Queues a thread to come out after every thread already queued.
    pub fn push_front(&mut self, x: T)
        ensures
            final(self)@ == seq![x] + old(self)@,
    {
        self.entries.insert(0, x);
        assert(self@ =~= seq![x] + old(self)@);
    }

    /// Takes out the next thread to resume: the one at the back.
    pub fn pop_back(&mut self) -> (r: Option<T>)
        ensures
            match r {
                Some(x) => old(self)@.len() > 0 && x == old(self)@.last() && final(self)@
                    == old(self)@.drop_last(),
                None => old(self)@.len() == 0 && final(self)@ == old(self)@,
            },
    {
        self.entries.pop()
    }
}

} // verus!
