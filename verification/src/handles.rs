//! The handles of threads spawned from Lua, and when the set of spawned
//! threads has settled.
use vstd::prelude::*;
use crate::status::ThreadStatus;

verus! {

/// The spawned threads have settled when none of them is running.
pub open spec fn settled(statuses: Seq<ThreadStatus>) -> bool {
    forall|i: int| 0 <= i < statuses.len() ==> !(statuses[i] is Running)
}

/// Whether none of the given threads is running.
pub fn all_settled(statuses: &Vec<ThreadStatus>) -> (b: bool)
    ensures
        b == settled(statuses@),
{
    for i in 0..statuses.len()
        invariant
            forall|j: int| 0 <= j < i ==> !(statuses@[j] is Running),
    {
        match statuses[i] {
            ThreadStatus::Running => {
                return false;
            },
            _ => {},
        }
    }
    true
}

/// The join handles of spawned threads, numbered from 1 in spawn order.
/// A thread that finished at once has no handle.
pub struct JoinHandles<J> {
    handles: Vec<Option<J>>,
}

impl<J> View for JoinHandles<J> {
    type V = Seq<Option<J>>;

    closed spec fn view(&self) -> Seq<Option<J>> {
        self.handles@
    }
}

impl<J> JoinHandles<J> {
    /// No spawned thread yet.
    pub fn new() -> (t: Self)
        ensures
            t@ == Seq::<Option<J>>::empty(),
    {
        JoinHandles { handles: Vec::new() }
    }

    /// The number of spawned threads.
    pub fn len(&self) -> (n: usize)
        ensures
            n == self@.len(),
    {
        self.handles.len()
    }

    /// Records a spawned thread; returns its number.
    pub fn push(&mut self, handle: Option<J>) -> (id: usize)
        requires
            old(self)@.len() < usize::MAX,
        ensures
            final(self)@ == old(self)@.push(handle),
            id == final(self)@.len(),
    {
        self.handles.push(handle);
        self.handles.len()
    }

    /// Takes the handle of thread number `id`, leaving none in its place.
    pub fn take(&mut self, id: usize) -> (h: Option<J>)
        requires
            1 <= id <= old(self)@.len(),
        ensures
            h == old(self)@[id - 1],
            final(self)@ == old(self)@.update(id - 1, None),
    {
        let mut h: Option<J> = None;
        self.handles.set_and_swap(id - 1, &mut h);
        h
    }
}

} // verus!
