//! A cell with exclusive access to its contents, and the marker traits that
//! the scheduler uses in place of `Send` and `Sync`.
use vstd::prelude::*;

verus! {

/// A cell holding one value of `T`.
///
/// Shared reads go through [`XRefCell::borrow`], exclusive writes through
/// [`XRefCell::borrow_mut`]. The exclusivity that a run-time borrow flag would
/// check is enforced here by Rust's borrowing rules, so no access can fail.
pub struct XRefCell<T> {
    value: T,
}

impl<T> View for XRefCell<T> {
    type V = T;

    /// The value currently held by the cell.
    closed spec fn view(&self) -> T {
        self.value
    }
}

impl<T> XRefCell<T> {
    /// Creates a cell holding `x`.
    pub fn new(x: T) -> (cell: Self)
        ensures
            cell@ == x,
    {
        XRefCell { value: x }
    }

    /// Gives shared access to the value held by the cell.
    pub fn borrow(&self) -> (r: &T)
        ensures
            *r == self@,
    {
        &self.value
    }

    /// Gives exclusive access to the value held by the cell; what is written
    /// through the returned reference is what the cell holds afterwards.
    pub fn borrow_mut(&mut self) -> (r: &mut T)
        ensures
            *r == old(self)@,
            final(self)@ == *final(r),
    {
        &mut self.value
    }
}

/// Marker for values that may be moved to another thread when the scheduler
/// is built for it; in this build every type qualifies.
pub trait MaybeSend {}

impl<T> MaybeSend for T {}

/// Marker for values that may be shared between threads when the scheduler
/// is built for it; in this build every type qualifies.
pub trait MaybeSync {}

impl<T> MaybeSync for T {}

} // verus!
