//! A single-slot holder of the most recent reading: each store replaces the
//! held reading, each take hands it out and leaves the slot empty.
use vstd::prelude::*;

use crossbeam_utils::atomic::AtomicCell;

use crate::reading::MeterReading;

verus! {

#[verifier::external_type_specification]
#[verifier::external_body]
#[verifier::reject_recursive_types(T)]
pub struct ExAtomicCell<T>(AtomicCell<T>);

/// The reading that an atomic slot holds.
pub uninterp spec fn slot_contents(c: AtomicCell<Option<MeterReading>>) -> Option<MeterReading>;

/// Relies on `AtomicCell::new`: the new cell holds the given value.
#[verifier::external_body]
fn new_slot() -> (c: AtomicCell<Option<MeterReading>>)
    ensures
        slot_contents(c) is None,
{
    AtomicCell::new(None)
}

/// Relies on `AtomicCell::store`: the cell then holds `r`.
#[verifier::external_body]
fn slot_store(c: &mut AtomicCell<Option<MeterReading>>, r: MeterReading)
    ensures
        slot_contents(*final(c)) == Some(r),
{
    c.store(Some(r))
}

/// Relies on `AtomicCell::take`: it returns the held value and leaves
/// `Default::default()`, which is `None` for an `Option`.
#[verifier::external_body]
fn slot_take(c: &mut AtomicCell<Option<MeterReading>>) -> (r: Option<MeterReading>)
    ensures
        r == slot_contents(*old(c)),
        slot_contents(*final(c)) is None,
{
    c.take()
}

/// The held reading after a store: the stored one, whatever was held before.
pub open spec fn after_store(held: Option<MeterReading>, r: MeterReading) -> Option<MeterReading> {
    Some(r)
}

/// What a take returns, and the held reading after it.
pub open spec fn after_take(held: Option<MeterReading>) -> (Option<MeterReading>, Option<MeterReading>) {
    (held, None)
}

/// The slot that the ingestion side stores readings into and the query side
/// takes them from.
pub struct LatestReadingCell {
    slot: AtomicCell<Option<MeterReading>>,
}

impl View for LatestReadingCell {
    type V = Option<MeterReading>;

    closed spec fn view(&self) -> Option<MeterReading> {
        slot_contents(self.slot)
    }
}

impl LatestReadingCell {
    /// An empty cell.
    pub fn new() -> (c: LatestReadingCell)
        ensures
            c@ is None,
    {
        LatestReadingCell { slot: new_slot() }
    }

    /// Replaces the held reading with `r`.
    pub fn store(&mut self, r: MeterReading)
        ensures
            final(self)@ == after_store(old(self)@, r),
    {
        slot_store(&mut self.slot, r);
    }

    /// Hands out the held reading, if any, and leaves the cell empty.
    pub fn take(&mut self) -> (r: Option<MeterReading>)
        ensures
            (r, final(self)@) == after_take(old(self)@),
    {
        slot_take(&mut self.slot)
    }
}

/// A take right after a store returns the stored reading; a second take
/// right after that returns nothing.
pub proof fn lemma_take_after_store(held: Option<MeterReading>, r: MeterReading)
    ensures
        after_take(after_store(held, r)).0 == Some(r),
        after_take(after_take(after_store(held, r)).1).0 is None,
{
}

} // verus!
