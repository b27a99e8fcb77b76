//! A bank of counters keyed by the values of a category type.

use core::marker::PhantomData;
use enum_iterator::Sequence;
use vstd::prelude::*;
use vstd::std_specs::convert::IntoSpec;
use crate::status::Status;
use crate::timer::Timer;
use crate::timers::{all_zero, recorded_at, Timers};

verus! {

/// The number of values of `Type`: what `enum_iterator::cardinality`
/// returns for it. Nothing is claimed of the number.
#[verifier::external_body]
fn category_count<Type: Sequence>() -> (count: usize) {
    enum_iterator::cardinality::<Type>()
}

/// One counter for each value of the category type `Type`.
///
/// The category enumerates its values through `Sequence` and gives each
/// value its index through `Into<usize>`. The bank has as many counters as
/// the category has values; the counter of a value is the one at the value's
/// index. The two are written apart from each other by whoever defines the
/// category, so recording asks that the index be in range.
pub struct TypedTimers<Type> {
    timers: Timers,
    _type: PhantomData<Type>,
}

impl<Type> View for TypedTimers<Type> {
    type V = Seq<Status>;

    /// What each counter holds, in index order.
    closed spec fn view(&self) -> Seq<Status> {
        self.timers@
    }
}

/// Whether the index that `Into<usize>` gives `t` is specified and lies
/// within a bank of `len` counters.
pub open spec fn index_in_range<Type: Into<usize>>(t: Type, len: nat) -> bool {
    <Type as IntoSpec<usize>>::obeys_into_spec() && t.into_spec() < len
}

impl<Type: Sequence + Into<usize>> TypedTimers<Type> {
    /// A bank with one counter for each value of `Type`, each at zero.
    pub fn new() -> (bank: Self)
        ensures
            bank@ == all_zero(bank@.len()),
    {
        Self { timers: Timers::new(category_count::<Type>()), _type: PhantomData }
    }

    /// The counter of `t`, for recording against it or reading it. Whatever
    /// is done to it shows at `t`'s index of the bank and nowhere else.
    pub fn timer(&mut self, t: Type) -> (timer: &mut Timer)
        requires
            index_in_range(t, old(self)@.len()),
        ensures
            timer@ == old(self)@[t.into_spec() as int],
            final(self)@ == old(self)@.update(t.into_spec() as int, final(timer)@),
    {
        self.timers.timer(t.into())
    }

    /// Records one event of size `amount` against the counter of `t`. No
    /// other counter moves.
    pub fn add(&mut self, t: Type, amount: u64)
        requires
            index_in_range(t, old(self)@.len()),
        ensures
            final(self)@ == recorded_at(old(self)@, t.into_spec() as int, amount),
    {
        self.timers.add(t.into(), amount);
    }

    /// Records one event of size `amount` against the counter of `t` where
    /// `t`'s index is in range, and says whether it was. An index out of
    /// range leaves the bank as it was.
    #[must_use]
    pub fn try_add(&mut self, t: Type, amount: u64) -> (added: bool)
        ensures
            index_in_range(t, old(self)@.len()) ==> added && final(self)@ == recorded_at(
                old(self)@,
                t.into_spec() as int,
                amount,
            ),
            <Type as IntoSpec<usize>>::obeys_into_spec() && t.into_spec() >= old(self)@.len()
                ==> !added,
            added ==> exists|i: int|
                0 <= i < old(self)@.len() && final(self)@ == recorded_at(old(self)@, i, amount),
            !added ==> final(self)@ == old(self)@,
    {
        let index: usize = t.into();
        if index < self.timers.len() {
            self.timers.add(index, amount);
            assert(self@ == recorded_at(old(self)@, index as int, amount));
            true
        } else {
            false
        }
    }

    /// The snapshot of every counter, in the order of the category's
    /// indices. The bank is left as it was.
    pub fn status(&self) -> (status: Vec<Status>)
        ensures
            status@ == self@,
    {
        self.timers.status()
    }
}

} // verus!
