//! The snapshot of one counter, and the arithmetic of recording an event.

use vstd::prelude::*;

verus! {

/// What one counter holds at one instant: how many events were recorded and
/// the sum of their amounts. Both cells are 64 bits wide and wrap around on
/// overflow.
#[derive(Clone, Copy, Debug, PartialEq, Eq, Structural)]
pub struct Status {
    pub count: u64,
    pub total: u64,
}

/// The number of values a 64-bit cell can hold.
pub open spec fn cell_range() -> int {
    0x1_0000_0000_0000_0000
}

impl Status {
    /// The snapshot of a counter that has recorded nothing.
    pub open spec fn zero() -> Status {
        Status { count: 0, total: 0 }
    }

    /// The snapshot that follows `self` once one event of size `amount` has
    /// been recorded: one more event, `amount` more in total, each modulo
    /// the range of its cell.
    pub open spec fn recorded(self, amount: u64) -> Status {
        Status {
            count: ((self.count + 1) % cell_range()) as u64,
            total: ((self.total + amount) % cell_range()) as u64,
        }
    }
}

impl Default for Status {
    fn default() -> (s: Status)
        ensures
            s == Status::zero(),
    {
        Status { count: 0, total: 0 }
    }
}

/// The sum of `amounts`.
pub open spec fn sum(amounts: Seq<u64>) -> nat
    decreases amounts.len(),
{
    if amounts.len() == 0 {
        0
    } else {
        sum(amounts.drop_last()) + amounts.last() as nat
    }
}

/// What a counter holds once it has recorded, from zero, one event for each
/// entry of `amounts`, in turn.
pub open spec fn tally(amounts: Seq<u64>) -> Status
    decreases amounts.len(),
{
    if amounts.len() == 0 {
        Status::zero()
    } else {
        tally(amounts.drop_last()).recorded(amounts.last())
    }
}

/// While neither cell overflows, recording adds exactly one to the count
/// and exactly `amount` to the total.
pub proof fn lemma_recorded_without_overflow(before: Status, amount: u64)
    ensures
        before.count < u64::MAX ==> before.recorded(amount).count == before.count + 1,
        before.total + amount <= u64::MAX ==> before.recorded(amount).total == before.total
            + amount,
{
}

/// The count moves the same way whatever the amount is, and an event of
/// size zero leaves the total as it was.
pub proof fn lemma_count_ignores_amount(before: Status, amount: u64, other: u64)
    ensures
        before.recorded(amount).count == before.recorded(other).count,
        before.recorded(0).total == before.total,
{
}

/// A counter's count is the number of events it has recorded and its total
/// is the sum of their amounts, each modulo the range of its cell.
pub proof fn lemma_tally_counts_and_sums(amounts: Seq<u64>)
    ensures
        tally(amounts).count == (amounts.len() as int) % cell_range(),
        tally(amounts).total == (sum(amounts) as int) % cell_range(),
    decreases amounts.len(),
{
    if amounts.len() > 0 {
        let earlier = amounts.drop_last();
        lemma_tally_counts_and_sums(earlier);
        let range: int = cell_range();
        let count: int = earlier.len() as int;
        let total: int = sum(earlier) as int;
        let amount: int = amounts.last() as int;
        assert((count % range + 1) % range == (count + 1) % range) by {
            vstd::arithmetic::div_mod::lemma_add_mod_noop(count, 1, range);
            vstd::arithmetic::div_mod::lemma_small_mod(1, range as nat);
        }
        assert((total % range + amount) % range == (total + amount) % range) by {
            vstd::arithmetic::div_mod::lemma_add_mod_noop(total, amount, range);
            vstd::arithmetic::div_mod::lemma_small_mod(amount as nat, range as nat);
        }
    }
}

/// After `events` events of size `amount` each, a counter that started at
/// zero holds `events` as its count and `events * amount` as its total,
/// each modulo the range of its cell.
pub proof fn lemma_tally_of_equal_amounts(events: nat, amount: u64)
    ensures
        tally(Seq::new(events, |i: int| amount)).count == (events as int) % cell_range(),
        tally(Seq::new(events, |i: int| amount)).total == (events * amount) % cell_range(),
    decreases events,
{
    let amounts = Seq::new(events, |i: int| amount);
    lemma_tally_counts_and_sums(amounts);
    lemma_sum_of_equal_amounts(events, amount);
}

/// The sum of `events` entries that are all `amount` is `events * amount`.
pub proof fn lemma_sum_of_equal_amounts(events: nat, amount: u64)
    ensures
        sum(Seq::new(events, |i: int| amount)) == events * amount,
    decreases events,
{
    let amounts = Seq::new(events, |i: int| amount);
    if events > 0 {
        let fewer: nat = (events - 1) as nat;
        assert(amounts.drop_last() =~= Seq::new(fewer, |i: int| amount));
        lemma_sum_of_equal_amounts(fewer, amount);
        assert(amounts.last() == amount);
        assert(fewer * amount + amount == events * amount) by (nonlinear_arith)
            requires
                fewer + 1 == events,
        ;
    } else {
        assert(events * amount == 0) by (nonlinear_arith)
            requires
                events == 0,
        ;
    }
}

/// Taking one entry out of `amounts` takes just that entry out of the sum.
proof fn lemma_sum_without_entry(amounts: Seq<u64>, at: int)
    requires
        0 <= at < amounts.len(),
    ensures
        sum(amounts) == sum(amounts.remove(at)) + amounts[at],
    decreases amounts.len(),
{
    if at == amounts.len() - 1 {
        assert(amounts.remove(at) =~= amounts.drop_last());
    } else {
        lemma_sum_without_entry(amounts.drop_last(), at);
        assert(amounts.remove(at).drop_last() =~= amounts.drop_last().remove(at));
        assert(amounts.remove(at).last() == amounts.last());
    }
}

/// The sum of the same amounts in another order is the same sum.
proof fn lemma_sum_ignores_order(amounts: Seq<u64>, reordered: Seq<u64>)
    requires
        amounts.to_multiset() == reordered.to_multiset(),
    ensures
        sum(amounts) == sum(reordered),
    decreases amounts.len(),
{
    amounts.to_multiset_ensures();
    reordered.to_multiset_ensures();
    if amounts.len() > 0 {
        let last: u64 = amounts.last();
        assert(amounts.contains(last));
        assert(amounts.to_multiset().count(last) > 0);
        assert(reordered.to_multiset().count(last) > 0);
        assert(reordered.contains(last));
        let at: int = choose|at: int| 0 <= at < reordered.len() && reordered[at] == last;
        assert(amounts.drop_last() =~= amounts.remove(amounts.len() - 1));
        lemma_sum_ignores_order(amounts.drop_last(), reordered.remove(at));
        lemma_sum_without_entry(reordered, at);
    }
}

/// What a counter holds does not depend on the order in which its events
/// were recorded.
pub proof fn lemma_tally_ignores_order(amounts: Seq<u64>, reordered: Seq<u64>)
    requires
        amounts.to_multiset() == reordered.to_multiset(),
    ensures
        tally(amounts) == tally(reordered),
{
    amounts.to_multiset_ensures();
    reordered.to_multiset_ensures();
    lemma_sum_ignores_order(amounts, reordered);
    lemma_tally_counts_and_sums(amounts);
    lemma_tally_counts_and_sums(reordered);
}

} // verus!
