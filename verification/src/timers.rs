//! A bank of counters addressed by dense index.

use vstd::prelude::*;
use crate::status::{tally, Status};
use crate::timer::Timer;

verus! {

/// A fixed-length row of counters. Its length is set when it is made and
/// never changes; the counters are addressed by their position.
pub struct Timers {
    timers: Vec<Timer>,
}

/// The snapshot of a bank of `len` counters that have recorded nothing.
pub open spec fn all_zero(len: nat) -> Seq<Status> {
    Seq::new(len, |i: int| Status::zero())
}

/// The snapshot that follows `before` once one event of size `amount` has
/// been recorded at index `t`.
pub open spec fn recorded_at(before: Seq<Status>, t: int, amount: u64) -> Seq<Status> {
    before.update(t, before[t].recorded(amount))
}

impl View for Timers {
    type V = Seq<Status>;

    /// What each counter holds, in index order.
    closed spec fn view(&self) -> Seq<Status> {
        Seq::new(self.timers@.len(), |i: int| self.timers@[i]@)
    }
}

impl Timers {
    /// A bank of `num_types` counters, each at zero. `num_types` may be
    /// zero: the bank is then empty.
    pub fn new(num_types: usize) -> (bank: Timers)
        ensures
            bank@ == all_zero(num_types as nat),
    {
        let mut timers: Vec<Timer> = Vec::with_capacity(num_types);
        let mut filled: usize = 0;
        while filled < num_types
            invariant
                filled <= num_types,
                timers@.len() == filled,
                forall|i: int| 0 <= i < filled ==> (#[trigger] timers@[i])@ == Status::zero(),
            decreases num_types - filled,
        {
            timers.push(Timer::default());
            filled = filled + 1;
        }
        let bank = Timers { timers };
        assert(bank@ =~= all_zero(num_types as nat));
        bank
    }

    /// The number of counters.
    pub fn len(&self) -> (len: usize)
        ensures
            len == self@.len(),
    {
        self.timers.len()
    }

    /// The counter at index `t`, for recording against it or reading it.
    /// Whatever is done to it shows at index `t` of the bank and nowhere
    /// else.
    pub fn timer(&mut self, t: usize) -> (timer: &mut Timer)
        requires
            t < old(self)@.len(),
        ensures
            timer@ == old(self)@[t as int],
            final(self)@ == old(self)@.update(t as int, final(timer)@),
    {
        &mut self.timers[t]
    }

    /// Records one event of size `amount` against the counter at index `t`.
    /// No other counter moves.
    pub fn add(&mut self, t: usize, amount: u64)
        requires
            t < old(self)@.len(),
        ensures
            final(self)@ == recorded_at(old(self)@, t as int, amount),
    {
        self.timer(t).add(amount);
    }

    /// The snapshot of every counter, in index order. The bank is left as
    /// it was.
    pub fn status(&self) -> (status: Vec<Status>)
        ensures
            status@ == self@,
    {
        let mut status: Vec<Status> = Vec::with_capacity(self.timers.len());
        let mut read: usize = 0;
        while read < self.timers.len()
            invariant
                read <= self.timers@.len(),
                status@.len() == read,
                forall|i: int| 0 <= i < read ==> #[trigger] status@[i] == self.timers@[i]@,
            decreases self.timers@.len() - read,
        {
            status.push(self.timers[read].status_nonatomic());
            read = read + 1;
        }
        assert(status@ =~= self@);
        status
    }
}

/// A bank made with no counters has an empty snapshot, and no index `t` is
/// in range for recording against it: it stays empty.
pub proof fn lemma_empty_bank_has_no_index(bank: Seq<Status>, t: usize)
    requires
        bank == all_zero(0),
    ensures
        bank == Seq::<Status>::empty(),
        !(t < bank.len()),
{
    assert(bank =~= Seq::<Status>::empty());
}

/// Recording at one index keeps the number of counters, moves the counter at
/// that index by one event, and leaves every other counter as it was.
pub proof fn lemma_recording_is_isolated(before: Seq<Status>, t: int, amount: u64)
    requires
        0 <= t < before.len(),
    ensures
        recorded_at(before, t, amount).len() == before.len(),
        recorded_at(before, t, amount)[t] == before[t].recorded(amount),
        forall|other: int|
            0 <= other < before.len() && other != t ==> #[trigger] recorded_at(
                before,
                t,
                amount,
            )[other] == before[other],
{
}

/// Recordings at two different indices give the same bank in either order.
pub proof fn lemma_recordings_commute(
    before: Seq<Status>,
    t: int,
    amount: u64,
    u: int,
    other_amount: u64,
)
    requires
        0 <= t < before.len(),
        0 <= u < before.len(),
        t != u,
    ensures
        recorded_at(recorded_at(before, t, amount), u, other_amount) == recorded_at(
            recorded_at(before, u, other_amount),
            t,
            amount,
        ),
{
    assert(recorded_at(recorded_at(before, t, amount), u, other_amount) =~= recorded_at(
        recorded_at(before, u, other_amount),
        t,
        amount,
    ));
}

/// What a bank of `len` counters holds once it has recorded from zero, in
/// turn, each event of `events`: a pair of the index recorded at and the
/// amount.
pub open spec fn replay(len: nat, events: Seq<(usize, u64)>) -> Seq<Status>
    decreases events.len(),
{
    if events.len() == 0 {
        all_zero(len)
    } else {
        recorded_at(replay(len, events.drop_last()), events.last().0 as int, events.last().1)
    }
}

/// The amounts of those of `events` that were recorded at index `t`, in the
/// order of the events.
pub open spec fn amounts_at(events: Seq<(usize, u64)>, t: int) -> Seq<u64>
    decreases events.len(),
{
    if events.len() == 0 {
        Seq::empty()
    } else if events.last().0 == t {
        amounts_at(events.drop_last(), t).push(events.last().1)
    } else {
        amounts_at(events.drop_last(), t)
    }
}

/// After any run of events, each at an index in range, the bank still has
/// its `len` counters, and the counter at `t` holds the tally of the events
/// recorded at `t` and of no others.
pub proof fn lemma_replay_tallies_each_index(len: nat, events: Seq<(usize, u64)>, t: int)
    requires
        0 <= t < len,
        forall|k: int| 0 <= k < events.len() ==> (#[trigger] events[k]).0 < len,
    ensures
        replay(len, events).len() == len,
        replay(len, events)[t] == tally(amounts_at(events, t)),
    decreases events.len(),
{
    if events.len() > 0 {
        let earlier = events.drop_last();
        let last = events.last();
        lemma_replay_tallies_each_index(len, earlier, t);
        if last.0 == t {
            let amounts = amounts_at(earlier, t);
            assert(amounts.push(last.1).drop_last() =~= amounts);
        }
    }
}

/// Two snapshots taken of one bank with no recording in between are equal.
pub proof fn lemma_status_repeats(bank: Seq<Status>, first: Vec<Status>, second: Vec<Status>)
    requires
        first@ == bank,
        second@ == bank,
    ensures
        first@ == second@,
{
}

} // verus!
