//! Periodic timers, all driven by one thread.
//!
//! Times are nanoseconds since some fixed start. A round of the thread is: fire every timer that
//! is due, tell the manager whether each goes on, drop those that do not, and sleep.
use vstd::prelude::*;

use std::sync::atomic::AtomicBool;
use std::sync::Arc;

verus! {

/// The longest sleep: one second, so that a shutdown is noticed soon.
pub const LONGEST_SLEEP: u64 = 1_000_000_000;

/// A periodic timer.
#[derive(Debug, Clone, Copy, PartialEq, Eq, Structural)]
pub struct Entry {
    /// What the timer fires.
    pub id: u64,
    pub interval: u64,
    /// When it fires next.
    pub next: u64,
}

/// A set of periodic timers.
pub struct TimerManager {
    entries: Vec<Entry>,
    shutdown: Arc<AtomicBool>,
}

impl View for TimerManager {
    type V = Seq<Entry>;

    closed spec fn view(&self) -> Seq<Entry> {
        self.entries@
    }
}

/// The first time after `now` that is a whole number of intervals after `next`; `next` itself if it
/// is after `now`.
pub open spec fn caught_up(next: nat, interval: nat, now: nat) -> nat {
    if next > now {
        next
    } else {
        next + ((now - next) as nat / interval + 1) * interval
    }
}

proof fn lemma_caught_up(next: nat, interval: nat, now: nat)
    requires
        interval > 0,
        next <= now,
    ensures
        caught_up(next, interval, now) == next + ((now - next) as nat / interval) * interval
            + interval,
        now < caught_up(next, interval, now) <= now + interval,
{
    let gap = (now - next) as nat;
    let q = gap / interval;
    vstd::arithmetic::div_mod::lemma_fundamental_div_mod(gap as int, interval as int);
    vstd::arithmetic::div_mod::lemma_mod_bound(gap as int, interval as int);
    assert((q + 1) * interval == q * interval + interval) by (nonlinear_arith);
    assert(q * interval == interval * q) by (nonlinear_arith);
}

/// When a timer fires again. If more than one interval went by, it skips ahead.
fn next_fire(next: u64, interval: u64, now: u64) -> (r: u64)
    requires
        interval > 0,
        now + interval <= u64::MAX,
    ensures
        r == caught_up(next as nat, interval as nat, now as nat),
{
    if next > now {
        return next;
    }
    proof {
        lemma_caught_up(next as nat, interval as nat, now as nat);
    }
    let missed: u64 = (now - next) / interval;
    proof {
        let gap = (now - next) as int;
        vstd::arithmetic::div_mod::lemma_fundamental_div_mod(gap, interval as int);
        vstd::arithmetic::div_mod::lemma_mod_bound(gap, interval as int);
        assert(missed * interval == interval * missed) by (nonlinear_arith);
    }
    next + missed * interval + interval
}

/// How long the thread sleeps: until the first timer is due, but no longer than a second.
pub open spec fn sleep_of(entries: Seq<Entry>, now: u64) -> u64
    decreases entries.len(),
{
    if entries.len() == 0 {
        LONGEST_SLEEP
    } else {
        let rest = sleep_of(entries.drop_last(), now);
        let left = if entries.last().next > now {
            (entries.last().next - now) as u64
        } else {
            0
        };
        if left < rest {
            left
        } else {
            rest
        }
    }
}

/// The entries without the one at an index, in whose place the last one stands.
pub open spec fn swap_removed(entries: Seq<Entry>, i: int) -> Seq<Entry> {
    entries.update(i, entries.last()).drop_last()
}

/// The entries without those at some indices, removed from the last to the first.
pub open spec fn without(entries: Seq<Entry>, stopped: Seq<usize>) -> Seq<Entry>
    decreases stopped.len(),
{
    if stopped.len() == 0 {
        entries
    } else {
        without(swap_removed(entries, stopped.last() as int), stopped.drop_last())
    }
}

/// Indices of entries, in ascending order.
pub open spec fn ascending(stopped: Seq<usize>, len: nat) -> bool {
    &&& forall|i: int, j: int| 0 <= i < j < stopped.len() ==> stopped[i] < stopped[j]
    &&& forall|i: int| 0 <= i < stopped.len() ==> stopped[i] < len
}

impl TimerManager {
    /// The flag by which the thread is told to stop.
    pub closed spec fn flag(&self) -> Arc<AtomicBool> {
        self.shutdown
    }

    /// A manager without timers. Its flag is one that `AtomicBool::new(false)` made: it is not set.
    pub fn new() -> (r: TimerManager)
        ensures
            r@ == Seq::<Entry>::empty(),
            call_ensures(AtomicBool::new, (false,), *r.flag()),
    {
        let make = AtomicBool::new;
        TimerManager { entries: Vec::new(), shutdown: Arc::new(make(false)) }
    }

    /// The flag by which the thread is told to stop.
    pub fn shutdown_handle(&self) -> (r: Arc<AtomicBool>)
        ensures
            r == self.flag(),
    {
        self.shutdown.clone()
    }

    /// Registers a timer. It fires for the first time after one interval.
    pub fn add(&mut self, interval: u64, id: u64, now: u64)
        requires
            now + interval <= u64::MAX,
        ensures
            final(self)@ == old(self)@.push(Entry { id, interval, next: (now + interval) as u64 }),
            final(self).flag() == old(self).flag(),
    {
        self.entries.push(Entry { id, interval, next: now + interval });
    }

    /// How many timers there are.
    pub fn len(&self) -> (r: usize)
        ensures
            r == self@.len(),
    {
        self.entries.len()
    }

    /// The timer at an index, if it is due.
    pub fn due(&self, i: usize, now: u64) -> (r: Option<u64>)
        requires
            i < self@.len(),
        ensures
            r == if now >= self@[i as int].next {
                Some(self@[i as int].id)
            } else {
                None
            },
    {
        let e = self.entries[i];
        if now >= e.next {
            Some(e.id)
        } else {
            None
        }
    }

    /// The timer at an index has fired; `now` is when that was done.
    pub fn fired(&mut self, i: usize, now: u64)
        requires
            i < old(self)@.len(),
            old(self)@[i as int].interval > 0,
            now + old(self)@[i as int].interval <= u64::MAX,
        ensures
            final(self)@ == old(self)@.update(
                i as int,
                Entry {
                    next: caught_up(
                        old(self)@[i as int].next as nat,
                        old(self)@[i as int].interval as nat,
                        now as nat,
                    ) as u64,
                    ..old(self)@[i as int]
                },
            ),
            final(self).flag() == old(self).flag(),
    {
        let e = self.entries[i];
        let next: u64 = next_fire(e.next, e.interval, now);
        self.entries.set(i, Entry { id: e.id, interval: e.interval, next });
    }

    /// Drops the timers that are not to go on.
    pub fn remove(&mut self, stopped: &Vec<usize>)
        requires
            ascending(stopped@, old(self)@.len()),
        ensures
            final(self)@ == without(old(self)@, stopped@),
            final(self).flag() == old(self).flag(),
    {
        let ghost all = stopped@;
        let mut k: usize = stopped.len();
        assert(all.take(k as int) =~= all);
        while k > 0
            invariant
                k <= stopped@.len(),
                all == stopped@,
                ascending(all.take(k as int), self@.len()),
                without(old(self)@, all) == without(self@, all.take(k as int)),
                self.flag() == old(self).flag(),
            decreases k,
        {
            let ghost before = self@;
            let i: usize = stopped[k - 1];
            assert(all.take(k as int).last() == i);
            assert(all.take(k as int)[k - 1] == i);
            let last: usize = self.entries.len() - 1;
            let moved = self.entries[last];
            self.entries.set(i, moved);
            self.entries.pop();
            proof {
                assert(self@ =~= swap_removed(before, i as int));
                assert(all.take(k as int).drop_last() =~= all.take(k - 1));
                let rest = all.take(k - 1);
                assert forall|j: int| 0 <= j < rest.len() implies #[trigger] rest[j]
                    < self@.len() by {
                    assert(all.take(k as int)[j] < all.take(k as int)[k - 1]);
                }
            }
            k = k - 1;
        }
    }

    /// How long to sleep before the next round.
    pub fn sleep_time(&self, now: u64) -> (r: u64)
        ensures
            r == sleep_of(self@, now),
    {
        let mut least: u64 = LONGEST_SLEEP;
        let mut i: usize = 0;
        while i < self.entries.len()
            invariant
                i <= self.entries@.len(),
                least == sleep_of(self@.take(i as int), now),
            decreases self.entries@.len() - i,
        {
            assert(self@.take(i + 1).drop_last() =~= self@.take(i as int));
            let next: u64 = self.entries[i].next;
            let left: u64 = if next > now {
                next - now
            } else {
                0
            };
            if left < least {
                least = left;
            }
            i = i + 1;
        }
        assert(self@.take(self@.len() as int) =~= self@);
        least
    }
}

// ── Laws ──

/// A timer that fired fires again after now, no later than an interval from now, and a whole
/// number of intervals after the time it was due.
pub proof fn law_timer_keeps_its_cadence(next: nat, interval: nat, now: nat)
    requires
        interval > 0,
        next <= now,
    ensures
        ({
            let again = caught_up(next, interval, now);
            &&& now < again <= now + interval
            &&& exists|k: nat| k >= 1 && again == next + #[trigger] (k * interval)
        }),
{
    lemma_caught_up(next, interval, now);
    let k = (now - next) as nat / interval + 1;
    assert(caught_up(next, interval, now) == next + k * interval);
}

/// The thread does not sleep past the time at which a timer is due, and never longer than a
/// second.
pub proof fn law_sleep_is_short_enough(entries: Seq<Entry>, now: u64, i: int)
    requires
        0 <= i < entries.len(),
    ensures
        sleep_of(entries, now) <= LONGEST_SLEEP,
        now + sleep_of(entries, now) <= entries[i].next || sleep_of(entries, now) == 0,
    decreases entries.len(),
{
    if i < entries.len() - 1 {
        law_sleep_is_short_enough(entries.drop_last(), now, i);
    } else {
        lemma_sleep_bound(entries.drop_last(), now);
    }
}

proof fn lemma_sleep_bound(entries: Seq<Entry>, now: u64)
    ensures
        sleep_of(entries, now) <= LONGEST_SLEEP,
    decreases entries.len(),
{
    if entries.len() > 0 {
        lemma_sleep_bound(entries.drop_last(), now);
    }
}

/// The thread sleeps until some timer is due, or for a whole second; it does not sleep only where a
/// timer is due already.
pub proof fn law_sleep_is_long_enough(entries: Seq<Entry>, now: u64)
    ensures
        sleep_of(entries, now) == 1_000_000_000 || exists|i: int|
            0 <= i < entries.len() && ((#[trigger] entries[i]).next == now + sleep_of(entries, now)
                || entries[i].next <= now && sleep_of(entries, now) == 0),
    decreases entries.len(),
{
    if entries.len() > 0 {
        let init = entries.drop_last();
        law_sleep_is_long_enough(init, now);
        let n = entries.len() - 1;
        assert(entries[n] == entries.last());
        if sleep_of(entries, now) == sleep_of(init, now) && sleep_of(init, now) != 1_000_000_000 {
            let i = choose|i: int|
                0 <= i < init.len() && ((#[trigger] init[i]).next == now + sleep_of(init, now)
                    || init[i].next <= now && sleep_of(init, now) == 0);
            assert(entries[i] == init[i]);
        }
    }
}

/// A timer that is not due keeps its time; one that is due gets the first time behind `now` that
/// lies whole intervals after its own.
pub proof fn law_timer_is_not_moved_before_its_time(next: nat, interval: nat, now: nat, k: nat)
    requires
        interval > 0,
    ensures
        next > now ==> caught_up(next, interval, now) == next,
        next <= now && next + k * interval > now ==> caught_up(next, interval, now) <= next + k
            * interval,
{
    if next <= now && next + k * interval > now {
        lemma_caught_up(next, interval, now);
        let q = (now - next) as nat / interval;
        vstd::arithmetic::div_mod::lemma_fundamental_div_mod((now - next) as int, interval as int);
        vstd::arithmetic::div_mod::lemma_mod_bound((now - next) as int, interval as int);
        assert(q + 1 <= k) by (nonlinear_arith)
            requires
                now - next == interval * q + (now - next) % (interval as int),
                (now - next) % (interval as int) >= 0,
                next + k * interval > now,
                interval > 0,
        ;
        assert((q + 1) * interval <= k * interval) by (nonlinear_arith)
            requires
                q + 1 <= k,
        ;
    }
}

/// Dropping timers drops those at the given places and no others.
pub proof fn law_other_timers_stay(entries: Seq<Entry>, stopped: Seq<usize>, i: int)
    requires
        ascending(stopped, entries.len()),
    ensures
        without(entries, stopped).len() == entries.len() - stopped.len(),
        0 <= i < entries.len() && (forall|k: int|
            0 <= k < stopped.len() ==> #[trigger] stopped[k] != i) ==> without(
            entries,
            stopped,
        ).contains(entries[i]),
    decreases stopped.len(),
{
    if stopped.len() > 0 {
        let at = stopped.last() as int;
        let init = stopped.drop_last();
        let rest = swap_removed(entries, at);
        let n = entries.len() - 1;
        assert(stopped[stopped.len() - 1] == at);
        assert forall|k: int| 0 <= k < init.len() implies #[trigger] init[k] < rest.len() by {
            assert(stopped[k] < stopped[stopped.len() - 1]);
        }
        assert forall|a: int, b: int| 0 <= a < b < init.len() implies init[a] < init[b] by {
            assert(stopped[a] < stopped[b]);
        }
        let kept = 0 <= i < entries.len() && (forall|k: int|
            0 <= k < stopped.len() ==> #[trigger] stopped[k] != i);
        let to = if i == n {
            at
        } else {
            i
        };
        law_other_timers_stay(rest, init, to);
        if kept {
            assert(stopped[stopped.len() - 1] != i);
            assert(rest[to] == entries[i]);
            assert forall|k: int| 0 <= k < init.len() implies #[trigger] init[k] != to by {
                assert(stopped[k] != i);
                assert(stopped[k] < stopped[stopped.len() - 1]);
            }
        }
    } else {
        if 0 <= i < entries.len() {
            assert(entries[i] == without(entries, stopped)[i]);
        }
    }
}

} // verus!
