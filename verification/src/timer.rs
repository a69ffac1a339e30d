//! Timeouts, told apart by tokens.

use vstd::prelude::*;

verus! {

/// Schedules timeouts. The time, in seconds, is what the timer was last told.
pub struct Timer {
    now: u64,
    next_token: u64,
    pending: Vec<(u64, u64)>,
}

/// The time, the token of the next timeout, and the tokens and deadlines of the pending ones.
#[verifier::ext_equal]
pub struct TimerView {
    pub now: u64,
    pub next_token: u64,
    pub pending: Seq<(u64, u64)>,
}

impl View for Timer {
    type V = TimerView;

    closed spec fn view(&self) -> TimerView {
        TimerView { now: self.now, next_token: self.next_token, pending: self.pending@ }
    }
}

impl TimerView {
    /// The time at which a timeout of the given length ends.
    pub open spec fn deadline(self, seconds: u64) -> u64 {
        if self.now + seconds > u64::MAX {
            u64::MAX
        } else {
            (self.now + seconds) as u64
        }
    }

    /// The timer with one more timeout.
    pub open spec fn scheduled(self, seconds: u64) -> TimerView {
        TimerView {
            now: self.now,
            next_token: if self.next_token == u64::MAX {
                0
            } else {
                (self.next_token + 1) as u64
            },
            pending: self.pending.push((self.next_token, self.deadline(seconds))),
        }
    }

    /// The timeouts that have ended, in the order in which they were scheduled.
    pub open spec fn ended(self) -> Seq<(u64, u64)> {
        let now = self.now;
        self.pending.filter(|timeout: (u64, u64)| timeout.1 <= now)
    }

    /// The tokens of the timeouts that have ended.
    pub open spec fn timed_out_tokens(self) -> Seq<u64> {
        Seq::new(self.ended().len(), |i: int| self.ended()[i].0)
    }

    /// The timer without the timeouts that have ended.
    pub open spec fn without_ended(self) -> TimerView {
        let now = self.now;
        TimerView { pending: self.pending.filter(|timeout: (u64, u64)| timeout.1 > now), ..self }
    }
}

impl Timer {
    /// A timer without timeouts.
    pub fn new(now: u64) -> (r: Self)
        ensures
            r@ == (TimerView { now, next_token: 0, pending: Seq::<(u64, u64)>::empty() }),
    {
        Timer { now, next_token: 0, pending: Vec::new() }
    }

    /// Tells the timer the time.
    pub fn set_time(&mut self, now: u64)
        ensures
            final(self)@ == (TimerView { now, ..old(self)@ }),
    {
        self.now = now;
    }

    /// Schedules a timeout of the given length and returns its token.
    pub fn schedule(&mut self, seconds: u64) -> (r: u64)
        ensures
            r == old(self)@.next_token,
            final(self)@ == old(self)@.scheduled(seconds),
    {
        let token = self.next_token;
        let deadline = if seconds > u64::MAX - self.now {
            u64::MAX
        } else {
            self.now + seconds
        };
        self.next_token = if token == u64::MAX {
            0
        } else {
            token + 1
        };
        self.pending.push((token, deadline));
        token
    }

    /// Returns the tokens of the timeouts that have ended, which are then no longer pending.
    pub fn get_timed_out_tokens(&mut self) -> (r: Vec<u64>)
        ensures
            r@ == old(self)@.timed_out_tokens(),
            final(self)@ == old(self)@.without_ended(),
    {
        let mut tokens: Vec<u64> = Vec::new();
        let mut pending: Vec<(u64, u64)> = Vec::new();
        let ghost now = self.now;
        let ghost all = self.pending@;
        let ghost over = |timeout: (u64, u64)| timeout.1 <= now;
        let ghost left = |timeout: (u64, u64)| timeout.1 > now;
        proof {
            reveal(Seq::filter);
        }
        for i in 0..self.pending.len()
            invariant
                now == self.now,
                all == self.pending@,
                over == (|timeout: (u64, u64)| timeout.1 <= now),
                left == (|timeout: (u64, u64)| timeout.1 > now),
                pending@ == all.take(i as int).filter(left),
                tokens@.len() == all.take(i as int).filter(over).len(),
                forall|j: int|
                    0 <= j < tokens@.len() ==> #[trigger] tokens@[j] == all.take(
                        i as int,
                    ).filter(over)[j].0,
        {
            let timeout = self.pending[i];
            proof {
                reveal(Seq::filter);
                assert(all.take(i + 1).drop_last() =~= all.take(i as int));
                assert(all.take(i + 1).last() == timeout);
            }
            if timeout.1 <= self.now {
                tokens.push(timeout.0);
            } else {
                pending.push(timeout);
            }
        }
        assert(all.take(all.len() as int) =~= all);
        assert(tokens@ =~= self@.timed_out_tokens());
        self.pending = pending;
        tokens
    }
}

/// A timeout ends the given number of seconds from now, or at the end of time, under a token of its
/// own; the timeouts that were pending stay.
pub proof fn law_schedule_adds_one_timeout(timer: TimerView, seconds: u64)
    ensures
        ({
            let after = timer.scheduled(seconds);
            let n = timer.pending.len() as int;
            &&& after.now == timer.now
            &&& after.pending.len() == n + 1
            &&& forall|i: int| 0 <= i < n ==> after.pending[i] == timer.pending[i]
            &&& after.pending[n].0 == timer.next_token
            &&& timer.now + seconds <= u64::MAX ==> after.pending[n].1 == timer.now + seconds
            &&& timer.now + seconds > u64::MAX ==> after.pending[n].1 == u64::MAX
            &&& after.next_token != timer.next_token
            &&& timer.next_token < u64::MAX ==> after.next_token == timer.next_token + 1
        }),
{
}

/// Every pending timeout either has ended, and its token is handed out, or stays pending: it has
/// ended exactly if its deadline is not later than now.
pub proof fn law_timeouts_end_at_their_deadlines(timer: TimerView, timeout: (u64, u64))
    ensures
        timer.pending.contains(timeout) && timeout.1 <= timer.now
            ==> timer.timed_out_tokens().contains(timeout.0),
        timer.without_ended().pending.contains(timeout) <==> timer.pending.contains(timeout)
            && timeout.1 > timer.now,
        timer.without_ended().now == timer.now,
        timer.without_ended().next_token == timer.next_token,
        timer.timed_out_tokens().len() + timer.without_ended().pending.len()
            == timer.pending.len(),
{
    let now = timer.now;
    let over = |t: (u64, u64)| t.1 <= now;
    let left = |t: (u64, u64)| t.1 > now;
    lemma_filter_keeps(timer.pending, over, timeout);
    lemma_filter_keeps(timer.pending, left, timeout);
    lemma_filter_parts(timer.pending, over, left);
    if timer.pending.contains(timeout) && timeout.1 <= timer.now {
        let ended = timer.ended();
        assert(ended.contains(timeout));
        let i = choose|i: int| 0 <= i < ended.len() && ended[i] == timeout;
        assert(timer.timed_out_tokens()[i] == timeout.0);
    }
}

/// Every token that is handed out is that of a pending timeout that has ended.
pub proof fn law_handed_out_tokens_have_ended(timer: TimerView, i: int)
    requires
        0 <= i < timer.timed_out_tokens().len(),
    ensures
        exists|timeout: (u64, u64)| #[trigger]
            timer.pending.contains(timeout) && timeout.0 == timer.timed_out_tokens()[i]
                && timeout.1 <= timer.now,
{
    let now = timer.now;
    let over = |t: (u64, u64)| t.1 <= now;
    let timeout = timer.ended()[i];
    assert(timer.ended().contains(timeout));
    lemma_filter_keeps(timer.pending, over, timeout);
}

proof fn lemma_filter_keeps(s: Seq<(u64, u64)>, keep: spec_fn((u64, u64)) -> bool, x: (u64, u64))
    ensures
        s.filter(keep).contains(x) <==> s.contains(x) && keep(x),
    decreases s.len(),
{
    reveal(Seq::filter);
    if s.len() > 0 {
        let rest = s.drop_last();
        lemma_filter_keeps(rest, keep, x);
        assert(s =~= rest.push(s.last()));
        if s.contains(x) {
            let i = choose|i: int| 0 <= i < s.len() && s[i] == x;
            if i < rest.len() {
                assert(rest[i] == x);
            }
        }
        if rest.contains(x) {
            let i = choose|i: int| 0 <= i < rest.len() && rest[i] == x;
            assert(s[i] == x);
        }
        assert(s[s.len() - 1] == s.last());
        let f = rest.filter(keep);
        if keep(s.last()) {
            assert(s.filter(keep) =~= f.push(s.last()));
            assert(f.push(s.last())[f.len() as int] == s.last());
            if f.contains(x) {
                let i = choose|i: int| 0 <= i < f.len() && f[i] == x;
                assert(f.push(s.last())[i] == x);
            }
            if f.push(s.last()).contains(x) && x != s.last() {
                let i = choose|i: int|
                    0 <= i < f.push(s.last()).len() && f.push(s.last())[i] == x;
                assert(f[i] == x);
            }
        }
    }
}

proof fn lemma_filter_parts(
    s: Seq<(u64, u64)>,
    a: spec_fn((u64, u64)) -> bool,
    b: spec_fn((u64, u64)) -> bool,
)
    requires
        forall|x: (u64, u64)| #[trigger] a(x) != b(x),
    ensures
        s.filter(a).len() + s.filter(b).len() == s.len(),
    decreases s.len(),
{
    reveal(Seq::filter);
    if s.len() > 0 {
        lemma_filter_parts(s.drop_last(), a, b);
        assert(a(s.last()) != b(s.last()));
    }
}

} // verus!
