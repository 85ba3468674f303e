//! A back-off shared by all workers of a batch.
//!
//! Rate limiting is a property of the connection, not of one track: one gate
//! means that a single pause slows the whole batch and then releases all workers
//! at once. Times are milliseconds of the caller's clock.
use vstd::prelude::*;

verus! {

/// A batch is given up after this many penalties with no success in between: a
/// sustained block wants a longer break.
pub const ABORT_AFTER_CONSECUTIVE_PENALTIES: usize = 15;

/// The shared gate.
pub struct BackoffGate {
    /// Rungs of the ladder in seconds. Never empty.
    pub steps: Vec<u64>,
    /// No request may start before this time.
    pub open_at: u64,
    /// Next rung to apply.
    pub level: usize,
    /// Penalties since the last success.
    pub consecutive: usize,
}

/// Seconds after a time, as a time.
pub open spec fn later(now: u64, seconds: u64) -> u64 {
    if now + seconds * 1000 > u64::MAX {
        u64::MAX
    } else {
        (now + seconds * 1000) as u64
    }
}

fn add_seconds(now: u64, seconds: u64) -> (r: u64)
    ensures
        r == later(now, seconds),
{
    let sum: u128 = now as u128 + seconds as u128 * 1000;
    if sum > u64::MAX as u128 {
        u64::MAX
    } else {
        sum as u64
    }
}

impl BackoffGate {
    /// There is a rung, and the next one is on the ladder.
    pub open spec fn well_formed(self) -> bool {
        self.level < self.steps@.len() <= usize::MAX
    }

    /// A gate that is open, with the given ladder (a single rung of five seconds
    /// for an empty one).
    pub fn new(steps: Vec<u64>, now: u64) -> (r: Self)
        ensures
            r.well_formed(),
            r.steps@ == (if steps@.len() == 0 {
                seq![5u64]
            } else {
                steps@
            }),
            r.open_at == now,
            r.level == 0,
            r.consecutive == 0,
    {
        let steps = if steps.len() == 0 {
            let one: Vec<u64> = vec![5];
            assert(one@ =~= seq![5u64]);
            one
        } else {
            steps
        };
        let n: usize = steps.len();
        assert(0 < n <= usize::MAX);
        BackoffGate { steps, open_at: now, level: 0, consecutive: 0 }
    }

    /// How long the shared gate stays closed, in milliseconds.
    pub open spec fn closed_for(self, now: u64) -> int {
        if self.open_at > now {
            self.open_at - now
        } else {
            0
        }
    }

    /// How long the shared gate stays closed, in milliseconds.
    pub fn remaining(&self, now: u64) -> (r: u64)
        ensures
            r == self.closed_for(now),
    {
        if self.open_at > now {
            self.open_at - now
        } else {
            0
        }
    }

    /// The shared gate after a penalty.
    pub open spec fn penalized(self, now: u64) -> BackoffGate {
        let opens = later(now, self.steps@[self.level as int]);
        BackoffGate {
            steps: self.steps,
            open_at: if opens > self.open_at {
                opens
            } else {
                self.open_at
            },
            level: if self.level + 1 < self.steps@.len() {
                (self.level + 1) as usize
            } else {
                self.level
            },
            consecutive: if self.consecutive == usize::MAX {
                usize::MAX
            } else {
                (self.consecutive + 1) as usize
            },
        }
    }

    /// Takes a rate-limit or transient failure in: closes the shared gate for the next
    /// rung of the ladder. A longer penalty that is already set stays. Gives the
    /// rung, in seconds, and whether the batch is to be given up.
    pub fn penalize(&mut self, now: u64) -> (r: (u64, bool))
        requires
            old(self).well_formed(),
        ensures
            final(self).well_formed(),
            *final(self) == old(self).penalized(now),
            r.0 == old(self).steps@[old(self).level as int],
            r.1 == (final(self).consecutive >= ABORT_AFTER_CONSECUTIVE_PENALTIES),
    {
        let step: u64 = self.steps[self.level];
        if self.level < self.steps.len() - 1 {
            self.level = self.level + 1;
        }
        if self.consecutive < usize::MAX {
            self.consecutive = self.consecutive + 1;
        }
        let opens = add_seconds(now, step);
        if opens > self.open_at {
            self.open_at = opens;
        }
        (step, self.consecutive >= ABORT_AFTER_CONSECUTIVE_PENALTIES)
    }

    /// The shared gate after a success.
    pub open spec fn relaxed(self) -> BackoffGate {
        BackoffGate {
            steps: self.steps,
            open_at: self.open_at,
            level: if self.level == 0 {
                0
            } else {
                (self.level - 1) as usize
            },
            consecutive: 0,
        }
    }

    /// Takes a success in: the limit is easing, one step back down the ladder.
    pub fn relax(&mut self)
        requires
            old(self).well_formed(),
        ensures
            final(self).well_formed(),
            *final(self) == old(self).relaxed(),
    {
        if self.level > 0 {
            self.level = self.level - 1;
        }
        self.consecutive = 0;
    }
}

// ---------------------------------------------------------------------------
// Laws
// ---------------------------------------------------------------------------

/// What happens to a gate: a penalty at some time, or a success.
pub enum GateEvent {
    Penalty(u64),
    Success,
}

/// The shared gate after a row of events.
pub open spec fn after_events(gate: BackoffGate, events: Seq<GateEvent>) -> BackoffGate
    decreases events.len(),
{
    if events.len() == 0 {
        gate
    } else {
        let before = after_events(gate, events.drop_last());
        match events.last() {
            GateEvent::Penalty(now) => before.penalized(now),
            GateEvent::Success => before.relaxed(),
        }
    }
}

/// How many penalties there were since the last success.
pub open spec fn trailing_penalties(events: Seq<GateEvent>) -> nat
    decreases events.len(),
{
    if events.len() == 0 || events.last() is Success {
        0
    } else {
        trailing_penalties(events.drop_last()) + 1
    }
}

/// Whatever happens, the shared gate is never pulled in: it opens no earlier than it
/// would have before.
pub proof fn law_gate_is_never_pulled_in(gate: BackoffGate, events: Seq<GateEvent>)
    ensures
        after_events(gate, events).open_at >= gate.open_at,
        after_events(gate, events).steps == gate.steps,
    decreases events.len(),
{
    if events.len() > 0 {
        law_gate_is_never_pulled_in(gate, events.drop_last());
    }
}

/// A new gate counts the penalties since the last success, so a batch is given
/// up only after that many penalties in a row: one success resets the count.
pub proof fn law_only_a_sustained_block_aborts(gate: BackoffGate, events: Seq<GateEvent>)
    requires
        gate.well_formed(),
        gate.consecutive == 0,
        events.len() < usize::MAX,
    ensures
        after_events(gate, events).well_formed(),
        after_events(gate, events).consecutive == trailing_penalties(events),
        trailing_penalties(events) <= events.len(),
        after_events(gate, events).consecutive >= ABORT_AFTER_CONSECUTIVE_PENALTIES <==>
            trailing_penalties(events) >= 15,
    decreases events.len(),
{
    if events.len() > 0 {
        law_only_a_sustained_block_aborts(gate, events.drop_last());
    }
}

/// A penalty closes the shared gate for at least the current rung, and each rung is
/// followed by the next one until the last.
pub proof fn law_a_penalty_waits_out_its_rung(gate: BackoffGate, now: u64)
    requires
        gate.well_formed(),
        now + gate.steps@[gate.level as int] * 1000 <= u64::MAX,
    ensures
        gate.penalized(now).open_at >= now + gate.steps@[gate.level as int] * 1000,
        gate.penalized(now).level >= gate.level,
        gate.penalized(now).level == gate.level ==> gate.level == gate.steps@.len() - 1,
        gate.relaxed().level <= gate.level,
{
}

/// A worker that waits as long as it is told finds the shared gate open, and not a
/// moment before.
pub proof fn law_a_wait_ends_when_the_gate_opens(gate: BackoffGate, now: u64, then: u64)
    requires
        now <= then,
    ensures
        gate.closed_for(then) == 0 <==> then - now >= gate.closed_for(now),
        gate.closed_for(now) > 0 ==> now + gate.closed_for(now) == gate.open_at,
{
}

/// A penalty closes the shared gate for the current rung and no longer, unless it was
/// to stay closed longer anyway, and moves one rung up; a success moves one rung down
/// and closes nothing. Only a penalty is counted, and only a success forgets them.
pub proof fn law_one_event_moves_one_rung(gate: BackoffGate, now: u64)
    requires
        gate.well_formed(),
    ensures
        now + gate.steps@[gate.level as int] * 1000 <= u64::MAX ==> ({
            let opens = now + gate.steps@[gate.level as int] * 1000;
            &&& gate.open_at <= opens ==> gate.penalized(now).open_at == opens
            &&& gate.open_at > opens ==> gate.penalized(now).open_at == gate.open_at
        }),
        gate.level + 1 < gate.steps@.len() ==> gate.penalized(now).level == gate.level + 1,
        gate.level + 1 == gate.steps@.len() ==> gate.penalized(now).level == gate.level,
        gate.consecutive < usize::MAX ==> gate.penalized(now).consecutive == gate.consecutive + 1,
        gate.relaxed().open_at == gate.open_at,
        gate.relaxed().consecutive == 0,
        gate.level > 0 ==> gate.relaxed().level == gate.level - 1,
        gate.level == 0 ==> gate.relaxed().level == 0,
        gate.level + 1 < gate.steps@.len() ==> gate.penalized(now).relaxed().level == gate.level,
{
}

} // verus!
