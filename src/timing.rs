use vstd::prelude::*;

verus! {

/// Nanoseconds in one second: timestamps and elapsed times are in nanoseconds,
/// so one cycle of a system at `f` hertz is `NANOS_PER_SECOND` units of
/// `elapsed * f`.
pub const NANOS_PER_SECOND: u64 = 1_000_000_000;

/// A system that runs at a fixed frequency.
pub struct TimedSystem {
    pub name: &'static str,
    /// Cycles per second.
    pub frequency: u64,
    /// The fraction of a cycle carried over from earlier calls, in units of
    /// `1 / NANOS_PER_SECOND` cycle.
    pub remainder: u64,
}

/// How many cycles of the named system are due now.
pub struct Instruction {
    pub name: &'static str,
    pub cycles: u128,
}

/// Turns wall-clock time into whole cycle counts for several systems.
pub struct Timing {
    /// The latest timestamp seen, in nanoseconds.
    pub last: u64,
    pub systems: Vec<TimedSystem>,
}

/// Time between two timestamps; a clock that goes backwards gives none.
pub open spec fn elapsed_between(last: u64, now: u64) -> nat {
    if now >= last {
        (now - last) as nat
    } else {
        0
    }
}

/// Whole cycles due, and the fraction carried over, after `elapsed`
/// nanoseconds at `frequency` hertz on top of a carried `remainder`.
pub open spec fn advance(remainder: nat, elapsed: nat, frequency: nat) -> (nat, nat) {
    let total = remainder + elapsed * frequency;
    (total / NANOS_PER_SECOND as nat, total % NANOS_PER_SECOND as nat)
}

/// What one call does for one system: `ins` reports the whole cycles that
/// `elapsed` nanoseconds make due, and `after` keeps the fraction left over.
pub open spec fn scheduled(before: TimedSystem, after: TimedSystem, ins: Instruction, elapsed: nat) -> bool {
    let (cycles, rest) = advance(before.remainder as nat, elapsed, before.frequency as nat);
    &&& ins.name == before.name
    &&& ins.cycles == cycles
    &&& after.name == before.name
    &&& after.frequency == before.frequency
    &&& after.remainder == rest
}

impl TimedSystem {
    /// A system running at `frequency` hertz with nothing carried over.
    pub fn new(name: &'static str, frequency: u64) -> (r: TimedSystem)
        ensures
            r.name == name,
            r.frequency == frequency,
            r.remainder == 0,
    {
        TimedSystem { name, frequency, remainder: 0 }
    }
}

impl Timing {
    /// A scheduler whose clock starts at `now`.
    pub fn new(now: u64, systems: Vec<TimedSystem>) -> (r: Timing)
        ensures
            r.last == now,
            r.systems@ == systems@,
    {
        Timing { last: now, systems }
    }

    /// For each system in order, the whole cycles that the time since the last
    /// call makes due; the fractions are kept for the next call.
    pub fn get_instructions(&mut self, now: u64) -> (r: Vec<Instruction>)
        ensures
            final(self).last == if now >= old(self).last {
                now
            } else {
                old(self).last
            },
            r@.len() == old(self).systems@.len(),
            final(self).systems@.len() == old(self).systems@.len(),
            forall|k: int|
                0 <= k < r@.len() ==> scheduled(
                    old(self).systems@[k],
                    final(self).systems@[k],
                    #[trigger] r@[k],
                    elapsed_between(old(self).last, now),
                ),
    {
        let elapsed: u64 = if now >= self.last {
            now - self.last
        } else {
            0
        };
        if now >= self.last {
            self.last = now;
        }
        let ghost before = self.systems@;
        let n = self.systems.len();
        let mut out: Vec<Instruction> = Vec::new();
        let mut k: usize = 0;
        while k < n
            invariant
                n == before.len(),
                self.systems@.len() == n,
                k <= n,
                out@.len() == k,
                elapsed == elapsed_between(old(self).last, now),
                self.last == if now >= old(self).last {
                    now
                } else {
                    old(self).last
                },
                before == old(self).systems@,
                forall|j: int| k <= j < n ==> self.systems@[j] == before[j],
                forall|j: int|
                    0 <= j < k ==> scheduled(
                        before[j],
                        self.systems@[j],
                        #[trigger] out@[j],
                        elapsed as nat,
                    ),
            decreases n - k,
        {
            let name = self.systems[k].name;
            let frequency = self.systems[k].frequency;
            let remainder = self.systems[k].remainder;
            assert(elapsed as u128 * frequency as u128 <= 0xFFFF_FFFF_FFFF_FFFE_0000_0000_0000_0001)
                by (nonlinear_arith)
                requires
                    elapsed <= u64::MAX,
                    frequency <= u64::MAX,
            ;
            let total: u128 = remainder as u128 + elapsed as u128 * frequency as u128;
            let cycles = total / NANOS_PER_SECOND as u128;
            let rest = (total % NANOS_PER_SECOND as u128) as u64;
            self.systems.set(k, TimedSystem { name, frequency, remainder: rest });
            out.push(Instruction { name, cycles });
            k = k + 1;
        }
        out
    }
}

} // verus!
