//! The hard limits of a run: a turn budget that only counts down and caps
//! that overrides can only tighten.

use vstd::prelude::*;

verus! {

/// The caps of a run.
#[derive(Clone, Copy, Debug, PartialEq, Eq, Structural)]
pub struct OrchestratorCaps {
    pub max_total_turns: u32,
    pub max_wall_seconds: u64,
    pub max_parallel: u32,
    pub max_concurrent_vms: u32,
    pub max_steps: u32,
    pub max_review_cycles: u32,
    pub max_ticks: u32,
}

/// What a command line asks to be lowered.
#[derive(Clone, Copy, Debug, PartialEq, Eq, Structural)]
pub struct CapsOverride {
    pub max_total_turns: Option<u32>,
    pub max_wall_seconds: Option<u64>,
    pub max_parallel: Option<u32>,
    pub max_concurrent_vms: Option<u32>,
    pub max_steps: Option<u32>,
}

/// The smaller of a cap and its override.
pub open spec fn tightened(cap: int, over: Option<int>) -> int {
    match over {
        Some(o) => if o < cap {
            o
        } else {
            cap
        },
        None => cap,
    }
}

pub open spec fn opt_u32(o: Option<u32>) -> Option<int> {
    match o {
        Some(n) => Some(n as int),
        None => None,
    }
}

pub open spec fn opt_u64(o: Option<u64>) -> Option<int> {
    match o {
        Some(n) => Some(n as int),
        None => None,
    }
}

fn lower(cap: u32, over: Option<u32>) -> (r: u32)
    ensures
        r == tightened(cap as int, opt_u32(over)),
{
    match over {
        Some(o) => if o < cap {
            o
        } else {
            cap
        },
        None => cap,
    }
}

impl OrchestratorCaps {
    /// The caps with each override applied that lowers one.
    pub fn tighten_with(&self, over: &CapsOverride) -> (r: OrchestratorCaps)
        ensures
            r.max_total_turns == tightened(self.max_total_turns as int, opt_u32(over.max_total_turns)),
            r.max_wall_seconds == tightened(self.max_wall_seconds as int, opt_u64(over.max_wall_seconds)),
            r.max_parallel == tightened(self.max_parallel as int, opt_u32(over.max_parallel)),
            r.max_concurrent_vms == tightened(
                self.max_concurrent_vms as int,
                opt_u32(over.max_concurrent_vms),
            ),
            r.max_steps == tightened(self.max_steps as int, opt_u32(over.max_steps)),
            r.max_review_cycles == self.max_review_cycles,
            r.max_ticks == self.max_ticks,
    {
        OrchestratorCaps {
            max_total_turns: lower(self.max_total_turns, over.max_total_turns),
            max_wall_seconds: match over.max_wall_seconds {
                Some(o) => if o < self.max_wall_seconds {
                    o
                } else {
                    self.max_wall_seconds
                },
                None => self.max_wall_seconds,
            },
            max_parallel: lower(self.max_parallel, over.max_parallel),
            max_concurrent_vms: lower(self.max_concurrent_vms, over.max_concurrent_vms),
            max_steps: lower(self.max_steps, over.max_steps),
            max_review_cycles: self.max_review_cycles,
            max_ticks: self.max_ticks,
        }
    }
}

/// An override never raises a cap, and an override that is not given leaves
/// it as it is.
pub proof fn law_overrides_only_tighten(cap: int, over: Option<int>)
    ensures
        tightened(cap, over) <= cap,
        over is None ==> tightened(cap, over) == cap,
        over matches Some(o) ==> tightened(cap, over) <= o,
{
}

/// What is left of the turns and of the passes of a run.
#[derive(Clone, Copy, Debug, PartialEq, Eq, Structural)]
pub struct RunBudget {
    pub turns: u32,
    pub ticks: u32,
}

impl RunBudget {
    /// The budget with one turn less, where one is left.
    pub open spec fn spent(self) -> RunBudget {
        if self.turns > 0 {
            RunBudget { turns: (self.turns - 1) as u32, ticks: self.ticks }
        } else {
            self
        }
    }

    /// The budget with one pass less, where one is left.
    pub open spec fn ticked(self) -> RunBudget {
        if self.ticks > 0 {
            RunBudget { turns: self.turns, ticks: (self.ticks - 1) as u32 }
        } else {
            self
        }
    }

    /// A plan is admitted when every step can have a turn.
    pub open spec fn admits(self, steps: nat) -> bool {
        steps <= self.turns
    }

    pub fn new(caps: &OrchestratorCaps) -> (r: RunBudget)
        ensures
            r == (RunBudget { turns: caps.max_total_turns, ticks: caps.max_ticks }),
    {
        RunBudget { turns: caps.max_total_turns, ticks: caps.max_ticks }
    }

    /// Charges one turn. Fails, and charges nothing, where none is left.
    pub fn spend_turn(&mut self) -> (ok: bool)
        ensures
            ok == (old(self).turns > 0),
            *final(self) == old(self).spent(),
    {
        if self.turns == 0 {
            return false;
        }
        self.turns = self.turns - 1;
        true
    }

    /// Counts one pass of the loop. Fails where none is left.
    pub fn tick(&mut self) -> (ok: bool)
        ensures
            ok == (old(self).ticks > 0),
            *final(self) == old(self).ticked(),
    {
        if self.ticks == 0 {
            return false;
        }
        self.ticks = self.ticks - 1;
        true
    }

    pub fn admits_plan(&self, steps: usize) -> (r: bool)
        ensures
            r == self.admits(steps as nat),
    {
        steps as u64 <= self.turns as u64
    }
}

/// A limit is the smaller of the two where one is given over it.
pub proof fn law_a_limit_is_the_smaller_one(cap: int, over: int)
    ensures
        over < cap ==> tightened(cap, Some(over)) == over,
        over >= cap ==> tightened(cap, Some(over)) == cap,
{
}

/// A turn and a tick cost one each, and nothing is spent below zero; steps are
/// admitted as long as there are turns for them.
pub proof fn law_a_turn_costs_one(b: RunBudget, steps: nat)
    ensures
        b.turns > 0 ==> b.spent().turns == b.turns - 1 && b.spent().ticks == b.ticks,
        b.turns == 0 ==> b.spent() == b,
        b.ticks > 0 ==> b.ticked().ticks == b.ticks - 1 && b.ticked().turns == b.turns,
        b.ticks == 0 ==> b.ticked() == b,
        b.admits(steps) <==> steps <= b.turns,
{
}

} // verus!
