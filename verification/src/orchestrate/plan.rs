//! The list of steps that a run works through, and the replies it is read
//! from.

use crate::text as t;
use vstd::prelude::*;
use vstd::string::*;

verus! {

#[derive(Clone, Copy, Debug, PartialEq, Eq, Structural)]
pub enum StepStatus {
    Waiting,
    Running,
    Done,
    Failed,
}

/// One step of a plan: who does what, after which other steps.
#[derive(Debug, PartialEq, Eq)]
pub struct Step {
    pub id: String,
    pub role: String,
    pub task: String,
    pub deps: Vec<String>,
    pub review: bool,
    pub status: StepStatus,
    pub result: Option<String>,
    pub attempts: u32,
    pub review_cycles: u32,
}

#[derive(Debug, PartialEq, Eq)]
pub struct Plan {
    pub goal: String,
    pub steps: Vec<Step>,
}

/// What a step holds.
pub struct StepView {
    pub id: Seq<char>,
    pub role: Seq<char>,
    pub task: Seq<char>,
    pub deps: Seq<Seq<char>>,
    pub review: bool,
    pub status: StepStatus,
    pub result: Option<Seq<char>>,
    pub attempts: nat,
    pub review_cycles: nat,
}

/// What a plan holds.
pub struct PlanView {
    pub goal: Seq<char>,
    pub steps: Seq<StepView>,
}

impl View for Step {
    type V = StepView;

    open spec fn view(&self) -> StepView {
        StepView {
            id: self.id@,
            role: self.role@,
            task: self.task@,
            deps: t::texts(self.deps@),
            review: self.review,
            status: self.status,
            result: t::opt_view(self.result),
            attempts: self.attempts as nat,
            review_cycles: self.review_cycles as nat,
        }
    }
}

pub open spec fn step_views(v: Seq<Step>) -> Seq<StepView> {
    v.map_values(|s: Step| s@)
}

impl View for Plan {
    type V = PlanView;

    open spec fn view(&self) -> PlanView {
        PlanView { goal: self.goal@, steps: step_views(self.steps@) }
    }
}

impl PlanView {
    /// Whether some step with this id is done.
    pub open spec fn done(self, id: Seq<char>) -> bool {
        exists|j: int|
            0 <= j < self.steps.len() && (#[trigger] self.steps[j]).id == id && self.steps[j].status
                == StepStatus::Done
    }

    /// A step can run when it waits and everything it depends on is done.
    pub open spec fn runnable(self, s: StepView) -> bool {
        &&& s.status == StepStatus::Waiting
        &&& forall|k: int| 0 <= k < s.deps.len() ==> self.done(#[trigger] s.deps[k])
    }

    /// The runnable steps, in the order of the plan.
    pub open spec fn ready(self) -> Seq<StepView> {
        self.steps.filter(|s: StepView| self.runnable(s))
    }

    pub open spec fn complete(self) -> bool {
        forall|i: int| 0 <= i < self.steps.len() ==> (#[trigger] self.steps[i]).status == StepStatus::Done
    }

    pub open spec fn failed(self) -> bool {
        exists|i: int|
            0 <= i < self.steps.len() && (#[trigger] self.steps[i]).status == StepStatus::Failed
    }

    /// The position of the first step with this id, from position `i` on.
    pub open spec fn position_from(self, id: Seq<char>, i: int) -> Option<int>
        decreases self.steps.len() - i,
    {
        if i < 0 || i >= self.steps.len() {
            None
        } else if self.steps[i].id == id {
            Some(i)
        } else {
            self.position_from(id, i + 1)
        }
    }

    /// The position of the first step with this id.
    pub open spec fn position(self, id: Seq<char>) -> Option<int> {
        self.position_from(id, 0)
    }
}

/// A position that was found holds a step with that id.
pub proof fn lemma_position(p: PlanView, id: Seq<char>, i: int)
    requires
        0 <= i,
    ensures
        p.position_from(id, i) matches Some(k) ==> i <= k < p.steps.len() && p.steps[k].id == id,
        p.position_from(id, i) is None ==> forall|k: int|
            i <= k < p.steps.len() ==> (#[trigger] p.steps[k]).id != id,
    decreases p.steps.len() - i,
{
    if i < p.steps.len() && p.steps[i].id != id {
        lemma_position(p, id, i + 1);
    }
}

pub open spec fn step_refs(v: Seq<&Step>) -> Seq<StepView> {
    v.map_values(|s: &Step| s@)
}

impl Plan {
    fn is_done(&self, id: &str) -> (r: bool)
        ensures
            r == self@.done(id@),
    {
        let mut j: usize = 0;
        while j < self.steps.len()
            invariant
                j <= self.steps.len(),
                forall|k: int|
                    0 <= k < j ==> !((#[trigger] self@.steps[k]).id == id@ && self@.steps[k].status
                        == StepStatus::Done),
            decreases self.steps.len() - j,
        {
            assert(self@.steps[j as int] == self.steps@[j as int]@);
            if self.steps[j].status == StepStatus::Done && t::same(self.steps[j].id.as_str(), id) {
                return true;
            }
            j += 1;
        }
        false
    }

    fn is_runnable(&self, i: usize) -> (r: bool)
        requires
            i < self.steps.len(),
        ensures
            r == self@.runnable(self@.steps[i as int]),
    {
        let ghost view = self@.steps[i as int];
        assert(view == self.steps@[i as int]@);
        if self.steps[i].status != StepStatus::Waiting {
            return false;
        }
        let mut k: usize = 0;
        while k < self.steps[i].deps.len()
            invariant
                i < self.steps.len(),
                view == self.steps@[i as int]@,
                view.status == StepStatus::Waiting,
                k <= self.steps@[i as int].deps.len(),
                forall|m: int| 0 <= m < k ==> self@.done(#[trigger] view.deps[m]),
            decreases self.steps@[i as int].deps.len() - k,
        {
            assert(view.deps[k as int] == self.steps@[i as int].deps@[k as int]@);
            if !self.is_done(self.steps[i].deps[k].as_str()) {
                return false;
            }
            k += 1;
        }
        true
    }

    /// The steps that can run now: they wait, and what they depend on is done.
    pub fn ready_steps(&self) -> (r: Vec<&Step>)
        ensures
            step_refs(r@) == self@.ready(),
    {
        let mut r: Vec<&Step> = Vec::new();
        let ghost p = |s: StepView| self@.runnable(s);
        let mut i: usize = 0;
        assert(self@.steps.take(0).filter(p) =~= Seq::<StepView>::empty()) by {
            reveal(Seq::filter);
        }
        while i < self.steps.len()
            invariant
                i <= self.steps.len(),
                p == (|s: StepView| self@.runnable(s)),
                step_refs(r@) == self@.steps.take(i as int).filter(p),
            decreases self.steps.len() - i,
        {
            let ghost before = r@;
            proof {
                let t = self@.steps.take(i as int + 1);
                assert(t.drop_last() =~= self@.steps.take(i as int));
                assert(t.last() == self@.steps[i as int]);
                reveal(Seq::filter);
            }
            if self.is_runnable(i) {
                r.push(&self.steps[i]);
                assert(step_refs(r@) =~= step_refs(before).push(self@.steps[i as int]));
            }
            i += 1;
        }
        assert(self@.steps.take(self@.steps.len() as int) =~= self@.steps);
        r
    }

    pub fn is_complete(&self) -> (r: bool)
        ensures
            r == self@.complete(),
    {
        let mut i: usize = 0;
        while i < self.steps.len()
            invariant
                i <= self.steps.len(),
                forall|k: int| 0 <= k < i ==> (#[trigger] self@.steps[k]).status == StepStatus::Done,
            decreases self.steps.len() - i,
        {
            assert(self@.steps[i as int].status == self.steps@[i as int].status);
            if self.steps[i].status != StepStatus::Done {
                return false;
            }
            i += 1;
        }
        true
    }

    pub fn has_failure(&self) -> (r: bool)
        ensures
            r == self@.failed(),
    {
        let mut i: usize = 0;
        while i < self.steps.len()
            invariant
                i <= self.steps.len(),
                forall|k: int| 0 <= k < i ==> (#[trigger] self@.steps[k]).status != StepStatus::Failed,
            decreases self.steps.len() - i,
        {
            assert(self@.steps[i as int].status == self.steps@[i as int].status);
            if self.steps[i].status == StepStatus::Failed {
                return true;
            }
            i += 1;
        }
        false
    }

    /// The position of the first step with this id.
    pub fn find_step(&self, id: &str) -> (r: Option<usize>)
        ensures
            r is Some <==> self@.position(id@) is Some,
            r matches Some(k) ==> self@.position(id@) == Some(k as int) && k < self.steps.len(),
    {
        let mut i: usize = 0;
        while i < self.steps.len()
            invariant
                i <= self.steps.len(),
                self@.position(id@) == self@.position_from(id@, i as int),
            decreases self.steps.len() - i,
        {
            assert(self@.steps[i as int].id == self.steps@[i as int].id@);
            if t::same(self.steps[i].id.as_str(), id) {
                return Some(i);
            }
            i += 1;
        }
        None
    }
}

// ---------------------------------------------------------------------------
// Validation
// ---------------------------------------------------------------------------

/// The roles that a run can place.
#[derive(Debug, PartialEq, Eq)]
pub struct RoleRegistry {
    pub names: Vec<String>,
}

impl RoleRegistry {
    pub open spec fn knows(self, role: Seq<char>) -> bool {
        t::texts(self.names@).contains(role)
    }

    pub fn has_role(&self, role: &str) -> (r: bool)
        ensures
            r == self.knows(role@),
    {
        t::list_has(&self.names, role)
    }
}

/// Why a plan cannot be run.
#[derive(Debug, PartialEq, Eq)]
pub enum PlanError {
    /// The reply holds no JSON object.
    NoObject,
    /// The object has no list of steps, or a step lacks its id, role or task.
    Malformed,
    UnknownRole { step: usize },
    UnknownDependency { step: usize },
    Cycle,
}

impl PlanView {
    pub open spec fn role_known(self, registry: RoleRegistry, i: int) -> bool {
        registry.knows(self.steps[i].role)
    }

    pub open spec fn has_step(self, id: Seq<char>) -> bool {
        exists|j: int| 0 <= j < self.steps.len() && (#[trigger] self.steps[j]).id == id
    }

    pub open spec fn deps_known(self, i: int) -> bool {
        forall|k: int|
            0 <= k < self.steps[i].deps.len() ==> self.has_step(#[trigger] self.steps[i].deps[k])
    }

    /// Whether step `j` must come before step `i`.
    pub open spec fn needs(self, i: int, j: int) -> bool {
        self.steps[i].deps.contains(self.steps[j].id)
    }

    /// Whether the numbers put every step after the steps it depends on.
    pub open spec fn ordered_by(self, rank: Seq<int>) -> bool {
        &&& rank.len() == self.steps.len()
        &&& forall|i: int, j: int|
            0 <= i < self.steps.len() && 0 <= j < self.steps.len() && #[trigger] self.needs(i, j) ==> 0
                <= rank[j] < rank[i]
    }

    /// The dependencies admit an order in which every step comes after the
    /// steps it depends on.
    pub open spec fn acyclic(self) -> bool {
        exists|rank: Seq<int>| self.ordered_by(rank)
    }

    pub open spec fn roles_known(self, registry: RoleRegistry) -> bool {
        forall|i: int| 0 <= i < self.steps.len() ==> #[trigger] self.role_known(registry, i)
    }

    pub open spec fn all_deps_known(self) -> bool {
        forall|i: int| 0 <= i < self.steps.len() ==> #[trigger] self.deps_known(i)
    }

    /// Each role can be placed, each dependency is a step, and the
    /// dependencies have no cycle.
    pub open spec fn valid(self, registry: RoleRegistry) -> bool {
        self.roles_known(registry) && self.all_deps_known() && self.acyclic()
    }

    /// The first thing that is wrong with the plan: roles come before
    /// dependencies, and these before cycles; of the steps, the first counts.
    pub open spec fn refused_for(self, registry: RoleRegistry, e: PlanError) -> bool {
        match e {
            PlanError::UnknownRole { step } => {
                &&& step < self.steps.len()
                &&& !self.role_known(registry, step as int)
                &&& forall|i: int| 0 <= i < step ==> #[trigger] self.role_known(registry, i)
            },
            _ => self.roles_known(registry) && self.disordered_by(e),
        }
    }

    /// The first thing that is wrong with the dependencies.
    pub open spec fn disordered_by(self, e: PlanError) -> bool {
        match e {
            PlanError::UnknownDependency { step } => {
                &&& step < self.steps.len()
                &&& !self.deps_known(step as int)
                &&& forall|i: int| 0 <= i < step ==> #[trigger] self.deps_known(i)
            },
            PlanError::Cycle => self.all_deps_known() && !self.acyclic(),
            _ => false,
        }
    }
}

/// Among steps of which each waits for another one of them, none can have a
/// rank up to `k`.
proof fn lemma_no_rank(p: PlanView, rank: Seq<int>, settled: Seq<bool>, k: int)
    requires
        p.ordered_by(rank),
        settled.len() == p.steps.len(),
        forall|i: int|
            0 <= i < p.steps.len() && !(#[trigger] settled[i]) ==> exists|j: int|
                0 <= j < p.steps.len() && #[trigger] p.needs(i, j) && !settled[j],
    ensures
        forall|i: int| 0 <= i < p.steps.len() && !(#[trigger] settled[i]) ==> rank[i] > k,
    decreases k + 1,
{
    if k >= 0 {
        lemma_no_rank(p, rank, settled, k - 1);
    }
    assert forall|i: int| 0 <= i < p.steps.len() && !(#[trigger] settled[i]) implies rank[i] > k by {
        let j = choose|j: int| 0 <= j < p.steps.len() && #[trigger] p.needs(i, j) && !settled[j];
        assert(0 <= rank[j] < rank[i]);
        assert(!settled[j]);
        if k >= 0 {
            assert(rank[j] > k - 1);
        }
    }
}

impl Plan {
    /// Whether every step that step `i` depends on is settled.
    fn can_settle(&self, settled: &Vec<bool>, i: usize) -> (r: bool)
        requires
            i < self.steps.len(),
            settled.len() == self.steps.len(),
        ensures
            r == (forall|j: int|
                0 <= j < self@.steps.len() && #[trigger] self@.needs(i as int, j) ==> settled@[j]),
    {
        let mut j: usize = 0;
        while j < self.steps.len()
            invariant
                i < self.steps.len(),
                settled.len() == self.steps.len(),
                j <= self.steps.len(),
                forall|k: int| 0 <= k < j && #[trigger] self@.needs(i as int, k) ==> settled@[k],
            decreases self.steps.len() - j,
        {
            assert(self@.steps[i as int] == self.steps@[i as int]@);
            assert(self@.steps[j as int] == self.steps@[j as int]@);
            if !settled[j] && t::list_has(&self.steps[i].deps, self.steps[j].id.as_str()) {
                assert(self@.needs(i as int, j as int));
                return false;
            }
            j += 1;
        }
        true
    }

    /// Whether the steps can be put in an order that respects their
    /// dependencies.
    fn is_acyclic(&self) -> (r: bool)
        ensures
            r == self@.acyclic(),
    {
        let n: usize = self.steps.len();
        let mut settled: Vec<bool> = Vec::new();
        let ghost mut rank: Seq<int> = Seq::new(n as nat, |i: int| 0);
        let ghost mut clock: int = 0;
        let mut z: usize = 0;
        while z < n
            invariant
                z <= n,
                settled.len() == z,
                forall|i: int| 0 <= i < z ==> !settled@[i],
            decreases n - z,
        {
            settled.push(false);
            z += 1;
        }
        let mut left: usize = n;
        proof {
            lemma_all_unsettled(settled@);
        }
        while left > 0
            invariant
                n == self.steps.len(),
                unsettled(settled@) == left,
                consistent(self@, settled@, rank, clock),
            decreases left,
        {
            let before: usize = left;
            let ghost start = settled@;
            let mut i: usize = 0;
            while i < n
                invariant
                    n == self.steps.len(),
                    i <= n,
                    start.len() == n,
                    left <= before,
                    unsettled(settled@) == left,
                    consistent(self@, settled@, rank, clock),
                    left == before ==> settled@ == start,
                    left == before ==> stuck_up_to(self@, start, i as int),
                decreases n - i,
            {
                if !settled[i] && self.can_settle(&settled, i) {
                    proof {
                        lemma_settle(settled@, i as int);
                        lemma_extend(self@, settled@, rank, clock, i as int);
                        rank = rank.update(i as int, clock);
                        clock = clock + 1;
                    }
                    settled.set(i, true);
                    left = left - 1;
                }
                i += 1;
            }
            if left == before {
                proof {
                    lemma_stuck(self@, settled@);
                }
                return false;
            }
        }
        proof {
            lemma_none_unsettled(settled@);
            assert forall|i: int, j: int|
                0 <= i < n && 0 <= j < n && #[trigger] self@.needs(i, j) implies 0 <= rank[j] < rank[i] by {
                assert(settled@[i]);
                assert(settled@[j]);
            }
            assert(self@.ordered_by(rank));
        }
        true
    }
}

/// The settled steps are ranked below `clock`, after what they depend on,
/// which is settled too.
spec fn consistent(p: PlanView, settled: Seq<bool>, rank: Seq<int>, clock: int) -> bool {
    &&& settled.len() == p.steps.len()
    &&& rank.len() == p.steps.len()
    &&& clock >= 0
    &&& forall|i: int| 0 <= i < settled.len() && #[trigger] settled[i] ==> 0 <= rank[i] < clock
    &&& forall|i: int, j: int|
        0 <= i < settled.len() && 0 <= j < settled.len() && settled[i] && #[trigger] p.needs(i, j)
            ==> settled[j] && rank[j] < rank[i]
}

/// Each open step before `n` depends on an open step.
spec fn stuck_up_to(p: PlanView, settled: Seq<bool>, n: int) -> bool {
    forall|a: int|
        0 <= a < n && !(#[trigger] settled[a]) ==> exists|b: int|
            0 <= b < p.steps.len() && #[trigger] p.needs(a, b) && !settled[b]
}

/// Open steps that all depend on open steps admit no order.
proof fn lemma_stuck(p: PlanView, settled: Seq<bool>)
    requires
        settled.len() == p.steps.len(),
        unsettled(settled) > 0,
        stuck_up_to(p, settled, settled.len() as int),
    ensures
        !p.acyclic(),
{
    if p.acyclic() {
        let order = choose|order: Seq<int>| p.ordered_by(order);
        lemma_some_unsettled(settled);
        let a = choose|a: int| 0 <= a < settled.len() && !settled[a];
        lemma_no_rank(p, order, settled, if order[a] >= 0 { order[a] } else { 0 });
        assert(!settled[a]);
    }
}

proof fn lemma_extend(p: PlanView, settled: Seq<bool>, rank: Seq<int>, clock: int, i: int)
    requires
        consistent(p, settled, rank, clock),
        0 <= i < settled.len(),
        !settled[i],
        forall|j: int| 0 <= j < p.steps.len() && #[trigger] p.needs(i, j) ==> settled[j],
    ensures
        consistent(p, settled.update(i, true), rank.update(i, clock), clock + 1),
{
    let s = settled.update(i, true);
    let r = rank.update(i, clock);
    assert forall|a: int, b: int|
        0 <= a < s.len() && 0 <= b < s.len() && s[a] && #[trigger] p.needs(a, b) implies s[b] && r[b] < r[a] by {
        if a == i {
            assert(settled[b]);
        } else {
            assert(settled[a]);
            assert(settled[b]);
        }
    }
    assert forall|a: int| 0 <= a < s.len() && #[trigger] s[a] implies 0 <= r[a] < clock + 1 by {
        if a != i {
            assert(settled[a]);
        }
    }
}

/// How many entries are not settled.
spec fn unsettled(s: Seq<bool>) -> nat
    decreases s.len(),
{
    if s.len() == 0 {
        0
    } else {
        unsettled(s.drop_last()) + if s.last() {
            0nat
        } else {
            1
        }
    }
}

proof fn lemma_settle(s: Seq<bool>, i: int)
    requires
        0 <= i < s.len(),
        !s[i],
    ensures
        unsettled(s) > 0,
        unsettled(s.update(i, true)) == unsettled(s) - 1,
    decreases s.len(),
{
    let u = s.update(i, true);
    if i == s.len() - 1 {
        assert(u.drop_last() =~= s.drop_last());
    } else {
        lemma_settle(s.drop_last(), i);
        assert(u.drop_last() =~= s.drop_last().update(i, true));
    }
}

proof fn lemma_none_unsettled(s: Seq<bool>)
    requires
        unsettled(s) == 0,
    ensures
        forall|i: int| 0 <= i < s.len() ==> s[i],
    decreases s.len(),
{
    if s.len() > 0 {
        lemma_none_unsettled(s.drop_last());
        assert forall|i: int| 0 <= i < s.len() implies s[i] by {
            if i < s.len() - 1 {
                assert(s.drop_last()[i]);
            }
        }
    }
}

proof fn lemma_some_unsettled(s: Seq<bool>)
    requires
        unsettled(s) > 0,
    ensures
        exists|i: int| 0 <= i < s.len() && !s[i],
    decreases s.len(),
{
    if s.last() {
        lemma_some_unsettled(s.drop_last());
        let i = choose|i: int| 0 <= i < s.drop_last().len() && !s.drop_last()[i];
        assert(!s[i]);
    } else {
        assert(!s[s.len() - 1]);
    }
}

/// All entries open means that many are unsettled.
proof fn lemma_all_unsettled(s: Seq<bool>)
    requires
        forall|i: int| 0 <= i < s.len() ==> !s[i],
    ensures
        unsettled(s) == s.len(),
    decreases s.len(),
{
    if s.len() > 0 {
        assert forall|i: int| 0 <= i < s.drop_last().len() implies !s.drop_last()[i] by {
            assert(!s[i]);
        }
        lemma_all_unsettled(s.drop_last());
        assert(!s[s.len() - 1]);
    }
}

impl Plan {
    /// Checks that each role can be placed, that each dependency is a step of
    /// the plan, and that the dependencies have no cycle.
    pub fn validate(&self, registry: &RoleRegistry) -> (r: Result<(), PlanError>)
        ensures
            match r {
                Ok(()) => self@.valid(*registry),
                Err(e) => self@.refused_for(*registry, e),
            },
    {
        let mut i: usize = 0;
        while i < self.steps.len()
            invariant
                i <= self.steps.len(),
                forall|k: int| 0 <= k < i ==> #[trigger] self@.role_known(*registry, k),
            decreases self.steps.len() - i,
        {
            assert(self@.steps[i as int] == self.steps@[i as int]@);
            if !registry.has_role(self.steps[i].role.as_str()) {
                assert(!self@.role_known(*registry, i as int));
                return Err(PlanError::UnknownRole { step: i });
            }
            i += 1;
        }
        self.check_order()
    }

    /// Checks that each dependency is a step of the plan, and that the
    /// dependencies have no cycle.
    pub fn check_order(&self) -> (r: Result<(), PlanError>)
        ensures
            match r {
                Ok(()) => self@.all_deps_known() && self@.acyclic(),
                Err(e) => self@.disordered_by(e),
            },
    {
        let mut j: usize = 0;
        while j < self.steps.len()
            invariant
                j <= self.steps.len(),
                forall|k: int| 0 <= k < j ==> #[trigger] self@.deps_known(k),
            decreases self.steps.len() - j,
        {
            assert(self@.steps[j as int] == self.steps@[j as int]@);
            let mut k: usize = 0;
            while k < self.steps[j].deps.len()
                invariant
                    j < self.steps.len(),
                    k <= self.steps@[j as int].deps.len(),
                        self@.steps[j as int] == self.steps@[j as int]@,
                    forall|m: int| 0 <= m < j ==> #[trigger] self@.deps_known(m),
                    forall|m: int|
                        0 <= m < k ==> self@.has_step(#[trigger] self@.steps[j as int].deps[m]),
                decreases self.steps@[j as int].deps.len() - k,
            {
                assert(self@.steps[j as int].deps[k as int] == self.steps@[j as int].deps@[k as int]@);
                proof {
                    lemma_position(self@, self@.steps[j as int].deps[k as int], 0);
                }
                if self.find_step(self.steps[j].deps[k].as_str()).is_none() {
                    assert(!self@.has_step(self@.steps[j as int].deps[k as int]));
                    assert(!self@.deps_known(j as int));
                    return Err(PlanError::UnknownDependency { step: j });
                }
                k += 1;
            }
            assert(self@.deps_known(j as int));
            j += 1;
        }
        if self.is_acyclic() {
            Ok(())
        } else {
            Err(PlanError::Cycle)
        }
    }

    /// What the steps that a step depends on have produced, each under its id.
    pub fn dependency_context(&self, step: &Step) -> (r: String)
        ensures
            r@ == self@.context(step@.deps),
    {
        let mut out = String::new();
        let mut k: usize = 0;
        while k < step.deps.len()
            invariant
                k <= step.deps.len(),
                out@ == self@.context(step@.deps.take(k as int)),
            decreases step.deps.len() - k,
        {
            proof {
                let d = step@.deps;
                assert(d.take(k as int + 1).drop_last() =~= d.take(k as int));
                assert(d.take(k as int + 1).last() == step.deps@[k as int]@);
                lemma_position(self@, step.deps@[k as int]@, 0);
            }
            match self.find_step(step.deps[k].as_str()) {
                Some(i) => {
                    assert(self@.steps[i as int] == self.steps@[i as int]@);
                    match &self.steps[i].result {
                        Some(result) => {
                            out.append("\n## ");
                            out.append(step.deps[k].as_str());
                            out.append("\n");
                            out.append(result.as_str());
                            out.append("\n");
                        },
                        None => {},
                    }
                },
                None => {},
            }
            k += 1;
        }
        assert(step@.deps.take(step@.deps.len() as int) =~= step@.deps);
        out
    }
}

impl PlanView {
    /// The results of the named steps, in order, each under its id; a step
    /// without a result adds nothing.
    pub open spec fn context(self, ids: Seq<Seq<char>>) -> Seq<char>
        decreases ids.len(),
    {
        if ids.len() == 0 {
            Seq::empty()
        } else {
            let before = self.context(ids.drop_last());
            match self.position(ids.last()) {
                Some(i) => match self.steps[i].result {
                    Some(result) => before + "\n## "@ + ids.last() + "\n"@ + result + "\n"@,
                    None => before,
                },
                None => before,
            }
        }
    }
}

/// An id that no step has leaves the plan invalid.
pub proof fn law_dangling_dependency_is_invalid(p: PlanView, registry: RoleRegistry, i: int, k: int)
    requires
        0 <= i < p.steps.len(),
        0 <= k < p.steps[i].deps.len(),
        !p.has_step(p.steps[i].deps[k]),
    ensures
        !p.valid(registry),
{
    assert(!p.deps_known(i));
}

/// Two steps that wait for each other leave the plan invalid.
pub proof fn law_mutual_dependency_is_invalid(p: PlanView, registry: RoleRegistry, i: int, j: int)
    requires
        0 <= i < p.steps.len(),
        0 <= j < p.steps.len(),
        p.needs(i, j),
        p.needs(j, i),
    ensures
        !p.valid(registry),
{
    if p.acyclic() {
        let rank = choose|rank: Seq<int>| p.ordered_by(rank);
        assert(rank[i] < rank[j]);
        assert(rank[j] < rank[i]);
    }
}

/// A ready step waits, is part of the plan, and has every dependency done.
pub proof fn law_ready_steps_have_their_dependencies_done(p: PlanView, k: int)
    requires
        0 <= k < p.ready().len(),
    ensures
        p.runnable(p.ready()[k]),
        p.steps.contains(p.ready()[k]),
{
    let pred = |s: StepView| p.runnable(s);
    p.steps.lemma_filter_pred(pred, k);
    assert(pred(p.ready()[k]));
    assert(p.steps.filter(pred).contains(p.ready()[k]));
    p.steps.lemma_filter_contains_rev(pred, p.ready()[k]);
}

/// As long as a valid plan has waiting steps and none of its steps runs or
/// has failed, a step is ready: the plan cannot get stuck.
pub proof fn law_valid_plan_never_stalls(p: PlanView, registry: RoleRegistry)
    requires
        p.valid(registry),
        !p.complete(),
        forall|i: int| 0 <= i < p.steps.len() ==> (#[trigger] p.steps[i]).status == StepStatus::Waiting
            || p.steps[i].status == StepStatus::Done,
    ensures
        p.ready().len() > 0,
{
    let rank = choose|rank: Seq<int>| p.ordered_by(rank);
    let w = choose|i: int| 0 <= i < p.steps.len() && (#[trigger] p.steps[i]).status != StepStatus::Done;
    lemma_least_waiting(p, rank, w);
}

/// Going down in rank from a waiting step, one reaches a step that can run.
proof fn lemma_least_waiting(p: PlanView, rank: Seq<int>, w: int)
    requires
        p.ordered_by(rank),
        p.all_deps_known(),
        0 <= w < p.steps.len(),
        p.steps[w].status == StepStatus::Waiting,
        forall|i: int| 0 <= i < p.steps.len() ==> (#[trigger] p.steps[i]).status == StepStatus::Waiting
            || p.steps[i].status == StepStatus::Done,
    ensures
        p.ready().len() > 0,
    decreases rank[w],
{
    if p.runnable(p.steps[w]) {
        let pred = |s: StepView| p.runnable(s);
        assert(pred(p.steps[w]));
        p.steps.lemma_filter_contains(pred, w);
        assert(p.steps.filter(pred).contains(p.steps[w]));
    } else {
        let k = choose|k: int| 0 <= k < p.steps[w].deps.len() && !p.done(#[trigger] p.steps[w].deps[k]);
        assert(p.deps_known(w));
        let d = p.steps[w].deps[k];
        assert(p.has_step(d));
        let j = choose|j: int| 0 <= j < p.steps.len() && (#[trigger] p.steps[j]).id == d;
        assert(p.steps[j].status == StepStatus::Waiting);
        assert(p.needs(w, j));
        lemma_least_waiting(p, rank, j);
    }
}

// ---------------------------------------------------------------------------
// Changes to a step
// ---------------------------------------------------------------------------

impl PlanView {
    /// The plan with the first step of this id replaced.
    pub open spec fn with_step(self, id: Seq<char>, change: spec_fn(StepView) -> StepView) -> PlanView {
        match self.position(id) {
            Some(i) => PlanView { goal: self.goal, steps: self.steps.update(i, change(self.steps[i])) },
            None => self,
        }
    }

    pub open spec fn with_status(self, id: Seq<char>, status: StepStatus) -> PlanView {
        self.with_step(id, |s: StepView| StepView { status, ..s })
    }

    /// The step runs, and one more attempt is counted.
    pub open spec fn with_attempt(self, id: Seq<char>) -> PlanView {
        self.with_step(
            id,
            |s: StepView|
                StepView {
                    status: StepStatus::Running,
                    attempts: if s.attempts < u32::MAX {
                        s.attempts + 1
                    } else {
                        s.attempts
                    },
                    ..s
                },
        )
    }

    pub open spec fn with_cycles(self, id: Seq<char>, review_cycles: nat) -> PlanView {
        self.with_step(id, |s: StepView| StepView { review_cycles, ..s })
    }

    /// The step is done, with this result.
    pub open spec fn with_result(self, id: Seq<char>, result: Seq<char>) -> PlanView {
        self.with_step(id, |s: StepView| StepView { status: StepStatus::Done, result: Some(result), ..s })
    }

    /// How many of the first `n` steps are done.
    pub open spec fn done_among(self, n: int) -> nat
        decreases n,
    {
        if n <= 0 || n > self.steps.len() {
            0
        } else {
            self.done_among(n - 1) + if self.steps[n - 1].status == StepStatus::Done {
                1nat
            } else {
                0
            }
        }
    }

    pub open spec fn done_count(self) -> nat {
        self.done_among(self.steps.len() as int)
    }
}

impl Plan {
    pub fn set_status(&mut self, id: &str, status: StepStatus)
        ensures
            final(self)@ == old(self)@.with_status(id@, status),
    {
        match self.find_step(id) {
            Some(i) => {
                let ghost before = self@;
                self.steps[i].status = status;
                assert(self@.steps =~= before.steps.update(
                    i as int,
                    StepView { status, ..before.steps[i as int] },
                ));
            },
            None => {},
        }
    }

    pub fn start_attempt(&mut self, id: &str)
        ensures
            final(self)@ == old(self)@.with_attempt(id@),
    {
        match self.find_step(id) {
            Some(i) => {
                let ghost before = self@;
                let attempts: u32 = self.steps[i].attempts;
                self.steps[i].status = StepStatus::Running;
                if attempts < u32::MAX {
                    self.steps[i].attempts = attempts + 1;
                }
                assert(before.steps[i as int].attempts == attempts);
                assert(self@.steps =~= before.with_attempt(id@).steps);
            },
            None => {},
        }
    }

    pub fn set_cycles(&mut self, id: &str, cycles: u32)
        ensures
            final(self)@ == old(self)@.with_cycles(id@, cycles as nat),
    {
        match self.find_step(id) {
            Some(i) => {
                let ghost before = self@;
                self.steps[i].review_cycles = cycles;
                assert(self@.steps =~= before.with_cycles(id@, cycles as nat).steps);
            },
            None => {},
        }
    }

    pub fn set_result(&mut self, id: &str, result: String)
        ensures
            final(self)@ == old(self)@.with_result(id@, result@),
    {
        match self.find_step(id) {
            Some(i) => {
                let ghost before = self@;
                self.steps[i].result = Some(result);
                self.steps[i].status = StepStatus::Done;
                assert(self@.steps =~= before.with_result(id@, result@).steps);
            },
            None => {},
        }
    }

    pub fn count_done(&self) -> (r: usize)
        ensures
            r == self@.done_count(),
            r <= self.steps.len(),
    {
        let mut n: usize = 0;
        let mut i: usize = 0;
        while i < self.steps.len()
            invariant
                i <= self.steps.len(),
                n == self@.done_among(i as int),
                n <= i,
            decreases self.steps.len() - i,
        {
            assert(self@.steps[i as int].status == self.steps@[i as int].status);
            if self.steps[i].status == StepStatus::Done {
                n += 1;
            }
            i += 1;
        }
        n
    }
}

/// Two refusals of one plan are the same.
pub proof fn lemma_one_refusal(p: PlanView, registry: RoleRegistry, a: PlanError, b: PlanError)
    requires
        p.refused_for(registry, a),
        p.refused_for(registry, b),
    ensures
        a == b,
{
    match (a, b) {
        (PlanError::UnknownRole { step: i }, PlanError::UnknownRole { step: j }) => {
            if i < j {
                assert(p.role_known(registry, i as int));
            }
            if j < i {
                assert(p.role_known(registry, j as int));
            }
        },
        (PlanError::UnknownDependency { step: i }, PlanError::UnknownDependency { step: j }) => {
            if i < j {
                assert(p.deps_known(i as int));
            }
            if j < i {
                assert(p.deps_known(j as int));
            }
        },
        (PlanError::UnknownRole { step: i }, _) => {
            assert(!p.role_known(registry, i as int));
        },
        (_, PlanError::UnknownRole { step: j }) => {
            assert(!p.role_known(registry, j as int));
        },
        (PlanError::UnknownDependency { step: i }, _) => {
            assert(!p.deps_known(i as int));
        },
        (_, PlanError::UnknownDependency { step: j }) => {
            assert(!p.deps_known(j as int));
        },
        _ => {},
    }
}

/// The changes that a run makes to a step touch no other step.
pub proof fn lemma_changes_are_local(p: PlanView, id: Seq<char>, status: StepStatus, n: nat, text: Seq<char>, i: int)
    requires
        0 <= i < p.steps.len(),
        p.steps[i].id != id,
    ensures
        p.with_status(id, status).steps.len() == p.steps.len(),
        p.with_status(id, status).steps[i] == p.steps[i],
        p.with_attempt(id).steps.len() == p.steps.len(),
        p.with_attempt(id).steps[i] == p.steps[i],
        p.with_cycles(id, n).steps.len() == p.steps.len(),
        p.with_cycles(id, n).steps[i] == p.steps[i],
        p.with_result(id, text).steps.len() == p.steps.len(),
        p.with_result(id, text).steps[i] == p.steps[i],
{
    lemma_position(p, id, 0);
}

/// Two defects of one plan's order are the same.
pub proof fn lemma_one_disorder(p: PlanView, a: PlanError, b: PlanError)
    requires
        p.disordered_by(a),
        p.disordered_by(b),
    ensures
        a == b,
{
    match (a, b) {
        (PlanError::UnknownDependency { step: i }, PlanError::UnknownDependency { step: j }) => {
            if i < j {
                assert(p.deps_known(i as int));
            }
            if j < i {
                assert(p.deps_known(j as int));
            }
        },
        (PlanError::UnknownDependency { step: i }, _) => {
            assert(!p.deps_known(i as int));
        },
        (_, PlanError::UnknownDependency { step: j }) => {
            assert(!p.deps_known(j as int));
        },
        _ => {},
    }
}

impl PlanView {
    /// What is wrong with the order of the steps, if anything is.
    pub open spec fn disorder(self) -> Option<PlanError> {
        if self.all_deps_known() && self.acyclic() {
            None
        } else {
            Some(choose|e: PlanError| self.disordered_by(e))
        }
    }
}

impl Plan {
    pub fn find_disorder(&self) -> (r: Option<PlanError>)
        ensures
            r == self@.disorder(),
    {
        match self.check_order() {
            Ok(()) => None,
            Err(e) => {
                proof {
                    let other = choose|e: PlanError| self@.disordered_by(e);
                    lemma_one_disorder(self@, e, other);
                    match e {
                        PlanError::UnknownDependency { step } => {
                            assert(!self@.deps_known(step as int));
                        },
                        _ => {},
                    }
                }
                Some(e)
            },
        }
    }
}

/// Changing a step changes the first step of that id and nothing else; where no
/// step has the id, nothing changes.
pub proof fn law_only_the_named_step_changes(p: PlanView, id: Seq<char>, change: spec_fn(StepView) -> StepView, i: int)
    requires
        0 <= i < p.steps.len(),
        p.steps[i].id == id,
        forall|j: int| 0 <= j < i ==> (#[trigger] p.steps[j]).id != id,
    ensures
        p.position(id) == Some(i),
        p.with_step(id, change).goal == p.goal,
        p.with_step(id, change).steps.len() == p.steps.len(),
        p.with_step(id, change).steps[i] == change(p.steps[i]),
        forall|j: int| 0 <= j < p.steps.len() && j != i ==> #[trigger] p.with_step(id, change).steps[j] == p.steps[j],
{
    lemma_first_step(p, id, 0, i);
}

proof fn lemma_first_step(p: PlanView, id: Seq<char>, a: int, i: int)
    requires
        0 <= a <= i < p.steps.len(),
        p.steps[i].id == id,
        forall|j: int| a <= j < i ==> (#[trigger] p.steps[j]).id != id,
    ensures
        p.position_from(id, a) == Some(i),
    decreases i - a,
{
    if a < i {
        lemma_first_step(p, id, a + 1, i);
    }
}

/// What is set on a step is what it then has: its status, its result, that it is
/// being tried once more, and its rounds of review; the rest of it stays.
pub proof fn law_what_is_set_on_a_step_is_what_it_has(
    p: PlanView,
    id: Seq<char>,
    i: int,
    status: StepStatus,
    result: Seq<char>,
    cycles: nat,
)
    requires
        0 <= i < p.steps.len(),
        p.steps[i].id == id,
        forall|j: int| 0 <= j < i ==> (#[trigger] p.steps[j]).id != id,
    ensures
        ({
            let s = p.steps[i];
            let a = p.with_status(id, status).steps[i];
            let b = p.with_result(id, result).steps[i];
            let c = p.with_attempt(id).steps[i];
            let d = p.with_cycles(id, cycles).steps[i];
            &&& a.status == status && a.result == s.result && a.attempts == s.attempts && a.id == s.id && a.task == s.task
                && a.deps == s.deps && a.role == s.role && a.review == s.review && a.review_cycles == s.review_cycles
            &&& b.status == StepStatus::Done && b.result == Some(result) && b.attempts == s.attempts && b.id == s.id
                && b.task == s.task && b.deps == s.deps && b.review_cycles == s.review_cycles
            &&& c.status == StepStatus::Running && c.result == s.result && c.id == s.id && (s.attempts < u32::MAX
                ==> c.attempts == s.attempts + 1)
            &&& d.review_cycles == cycles && d.status == s.status && d.result == s.result && d.attempts == s.attempts
        }),
{
    lemma_first_step(p, id, 0, i);
}

/// The steps that are done are counted.
pub proof fn law_the_steps_that_are_done_are_counted(p: PlanView)
    ensures
        p.done_count() == p.steps.filter(|s: StepView| s.status == StepStatus::Done).len(),
{
    lemma_done_among(p, p.steps.len() as int);
    assert(p.steps.take(p.steps.len() as int) =~= p.steps);
}

proof fn lemma_done_among(p: PlanView, n: int)
    requires
        0 <= n <= p.steps.len(),
    ensures
        p.done_among(n) == p.steps.take(n).filter(|s: StepView| s.status == StepStatus::Done).len(),
    decreases n,
{
    reveal(Seq::filter);
    if n > 0 {
        lemma_done_among(p, n - 1);
        assert(p.steps.take(n).drop_last() =~= p.steps.take(n - 1));
        assert(p.steps.take(n).last() == p.steps[n - 1]);
    } else {
        assert(p.steps.take(0).len() == 0);
    }
}

/// A step is given the result of every step it depends on, under its id; one that
/// has no result yet adds nothing.
pub proof fn law_a_step_is_given_the_results_it_needs(p: PlanView, ids: Seq<Seq<char>>, id: Seq<char>, i: int)
    requires
        0 <= i < p.steps.len(),
        p.steps[i].id == id,
        forall|j: int| 0 <= j < i ==> (#[trigger] p.steps[j]).id != id,
    ensures
        p.steps[i].result matches Some(r) ==> p.context(ids.push(id)) == p.context(ids) + "\n## "@ + id + "\n"@ + r
            + "\n"@,
        p.steps[i].result is None ==> p.context(ids.push(id)) == p.context(ids),
        p.context(Seq::empty()).len() == 0,
{
    lemma_first_step(p, id, 0, i);
    assert(ids.push(id).drop_last() =~= ids);
    assert(ids.push(id).last() == id);
}

/// A step may run when it waits and each step it needs is done, and only then.
pub proof fn law_a_step_runs_when_nothing_holds_it(p: PlanView, s: StepView)
    ensures
        s.status != StepStatus::Waiting ==> !p.runnable(s),
        s.status == StepStatus::Waiting && s.deps.len() == 0 ==> p.runnable(s),
        s.deps.len() > 0 && (forall|j: int|
            0 <= j < p.steps.len() && (#[trigger] p.steps[j]).id == s.deps[0] ==> p.steps[j].status != StepStatus::Done)
            ==> !p.runnable(s),
        (exists|i: int| 0 <= i < p.steps.len() && (#[trigger] p.steps[i]).status != StepStatus::Done) ==> !p.complete(),
        (forall|i: int| 0 <= i < p.steps.len() ==> (#[trigger] p.steps[i]).status == StepStatus::Done) ==> p.complete()
            && !p.failed(),
        (exists|i: int| 0 <= i < p.steps.len() && (#[trigger] p.steps[i]).status == StepStatus::Failed) ==> p.failed(),
{
    if p.runnable(s) && s.deps.len() > 0 {
        assert(p.done(s.deps[0]));
    }
}

/// A plan with a role that nobody has, or with a step that needs itself, cannot
/// be run; a plan of known roles whose steps need nothing can.
pub proof fn law_a_plan_of_known_roles_can_be_run(p: PlanView, registry: RoleRegistry, i: int)
    requires
        0 <= i < p.steps.len(),
    ensures
        !t::texts(registry.names@).contains(p.steps[i].role) ==> !p.valid(registry),
        p.steps[i].deps.contains(p.steps[i].id) ==> !p.valid(registry),
        (forall|k: int|
            0 <= k < p.steps.len() ==> t::texts(registry.names@).contains((#[trigger] p.steps[k]).role)
                && p.steps[k].deps.len() == 0) ==> p.valid(registry),
{
    if !t::texts(registry.names@).contains(p.steps[i].role) {
        assert(!p.role_known(registry, i));
    }
    if p.steps[i].deps.contains(p.steps[i].id) && p.acyclic() {
        let rank = choose|rank: Seq<int>| p.ordered_by(rank);
        assert(p.needs(i, i));
    }
    if forall|k: int|
        0 <= k < p.steps.len() ==> t::texts(registry.names@).contains((#[trigger] p.steps[k]).role)
            && p.steps[k].deps.len() == 0 {
        let rank = Seq::new(p.steps.len(), |k: int| 0int);
        assert forall|a: int, b: int|
            0 <= a < p.steps.len() && 0 <= b < p.steps.len() && #[trigger] p.needs(a, b) implies 0 <= rank[b]
            < rank[a] by {
            assert(p.steps[a].deps.len() == 0);
        }
        assert(p.ordered_by(rank));
        assert forall|k: int| 0 <= k < p.steps.len() implies #[trigger] p.role_known(registry, k) by {
            assert(t::texts(registry.names@).contains(p.steps[k].role));
        }
        assert forall|k: int| 0 <= k < p.steps.len() implies #[trigger] p.deps_known(k) by {
            assert(p.steps[k].deps.len() == 0);
        }
    }
}

} // verus!
