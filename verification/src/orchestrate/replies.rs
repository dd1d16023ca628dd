//! How the replies of the agents in a run are read, and what the agents are
//! asked.

use crate::json;
use crate::json::{parse_json, Json, Tree};
use crate::orchestrate::plan;
use crate::orchestrate::plan::{Plan, PlanError, PlanView, RoleRegistry, Step, StepStatus, StepView};
use crate::text as t;
use vstd::prelude::*;
use vstd::string::*;

verus! {

// ---------------------------------------------------------------------------
// Reviews
// ---------------------------------------------------------------------------

/// What a review said of a result.
#[derive(Debug, PartialEq, Eq)]
pub enum ReviewVerdict {
    Approve,
    Revise(String),
    Unclear,
}

pub enum VerdictView {
    Approve,
    Revise(Seq<char>),
    Unclear,
}

impl View for ReviewVerdict {
    type V = VerdictView;

    open spec fn view(&self) -> VerdictView {
        match self {
            ReviewVerdict::Approve => VerdictView::Approve,
            ReviewVerdict::Revise(feedback) => VerdictView::Revise(feedback@),
            ReviewVerdict::Unclear => VerdictView::Unclear,
        }
    }
}

/// A reply approves by its marker; failing that, it asks for a revision by the
/// other marker, and what follows that marker is the feedback.
pub open spec fn review_of(reply: Seq<char>) -> VerdictView {
    if t::has(reply, "[[REVIEW: APPROVE]]"@) {
        VerdictView::Approve
    } else {
        match t::cut(reply, "[[REVIEW: REVISE]]"@) {
            Some((_, after)) => VerdictView::Revise(t::trimmed(after)),
            None => VerdictView::Unclear,
        }
    }
}

pub fn parse_review(reply: &str) -> (r: ReviewVerdict)
    ensures
        r@ == review_of(reply@),
{
    if t::contains(reply, "[[REVIEW: APPROVE]]") {
        return ReviewVerdict::Approve;
    }
    match t::split_once(reply, "[[REVIEW: REVISE]]") {
        Some((_, after)) => ReviewVerdict::Revise(t::trim(after.as_str())),
        None => ReviewVerdict::Unclear,
    }
}

// ---------------------------------------------------------------------------
// JSON objects inside prose
// ---------------------------------------------------------------------------

/// The position of the last `c` before position `n`.
pub open spec fn last_char(s: Seq<char>, c: char, n: int) -> Option<int>
    decreases n,
{
    if n <= 0 || n > s.len() {
        None
    } else if s[n - 1] == c {
        Some(n - 1)
    } else {
        last_char(s, c, n - 1)
    }
}

/// The text from the first opening brace to the last closing brace.
pub open spec fn object_text(s: Seq<char>) -> Option<Seq<char>> {
    match (t::next_char(s, '{', 0), last_char(s, '}', s.len() as int)) {
        (Some(a), Some(b)) => if a < b {
            Some(s.subrange(a, b + 1))
        } else {
            None
        },
        _ => None,
    }
}

pub fn find_object(s: &str) -> (r: Option<String>)
    ensures
        t::opt_view(r) == object_text(s@),
{
    let v = t::chars_of(s);
    let mut a: usize = 0;
    while a < v.len() && v[a] != '{'
        invariant
            v@ == s@,
            a <= v.len(),
            t::next_char(s@, '{', 0) == t::next_char(s@, '{', a as int),
        decreases v.len() - a,
    {
        a += 1;
    }
    if a == v.len() {
        return None;
    }
    let mut n: usize = v.len();
    while n > 0 && v[n - 1] != '}'
        invariant
            v@ == s@,
            n <= v.len(),
            last_char(s@, '}', s@.len() as int) == last_char(s@, '}', n as int),
        decreases n,
    {
        n -= 1;
    }
    if n == 0 || a >= n - 1 {
        return None;
    }
    Some(t::string_of(&v, a, n))
}

/// The JSON object that a reply holds among other text.
pub open spec fn object_in(reply: Seq<char>) -> Option<Tree> {
    match object_text(reply) {
        Some(s) => json::parsed_json(s),
        None => None,
    }
}

pub fn read_object(reply: &str) -> (r: Option<Json>)
    ensures
        r is Some <==> object_in(reply@) is Some,
        r matches Some(j) ==> object_in(reply@) == Some(j@),
{
    match find_object(reply) {
        Some(s) => parse_json(s.as_str()),
        None => None,
    }
}

// ---------------------------------------------------------------------------
// Plans
// ---------------------------------------------------------------------------

/// The texts of a list in which every entry is one.
pub open spec fn all_texts(v: Seq<Tree>) -> Option<Seq<Seq<char>>> {
    if forall|i: int| 0 <= i < v.len() ==> (#[trigger] v[i]).text() is Some {
        Some(v.map_values(|x: Tree| x.text()->0))
    } else {
        None
    }
}

pub open spec fn deps_in(step: Tree) -> Option<Seq<Seq<char>>> {
    match step.get("deps"@) {
        None => Some(Seq::empty()),
        Some(Tree::List(v)) => all_texts(v),
        Some(_) => None,
    }
}

pub open spec fn review_in(step: Tree) -> Option<bool> {
    match step.get("review"@) {
        None => Some(false),
        Some(x) => x.truth(),
    }
}

/// A step as the coordinator writes it: an id, a role and a task, and where
/// they are given its dependencies and whether it is reviewed.
pub open spec fn step_in(x: Tree) -> Option<StepView> {
    match (x.text_at("id"@), x.text_at("role"@), x.text_at("task"@), deps_in(x), review_in(x)) {
        (Some(id), Some(role), Some(task), Some(deps), Some(review)) => Some(
            StepView {
                id,
                role,
                task,
                deps,
                review,
                status: StepStatus::Waiting,
                result: None,
                attempts: 0,
                review_cycles: 0,
            },
        ),
        _ => None,
    }
}

pub open spec fn steps_in(x: Tree) -> Option<Seq<StepView>> {
    match x.items_at("steps"@) {
        Some(v) => if forall|i: int| 0 <= i < v.len() ==> step_in(#[trigger] v[i]) is Some {
            Some(v.map_values(|y: Tree| step_in(y)->0))
        } else {
            None
        },
        None => None,
    }
}

fn read_texts(v: &Vec<Json>) -> (r: Option<Vec<String>>)
    ensures
        r is Some <==> all_texts(json::trees(v@)) is Some,
        r matches Some(w) ==> all_texts(json::trees(v@)) == Some(t::texts(w@)),
{
    let ghost all = json::trees(v@);
    let mut out: Vec<String> = Vec::new();
    let mut i: usize = 0;
    while i < v.len()
        invariant
            i <= v.len(),
            all == json::trees(v@),
            out.len() == i,
            forall|k: int| 0 <= k < i ==> (#[trigger] all[k]).text() == Some(out@[k]@),
        decreases v.len() - i,
    {
        assert(all[i as int] == v@[i as int]@);
        match v[i].text() {
            Some(s) => {
                out.push(s);
            },
            None => {
                return None;
            },
        }
        i += 1;
    }
    assert(t::texts(out@) =~= all.map_values(|x: Tree| x.text()->0));
    Some(out)
}

fn read_deps(x: &Json) -> (r: Option<Vec<String>>)
    ensures
        r is Some <==> deps_in(x@) is Some,
        r matches Some(w) ==> deps_in(x@) == Some(t::texts(w@)),
{
    match x.get("deps") {
        None => {
            let out: Vec<String> = Vec::new();
            assert(t::texts(out@) =~= Seq::empty());
            Some(out)
        },
        Some(j) => match j.items() {
            Some(v) => read_texts(v),
            None => None,
        },
    }
}

fn read_step(x: &Json) -> (r: Option<Step>)
    ensures
        r is Some <==> step_in(x@) is Some,
        r matches Some(s) ==> step_in(x@) == Some(s@),
{
    let review = match x.get("review") {
        None => Some(false),
        Some(j) => j.truth(),
    };
    match (x.text_at("id"), x.text_at("role"), x.text_at("task"), read_deps(x), review) {
        (Some(id), Some(role), Some(task), Some(deps), Some(review)) => Some(
            Step {
                id,
                role,
                task,
                deps,
                review,
                status: StepStatus::Waiting,
                result: None,
                attempts: 0,
                review_cycles: 0,
            },
        ),
        _ => None,
    }
}

fn read_steps(x: &Json) -> (r: Option<Vec<Step>>)
    ensures
        r is Some <==> steps_in(x@) is Some,
        r matches Some(v) ==> steps_in(x@) == Some(plan::step_views(v@)),
{
    match x.items_at("steps") {
        None => None,
        Some(v) => {
            let ghost all = json::trees(v@);
            let mut out: Vec<Step> = Vec::new();
            let mut i: usize = 0;
            while i < v.len()
                invariant
                    i <= v.len(),
                    all == json::trees(v@),
                    x@.items_at("steps"@) == Some(all),
                    out.len() == i,
                    forall|k: int| 0 <= k < i ==> step_in(#[trigger] all[k]) == Some(out@[k]@),
                decreases v.len() - i,
            {
                assert(all[i as int] == v@[i as int]@);
                match read_step(&v[i]) {
                    Some(s) => {
                        out.push(s);
                    },
                    None => {
                        return None;
                    },
                }
                i += 1;
            }
            assert(plan::step_views(out@) =~= all.map_values(|y: Tree| step_in(y)->0));
            Some(out)
        },
    }
}

/// What reading a plan out of an object must give.
pub open spec fn plan_outcome(
    goal: Seq<char>,
    object: Tree,
    registry: RoleRegistry,
    r: Result<Plan, PlanError>,
) -> bool {
    match steps_in(object) {
        None => r == Err::<Plan, PlanError>(PlanError::Malformed),
        Some(steps) => match r {
            Ok(p) => p@ == (PlanView { goal, steps }) && p@.valid(registry),
            Err(e) => (PlanView { goal, steps }).refused_for(registry, e),
        },
    }
}

/// Reads a plan out of the object that the coordinator replied with.
pub fn plan_from_object(goal: &str, object: &Json, registry: &RoleRegistry) -> (r: Result<Plan, PlanError>)
    ensures
        plan_outcome(goal@, object@, *registry, r),
{
    match read_steps(object) {
        None => Err(PlanError::Malformed),
        Some(steps) => {
            let p = Plan { goal: goal.to_owned(), steps };
            match p.validate(registry) {
                Ok(()) => Ok(p),
                Err(e) => Err(e),
            }
        },
    }
}

/// Reads a plan out of the coordinator's reply, which may put prose or a code
/// fence around the object.
pub fn parse_plan(goal: &str, reply: &str, registry: &RoleRegistry) -> (r: Result<Plan, PlanError>)
    ensures
        match object_in(reply@) {
            None => r == Err::<Plan, PlanError>(PlanError::NoObject),
            Some(x) => plan_outcome(goal@, x, *registry, r),
        },
{
    match read_object(reply) {
        None => Err(PlanError::NoObject),
        Some(x) => plan_from_object(goal, &x, registry),
    }
}

// ---------------------------------------------------------------------------
// File manifests
// ---------------------------------------------------------------------------

/// A file that a reply asks to be written.
#[derive(Debug, PartialEq, Eq)]
pub struct ManifestFile {
    pub path: String,
    pub content: String,
}

pub open spec fn file_in(x: Tree) -> Option<(Seq<char>, Seq<char>)> {
    match (x.text_at("path"@), x.text_at("content"@)) {
        (Some(p), Some(c)) => Some((p, c)),
        _ => None,
    }
}

/// The files of a manifest: a list under `files` that is not empty and in
/// which every entry has a path and a content.
pub open spec fn files_in(x: Tree) -> Option<Seq<(Seq<char>, Seq<char>)>> {
    match x.items_at("files"@) {
        Some(v) => if v.len() > 0 && forall|i: int| 0 <= i < v.len() ==> file_in(#[trigger] v[i]) is Some {
            Some(v.map_values(|y: Tree| file_in(y)->0))
        } else {
            None
        },
        None => None,
    }
}

pub open spec fn file_views(v: Seq<ManifestFile>) -> Seq<(Seq<char>, Seq<char>)> {
    v.map_values(|f: ManifestFile| (f.path@, f.content@))
}

pub fn manifest_from_object(x: &Json) -> (r: Option<Vec<ManifestFile>>)
    ensures
        r is Some <==> files_in(x@) is Some,
        r matches Some(v) ==> files_in(x@) == Some(file_views(v@)),
{
    match x.items_at("files") {
        None => None,
        Some(v) => {
            let ghost all = json::trees(v@);
            if v.len() == 0 {
                return None;
            }
            let mut out: Vec<ManifestFile> = Vec::new();
            let mut i: usize = 0;
            while i < v.len()
                invariant
                    i <= v.len(),
                    v.len() > 0,
                    all == json::trees(v@),
                    x@.items_at("files"@) == Some(all),
                    out.len() == i,
                    forall|k: int|
                        0 <= k < i ==> file_in(#[trigger] all[k]) == Some((out@[k].path@, out@[k].content@)),
                decreases v.len() - i,
            {
                assert(all[i as int] == v@[i as int]@);
                match (v[i].text_at("path"), v[i].text_at("content")) {
                    (Some(path), Some(content)) => {
                        out.push(ManifestFile { path, content });
                    },
                    _ => {
                        return None;
                    },
                }
                i += 1;
            }
            assert(file_views(out@) =~= all.map_values(|y: Tree| file_in(y)->0));
            Some(out)
        },
    }
}

/// The files that a reply asks to be written; prose asks for none.
pub fn extract_file_manifest(reply: &str) -> (r: Option<Vec<ManifestFile>>)
    ensures
        r is Some <==> (object_in(reply@) matches Some(x) && files_in(x) is Some),
        r matches Some(v) ==> (object_in(reply@) matches Some(x) && files_in(x) == Some(file_views(v@))),
{
    match read_object(reply) {
        None => None,
        Some(x) => manifest_from_object(&x),
    }
}

// ---------------------------------------------------------------------------
// Paths
// ---------------------------------------------------------------------------

pub open spec fn plain_component(c: Seq<char>) -> bool {
    c.len() > 0 && c != "."@ && c != ".."@
}

/// The components that a path may keep: no empty one, no `.` and no `..`.
pub open spec fn plain_components(path: Seq<char>) -> Seq<Seq<char>> {
    t::pieces(path, "/"@).filter(|c: Seq<char>| plain_component(c))
}

/// A path that stays inside the directory it is taken from: only the plain
/// components of `raw` are kept. `None` where nothing is left.
pub fn safe_relative_path(raw: &str) -> (r: Option<String>)
    ensures
        r is Some <==> plain_components(raw@).len() > 0,
        r matches Some(s) ==> s@ == t::joined(plain_components(raw@), "/"@),
{
    proof {
        reveal_strlit("/");
    }
    let parts = t::split(raw, "/");
    let ghost all = t::texts(parts@);
    let ghost keep = |c: Seq<char>| plain_component(c);
    let mut kept: Vec<String> = Vec::new();
    let mut i: usize = 0;
    assert(all.take(0).filter(keep) =~= Seq::<Seq<char>>::empty()) by {
        reveal(Seq::filter);
    }
    assert(t::texts(kept@) =~= Seq::<Seq<char>>::empty());
    while i < parts.len()
        invariant
            i <= parts.len(),
            all == t::texts(parts@),
            keep == (|c: Seq<char>| plain_component(c)),
            t::texts(kept@) == all.take(i as int).filter(keep),
        decreases parts.len() - i,
    {
        let ghost before = kept@;
        proof {
            assert(all.take(i as int + 1).drop_last() =~= all.take(i as int));
            assert(all.take(i as int + 1).last() == parts@[i as int]@);
            reveal(Seq::filter);
        }
        let part = parts[i].as_str();
        if !part.is_empty() && !t::same(part, ".") && !t::same(part, "..") {
            kept.push(parts[i].clone());
            assert(t::texts(kept@) =~= t::texts(before).push(parts@[i as int]@));
        }
        i += 1;
    }
    assert(all.take(all.len() as int) =~= all);
    assert(t::texts(kept@).len() == kept@.len());
    if kept.len() == 0 {
        None
    } else {
        Some(t::join(&kept, "/"))
    }
}

/// Nothing of a safe path leads out of the directory: its components are
/// neither empty nor `.` nor `..`.
pub proof fn law_safe_path_has_plain_components(path: Seq<char>, i: int)
    requires
        0 <= i < plain_components(path).len(),
    ensures
        plain_component(plain_components(path)[i]),
{
    let keep = |c: Seq<char>| plain_component(c);
    t::pieces(path, "/"@).lemma_filter_pred(keep, i);
    assert(keep(plain_components(path)[i]));
}

/// What follows the last slash of a path, of which trailing slashes are no
/// part.
pub open spec fn basename(path: Seq<char>) -> Seq<char> {
    let p = t::trim_end_by(path, |c: char| c == '/');
    match last_char(p, '/', p.len() as int) {
        Some(i) => p.skip(i + 1),
        None => p,
    }
}

/// The last segment of a directory in a worker.
pub fn out_basename(path: &str) -> (r: String)
    ensures
        r@ == basename(path@),
{
    let p = t::trim_end_matches(path, &t::Trim::One { c: '/' });
    proof {
        assert(t::Trim::One { c: '/' }.pred() =~= (|c: char| c == '/'));
    }
    let v = t::chars_of(p.as_str());
    let mut n: usize = v.len();
    while n > 0 && v[n - 1] != '/'
        invariant
            v@ == p@,
            n <= v.len(),
            last_char(p@, '/', p@.len() as int) == last_char(p@, '/', n as int),
        decreases n,
    {
        n -= 1;
    }
    let r = t::string_of(&v, n, v.len());
    assert(r@ =~= basename(path@));
    r
}

/// The plan that a reply holds, or what is wrong with it.
pub open spec fn plan_in(goal: Seq<char>, reply: Seq<char>, registry: RoleRegistry) -> Result<PlanView, PlanError> {
    match object_in(reply) {
        None => Err(PlanError::NoObject),
        Some(x) => match steps_in(x) {
            None => Err(PlanError::Malformed),
            Some(steps) => {
                let p = PlanView { goal, steps };
                if p.valid(registry) {
                    Ok(p)
                } else {
                    Err(choose|e: PlanError| p.refused_for(registry, e))
                }
            },
        },
    }
}

/// What `parse_plan` gives is what the reply holds.
pub proof fn lemma_plan_in(goal: Seq<char>, x: Tree, registry: RoleRegistry, r: Result<Plan, PlanError>)
    requires
        plan_outcome(goal, x, registry, r),
    ensures
        steps_in(x) matches Some(steps) ==> {
            let p = PlanView { goal, steps };
            &&& r is Ok <==> p.valid(registry)
            &&& r matches Ok(q) ==> q@ == p
            &&& r matches Err(e) ==> e == choose|e: PlanError| p.refused_for(registry, e)
        },
{
    match (steps_in(x), r) {
        (Some(steps), Err(e)) => {
            let p = PlanView { goal, steps };
            let other = choose|e: PlanError| p.refused_for(registry, e);
            plan::lemma_one_refusal(p, registry, e, other);
            match e {
                PlanError::UnknownRole { step } => {
                    assert(!p.role_known(registry, step as int));
                },
                PlanError::UnknownDependency { step } => {
                    assert(!p.deps_known(step as int));
                },
                _ => {},
            }
        },
        _ => {},
    }
}

/// Reads the plan that a reply holds.
pub fn read_plan(goal: &str, reply: &str, registry: &RoleRegistry) -> (r: Result<Plan, PlanError>)
    ensures
        match r {
            Ok(p) => plan_in(goal@, reply@, *registry) == Ok::<PlanView, PlanError>(p@),
            Err(e) => plan_in(goal@, reply@, *registry) == Err::<PlanView, PlanError>(e),
        },
{
    let r = parse_plan(goal, reply, registry);
    proof {
        match object_in(reply@) {
            Some(x) => lemma_plan_in(goal@, x, *registry, r),
            None => {},
        }
    }
    r
}

/// A reply with the marker of approval approves, whatever stands around it.
pub proof fn law_the_marker_approves(a: Seq<char>, b: Seq<char>)
    ensures
        review_of(a + "[[REVIEW: APPROVE]]"@ + b) == VerdictView::Approve,
{
    t::lemma_has_part(a, "[[REVIEW: APPROVE]]"@, b);
}

/// A reply that does not approve and asks for a revision gives as its feedback
/// what stands behind the first marker; one without a marker is unclear.
pub proof fn law_the_feedback_stands_behind_the_marker(a: Seq<char>, b: Seq<char>, reply: Seq<char>)
    requires
        !t::has(a + "[[REVIEW: REVISE]]"@ + b, "[[REVIEW: APPROVE]]"@),
        forall|j: int|
            0 <= j < a.len() ==> !t::occurs_at(a + "[[REVIEW: REVISE]]"@ + b, "[[REVIEW: REVISE]]"@, j),
    ensures
        review_of(a + "[[REVIEW: REVISE]]"@ + b) == VerdictView::Revise(t::trimmed(b)),
        !t::has(reply, "[[REVIEW: APPROVE]]"@) && !t::has(reply, "[[REVIEW: REVISE]]"@) ==> review_of(reply)
            == VerdictView::Unclear,
{
    t::law_a_text_is_cut_at_its_separator(a, "[[REVIEW: REVISE]]"@, b);
    t::lemma_find_from(reply, "[[REVIEW: REVISE]]"@, 0);
}

proof fn lemma_next_char_at(s: Seq<char>, c: char, i: int, n: int)
    requires
        0 <= i <= n < s.len(),
        s[n] == c,
        forall|k: int| i <= k < n ==> s[k] != c,
    ensures
        t::next_char(s, c, i) == Some(n),
    decreases n - i,
{
    if i < n {
        lemma_next_char_at(s, c, i + 1, n);
    }
}

proof fn lemma_last_char_at(s: Seq<char>, c: char, n: int, k: int)
    requires
        0 <= k < n <= s.len(),
        s[k] == c,
        forall|j: int| k < j < n ==> s[j] != c,
    ensures
        last_char(s, c, n) == Some(k),
    decreases n,
{
    if k < n - 1 {
        lemma_last_char_at(s, c, n - 1, k);
    }
}

/// The object of a reply is found among the prose around it.
pub proof fn law_an_object_is_found_in_prose(a: Seq<char>, object: Seq<char>, b: Seq<char>)
    requires
        object.len() >= 2,
        object[0] == '{',
        object.last() == '}',
        forall|i: int| 0 <= i < a.len() ==> a[i] != '{',
        forall|i: int| 0 <= i < b.len() ==> b[i] != '}',
    ensures
        object_text(a + object + b) == Some(object),
{
    let s = a + object + b;
    let n = a.len() as int;
    let k = (a.len() + object.len() - 1) as int;
    assert(s[n] == object[0]);
    assert(s[k] == object.last());
    lemma_next_char_at(s, '{', 0, n);
    lemma_last_char_at(s, '}', s.len() as int, k);
    assert(s.subrange(n, k + 1) =~= object);
}

/// A step is read as it is written, and waits; without a list of dependencies it
/// has none, and without a word on it, it is not reviewed.
pub proof fn law_a_step_is_read_as_it_is_written(x: Tree, id: Seq<char>, role: Seq<char>, task: Seq<char>)
    requires
        x.text_at("id"@) == Some(id),
        x.text_at("role"@) == Some(role),
        x.text_at("task"@) == Some(task),
    ensures
        step_in(x) matches Some(s) ==> s.id == id && s.role == role && s.task == task && s.status
            == StepStatus::Waiting && s.result is None && s.attempts == 0 && s.review_cycles == 0,
        x.get("deps"@) is None && x.get("review"@) is None ==> (step_in(x) matches Some(s) && s.deps.len() == 0
            && !s.review),
        x.get("deps"@) is None ==> (x.get("review"@) matches Some(v) ==> (v.truth() matches Some(yes) ==> step_in(
            x,
        ) matches Some(s) && s.review == yes)),
        x.get("review"@) is None ==> (x.get("deps"@) matches Some(Tree::List(v)) ==> (forall|i: int|
            0 <= i < v.len() ==> (#[trigger] v[i]).text() is Some) ==> (step_in(x) matches Some(s) && s.deps.len()
            == v.len() && forall|i: int| 0 <= i < v.len() ==> Some(#[trigger] s.deps[i]) == v[i].text())),
{
}

/// A step without an id, a role or a task is none, and a list with such an entry
/// is no plan.
pub proof fn law_a_step_needs_id_role_and_task(x: Tree, v: Seq<Tree>, i: int)
    requires
        0 <= i < v.len(),
        x.items_at("steps"@) == Some(v),
        v[i].text_at("id"@) is None || v[i].text_at("role"@) is None || v[i].text_at("task"@) is None,
    ensures
        steps_in(x) is None,
{
    assert(step_in(v[i]) is None);
}

/// The steps of a plan are its entries, each in its place.
pub proof fn law_the_steps_keep_their_order(x: Tree, v: Seq<Tree>)
    requires
        x.items_at("steps"@) == Some(v),
        forall|i: int| 0 <= i < v.len() ==> step_in(#[trigger] v[i]) is Some,
    ensures
        steps_in(x) matches Some(s) && s.len() == v.len() && forall|i: int|
            0 <= i < v.len() ==> Some(#[trigger] s[i].id) == v[i].text_at("id"@) && Some(s[i].task) == v[i].text_at(
                "task"@,
            ) && Some(s[i].role) == v[i].text_at("role"@),
{
    let s = steps_in(x)->0;
    assert forall|i: int| 0 <= i < v.len() implies Some(#[trigger] s[i].id) == v[i].text_at("id"@) && Some(
        s[i].task,
    ) == v[i].text_at("task"@) && Some(s[i].role) == v[i].text_at("role"@) by {
        assert(step_in(v[i]) is Some);
        assert(s[i] == step_in(v[i])->0);
    }
}

/// The files of a manifest are its entries, each with its path and its content;
/// one entry without either, or an empty list, and there is none.
pub proof fn law_the_files_of_a_manifest_are_its_entries(x: Tree, v: Seq<Tree>)
    requires
        x.items_at("files"@) == Some(v),
    ensures
        v.len() == 0 ==> files_in(x) is None,
        (exists|i: int|
            0 <= i < v.len() && ((#[trigger] v[i]).text_at("path"@) is None || v[i].text_at("content"@) is None))
            ==> files_in(x) is None,
        v.len() > 0 && (forall|i: int|
            0 <= i < v.len() ==> (#[trigger] v[i]).text_at("path"@) is Some && v[i].text_at("content"@) is Some)
            ==> (files_in(x) matches Some(f) && f.len() == v.len() && forall|i: int|
            0 <= i < v.len() ==> Some((#[trigger] f[i]).0) == v[i].text_at("path"@) && Some(f[i].1) == v[i].text_at(
                "content"@,
            )),
{
    if exists|i: int|
        0 <= i < v.len() && ((#[trigger] v[i]).text_at("path"@) is None || v[i].text_at("content"@) is None) {
        let i = choose|i: int|
            0 <= i < v.len() && ((#[trigger] v[i]).text_at("path"@) is None || v[i].text_at("content"@) is None);
        assert(file_in(v[i]) is None);
    }
    if v.len() > 0 && (forall|i: int|
        0 <= i < v.len() ==> (#[trigger] v[i]).text_at("path"@) is Some && v[i].text_at("content"@) is Some) {
        assert forall|i: int| 0 <= i < v.len() implies file_in(#[trigger] v[i]) is Some by {}
    }
}

/// The last segment of a path is what stands behind its last slash.
pub proof fn law_the_last_segment_of_a_path(dir: Seq<char>, name: Seq<char>)
    requires
        name.len() > 0,
        forall|i: int| 0 <= i < name.len() ==> name[i] != '/',
    ensures
        basename(dir + seq!['/'] + name) == name,
        basename(name) == name,
        basename(dir + seq!['/'] + name + seq!['/']) == name,
{
    let p = |c: char| c == '/';
    let s = dir + seq!['/'] + name;
    reveal_with_fuel(t::trim_end_by, 2);
    assert(s.last() == name.last());
    assert(t::trim_end_by(s, p) == s);
    lemma_last_char_at(s, '/', s.len() as int, dir.len() as int);
    assert(s.skip(dir.len() as int + 1) =~= name);
    assert(t::trim_end_by(name, p) == name);
    lemma_no_last_char(name, '/', name.len() as int);
    let z = s.push('/');
    assert(s + seq!['/'] =~= z);
    assert(z.drop_last() =~= s);
    assert(t::trim_end_by(z, p) == s);
}

proof fn lemma_no_last_char(s: Seq<char>, c: char, n: int)
    requires
        n <= s.len(),
        forall|j: int| 0 <= j < s.len() ==> s[j] != c,
    ensures
        last_char(s, c, n) is None,
    decreases n,
{
    if n > 0 {
        lemma_no_last_char(s, c, n - 1);
    }
}

/// A path of plain components is kept as it is.
pub proof fn law_a_plain_path_is_kept(parts: Seq<Seq<char>>)
    requires
        parts.len() > 0,
        forall|i: int| 0 <= i < parts.len() ==> plain_component(#[trigger] parts[i]),
        forall|i: int, j: int| 0 <= i < parts.len() && 0 <= j < parts[i].len() ==> #[trigger] parts[i][j] != '/',
    ensures
        plain_components(t::joined(parts, "/"@)) == parts,
{
    reveal_strlit("/");
    assert("/"@ =~= seq!['/']);
    t::lemma_pieces_of_joined(parts, '/');
    t::lemma_filter_keeps_all(parts, |c: Seq<char>| plain_component(c));
}

} // verus!
