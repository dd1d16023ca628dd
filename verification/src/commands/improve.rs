//! The record of what agents did, and of how good it was.

use crate::text as t;
use vstd::prelude::*;
use vstd::string::*;

verus! {

/// A text in one row, cut after `limit` characters with an ellipsis.
pub open spec fn inline(value: Seq<char>, limit: nat) -> Seq<char> {
    let v = t::replaced(value, "\n"@, " "@);
    if v.len() <= limit {
        v
    } else {
        v.take(limit as int) + "…"@
    }
}

pub fn truncate_inline(value: &str, limit: usize) -> (r: String)
    ensures
        r@ == inline(value@, limit as nat),
{
    proof {
        reveal_strlit("\n");
    }
    let v = t::replace(value, "\n", " ");
    if v.as_str().unicode_len() <= limit {
        v
    } else {
        t::take_chars(v.as_str(), limit).concat("…")
    }
}

/// What a reward is attached to.
#[derive(Debug, PartialEq, Eq)]
pub enum RewardTarget<S> {
    /// One trajectory.
    Trajectory { id: S },
    /// The latest one of an agent's session.
    Latest { agent_id: S, session_id: S },
    Refused { message: S },
}

impl View for RewardTarget<String> {
    type V = RewardTarget<Seq<char>>;

    open spec fn view(&self) -> RewardTarget<Seq<char>> {
        match self {
            RewardTarget::Trajectory { id } => RewardTarget::Trajectory { id: id@ },
            RewardTarget::Latest { agent_id, session_id } => RewardTarget::Latest {
                agent_id: agent_id@,
                session_id: session_id@,
            },
            RewardTarget::Refused { message } => RewardTarget::Refused { message: message@ },
        }
    }
}

pub open spec fn reward_target(
    trajectory_id: Option<Seq<char>>,
    agent_id: Option<Seq<char>>,
    session_id: Seq<char>,
) -> RewardTarget<Seq<char>> {
    match trajectory_id {
        Some(id) => RewardTarget::Trajectory { id },
        None => match agent_id {
            Some(agent_id) => RewardTarget::Latest { agent_id, session_id },
            None => RewardTarget::Refused { message: "pass --trajectory-id or --agent-id"@ },
        },
    }
}

pub fn choose_target(trajectory_id: Option<String>, agent_id: Option<String>, session_id: String) -> (r: RewardTarget<
    String,
>)
    ensures
        r@ == reward_target(t::opt_view(trajectory_id), t::opt_view(agent_id), session_id@),
{
    match trajectory_id {
        Some(id) => RewardTarget::Trajectory { id },
        None => match agent_id {
            Some(agent_id) => RewardTarget::Latest { agent_id, session_id },
            None => RewardTarget::Refused { message: "pass --trajectory-id or --agent-id".to_owned() },
        },
    }
}

pub fn recorded_text(id: &str) -> (r: String)
    ensures
        r@ == "recorded trajectory "@ + id@,
{
    "recorded trajectory ".to_owned().concat(id)
}

/// What is said once a reward was attached to the trajectory that was named;
/// the value comes as it is shown, with its sign.
pub fn rewarded_text(id: &str, source: &str, value: &str) -> (r: String)
    ensures
        r@ == "rewarded "@ + id@ + " ("@ + source@ + " "@ + value@ + ")"@,
{
    "rewarded ".to_owned().concat(id).concat(" (").concat(source).concat(" ").concat(value).concat(")")
}

/// What is said of a reward for the latest trajectory; there may be none.
pub fn rewarded_latest_text(id: Option<&str>, agent_id: &str, session_id: &str, source: &str, value: &str) -> (r:
    String)
    ensures
        r@ == match id {
            Some(id) => "rewarded latest trajectory "@ + id@ + " ("@ + source@ + " "@ + value@ + ")"@,
            None => "no trajectory for "@ + agent_id@ + "/"@ + session_id@ + " to reward"@,
        },
{
    match id {
        Some(id) => "rewarded latest trajectory ".to_owned().concat(id).concat(" (").concat(source).concat(
            " ",
        ).concat(value).concat(")"),
        None => "no trajectory for ".to_owned().concat(agent_id).concat("/").concat(session_id).concat(
            " to reward",
        ),
    }
}

/// A trajectory that was good enough; its reward comes as it is shown.
#[derive(Debug, PartialEq, Eq)]
pub struct Curated<S> {
    pub id: S,
    pub reward: S,
    pub signals: usize,
    pub input: S,
}

impl View for Curated<String> {
    type V = Curated<Seq<char>>;

    open spec fn view(&self) -> Curated<Seq<char>> {
        Curated {
            id: self.id@,
            reward: self.reward@,
            signals: self.signals,
            input: self.input@,
        }
    }
}

pub open spec fn curated(v: Seq<Curated<String>>) -> Seq<Curated<Seq<char>>> {
    v.map_values(|x: Curated<String>| x@)
}

pub open spec fn curated_line(x: Curated<Seq<char>>) -> Seq<char> {
    x.id + " reward="@ + x.reward + " ("@ + t::decimal(x.signals as nat) + " signals) :: "@ + inline(x.input, 60)
}

/// The list of trajectories that were good enough; the bound comes as it is shown.
pub fn curate_lines(list: &Vec<Curated<String>>, min_reward: &str) -> (r: Vec<String>)
    ensures
        t::texts(r@) == if list@.len() == 0 {
            seq!["no trajectories at or above reward "@ + min_reward@]
        } else {
            curated(list@).map_values(|x: Curated<Seq<char>>| curated_line(x))
        },
{
    if list.len() == 0 {
        return t::one_line("no trajectories at or above reward ".to_owned().concat(min_reward));
    }
    let mut r: Vec<String> = Vec::new();
    let mut i: usize = 0;
    while i < list.len()
        invariant
            i <= list@.len(),
            r@.len() == i,
            forall|k: int| 0 <= k < i ==> (#[trigger] r@[k])@ == curated_line(list@[k]@),
        decreases list@.len() - i,
    {
        let x = &list[i];
        r.push(
            x.id.clone().concat(" reward=").concat(x.reward.as_str()).concat(" (").concat(
                t::usize_text(x.signals).as_str(),
            ).concat(" signals) :: ").concat(truncate_inline(x.input.as_str(), 60).as_str()),
        );
        i += 1;
    }
    assert(t::texts(r@) =~= curated(list@).map_values(|x: Curated<Seq<char>>| curated_line(x)));
    r
}

/// The summary of the record.
pub fn report_lines(trajectories: u64, rewarded: u64, positive: u64, negative: u64) -> (r: Vec<String>)
    ensures
        t::texts(r@) == seq![
            "trajectories: "@ + t::decimal(trajectories as nat),
            "rewarded: "@ + t::decimal(rewarded as nat),
            "net-positive: "@ + t::decimal(positive as nat),
            "net-negative: "@ + t::decimal(negative as nat),
        ],
{
    let mut lines = t::two_lines(
        "trajectories: ".to_owned().concat(t::u64_text(trajectories).as_str()),
        "rewarded: ".to_owned().concat(t::u64_text(rewarded).as_str()),
    );
    t::add_line(&mut lines, "net-positive: ".to_owned().concat(t::u64_text(positive).as_str()));
    t::add_line(&mut lines, "net-negative: ".to_owned().concat(t::u64_text(negative).as_str()));
    assert(t::texts(lines@) =~= seq![
        "trajectories: "@ + t::decimal(trajectories as nat),
        "rewarded: "@ + t::decimal(rewarded as nat),
        "net-positive: "@ + t::decimal(positive as nat),
        "net-negative: "@ + t::decimal(negative as nat),
    ]);
    lines
}

/// A reward goes to the trajectory that is named, else to the latest one of the
/// agent's session; without either it is refused.
pub proof fn law_a_reward_goes_where_it_is_meant(id: Seq<char>, agent_id: Seq<char>, session_id: Seq<char>)
    ensures
        reward_target(Some(id), Some(agent_id), session_id) == (RewardTarget::<Seq<char>>::Trajectory { id }),
        reward_target(None, Some(agent_id), session_id) == (RewardTarget::<Seq<char>>::Latest { agent_id, session_id }),
        reward_target(None, None, session_id) is Refused,
{
}

/// What was curated is listed with its id and its reward.
pub proof fn law_what_was_curated_is_listed(x: Curated<Seq<char>>)
    ensures
        t::starts(curated_line(x), x.id + " reward="@ + x.reward + " ("@ + t::decimal(x.signals as nat) + " signals)"@),
        x.input.len() <= 60 && !t::has(x.input, "\n"@) ==> t::ends(curated_line(x), inline(x.input, 60)),
{
    let line = curated_line(x);
    reveal_strlit(" signals) :: ");
    reveal_strlit(" signals)");
    assert(" signals) :: "@.take(9) =~= " signals)"@);
    let a = x.id + " reward="@ + x.reward + " ("@ + t::decimal(x.signals as nat) + " signals)"@;
    assert(line.subrange(0, a.len() as int) =~= a);
    let z = inline(x.input, 60);
    assert(line.subrange(line.len() - z.len(), line.len() as int) =~= z);
}

} // verus!
