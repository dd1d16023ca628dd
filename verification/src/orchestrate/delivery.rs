//! Where the result of a card is delivered.

use crate::text as t;
use vstd::prelude::*;
use vstd::string::*;

verus! {

/// What is known of an agent's channels.
#[derive(Debug, PartialEq, Eq)]
pub struct AgentReach {
    pub agent_id: String,
    /// Whether its Telegram bridge runs.
    pub telegram_live: bool,
    pub telegram_chat: Option<i64>,
    pub discord_channel: Option<String>,
    pub session_id: Option<String>,
}

pub struct ReachView {
    pub agent_id: Seq<char>,
    pub telegram_live: bool,
    pub telegram_chat: Option<i64>,
    pub discord_channel: Option<Seq<char>>,
    pub session_id: Option<Seq<char>>,
}

impl View for AgentReach {
    type V = ReachView;

    open spec fn view(&self) -> ReachView {
        ReachView {
            agent_id: self.agent_id@,
            telegram_live: self.telegram_live,
            telegram_chat: self.telegram_chat,
            discord_channel: t::opt_view(self.discord_channel),
            session_id: t::opt_view(self.session_id),
        }
    }
}

/// Where a result goes: a chat of an agent that serves the channel.
#[derive(Debug, PartialEq, Eq)]
pub struct DeliveryTarget {
    pub channel: String,
    pub platform_id: String,
    pub agent_id: String,
    pub session_id: String,
}

pub struct TargetView {
    pub channel: Seq<char>,
    pub platform_id: Seq<char>,
    pub agent_id: Seq<char>,
    pub session_id: Seq<char>,
}

impl View for DeliveryTarget {
    type V = TargetView;

    open spec fn view(&self) -> TargetView {
        TargetView {
            channel: self.channel@,
            platform_id: self.platform_id@,
            agent_id: self.agent_id@,
            session_id: self.session_id@,
        }
    }
}

pub open spec fn reach_views(v: Seq<AgentReach>) -> Seq<ReachView> {
    v.map_values(|a: AgentReach| a@)
}

/// The channel that a card names, and the agent it is pinned to: `channel` or
/// `channel:agent`.
pub open spec fn route_of(deliver: Seq<char>) -> (Seq<char>, Option<Seq<char>>) {
    match t::cut(deliver, ":"@) {
        Some((c, a)) => (t::lower(t::trimmed(c)), if t::trimmed(a).len() > 0 {
            Some(t::trimmed(a))
        } else {
            None
        }),
        None => (t::lower(t::trimmed(deliver)), None),
    }
}

pub fn delivery_route(deliver: &str) -> (r: (String, Option<String>))
    ensures
        (r.0@, t::opt_view(r.1)) == route_of(deliver@),
{
    match t::split_once(deliver, ":") {
        Some((c, a)) => {
            let agent = t::trim(a.as_str());
            let channel = t::to_lower(t::trim(c.as_str()).as_str());
            if agent.as_str().is_empty() {
                (channel, None)
            } else {
                (channel, Some(agent))
            }
        },
        None => (t::to_lower(t::trim(deliver).as_str()), None),
    }
}

/// The position of the first text equal to `x`, from `i` on.
pub open spec fn index_from(list: Seq<Seq<char>>, x: Seq<char>, i: int) -> Option<int>
    decreases list.len() - i,
{
    if i < 0 || i >= list.len() {
        None
    } else if list[i] == x {
        Some(i)
    } else {
        index_from(list, x, i + 1)
    }
}

/// The agents to try, in order: the pinned one alone; else all of them,
/// sorted, with the preferred one first.
pub open spec fn candidates_of(
    ids: Seq<Seq<char>>,
    pinned: Option<Seq<char>>,
    prefer: Option<Seq<char>>,
) -> Seq<Seq<char>> {
    match pinned {
        Some(a) => seq![a],
        None => {
            let sorted = t::in_order(ids);
            match prefer {
                Some(p) => match index_from(sorted, p, 0) {
                    Some(i) => seq![sorted[i]] + sorted.remove(i),
                    None => sorted,
                },
                None => sorted,
            }
        },
    }
}

pub fn delivery_candidates(ids: &Vec<String>, pinned: Option<&str>, prefer: Option<&str>) -> (r: Vec<String>)
    ensures
        t::texts(r@) == candidates_of(t::texts(ids@), t::opt_str(pinned), t::opt_str(prefer)),
{
    match pinned {
        Some(a) => {
            let mut r: Vec<String> = Vec::new();
            r.push(a.to_owned());
            assert(t::texts(r@) =~= seq![a@]);
            r
        },
        None => {
            let mut sorted = t::sort_texts(ids);
            match prefer {
                Some(p) => {
                    let ghost all = t::texts(sorted@);
                    let mut i: usize = 0;
                    while i < sorted.len()
                        invariant
                            i <= sorted.len(),
                            all == t::texts(sorted@),
                            index_from(all, p@, 0) == index_from(all, p@, i as int),
                            all == t::in_order(t::texts(ids@)),
                            pinned is None,
                            prefer == Some(p),
                        decreases sorted.len() - i,
                    {
                        assert(all[i as int] == sorted@[i as int]@);
                        if t::same(sorted[i].as_str(), p) {
                            let chosen = sorted.remove(i);
                            assert(t::texts(sorted@) =~= all.remove(i as int));
                            sorted.insert(0, chosen);
                            assert(t::texts(sorted@) =~= seq![all[i as int]] + all.remove(i as int));
                            return sorted;
                        }
                        i += 1;
                    }
                    sorted
                },
                None => sorted,
            }
        },
    }
}

/// The session of an agent's main chat.
pub open spec fn session_of(a: ReachView) -> Seq<char> {
    match a.session_id {
        Some(s) => s,
        None => a.agent_id + "-main"@,
    }
}

/// The first agent, from `i` on, that can send on Telegram: one with a paired
/// chat, and with a running bridge unless it was pinned.
pub open spec fn telegram_target(agents: Seq<ReachView>, live: bool, i: int) -> Option<TargetView>
    decreases agents.len() - i,
{
    if i < 0 || i >= agents.len() {
        None
    } else {
        match agents[i].telegram_chat {
            Some(chat) => if live && !agents[i].telegram_live {
                telegram_target(agents, live, i + 1)
            } else {
                Some(
                    TargetView {
                        channel: "telegram"@,
                        platform_id: t::signed_decimal(chat as int),
                        agent_id: agents[i].agent_id,
                        session_id: session_of(agents[i]),
                    },
                )
            },
            None => telegram_target(agents, live, i + 1),
        }
    }
}

/// The first agent, from `i` on, that knows a Discord channel.
pub open spec fn discord_target(agents: Seq<ReachView>, i: int) -> Option<TargetView>
    decreases agents.len() - i,
{
    if i < 0 || i >= agents.len() {
        None
    } else {
        match agents[i].discord_channel {
            Some(channel) => Some(
                TargetView {
                    channel: "discord"@,
                    platform_id: channel,
                    agent_id: agents[i].agent_id,
                    session_id: session_of(agents[i]),
                },
            ),
            None => discord_target(agents, i + 1),
        }
    }
}

/// Where a result goes, or why it goes nowhere. The agents are given in the
/// order in which they are tried.
pub open spec fn target_of(channel: Seq<char>, pinned: bool, agents: Seq<ReachView>) -> Result<
    TargetView,
    Seq<char>,
> {
    if channel == "telegram"@ {
        match telegram_target(agents, !pinned, 0) {
            Some(x) => Ok(x),
            None => Err("no agent with a live Telegram bridge and a paired chat"@),
        }
    } else if channel == "discord"@ {
        match discord_target(agents, 0) {
            Some(x) => Ok(x),
            None => Err(
                "no agent with a known Discord destination (the bot learns a channel only once someone messages it there)"@,
            ),
        }
    } else {
        Err(
            "channel '"@ + channel
                + "' has no host-side push destination yet (it replies only to its last-seen conversation) — use telegram or discord, or pin an agent with channel:agent"@,
        )
    }
}

fn session_text(a: &AgentReach) -> (r: String)
    ensures
        r@ == session_of(a@),
{
    match &a.session_id {
        Some(s) => s.clone(),
        None => a.agent_id.clone().concat("-main"),
    }
}

/// Picks the agent that serves the channel, among agents in the order in which
/// they are tried.
pub fn resolve_channel_delivery(channel: &str, pinned: bool, agents: &Vec<AgentReach>) -> (r: Result<
    DeliveryTarget,
    String,
>)
    ensures
        match r {
            Ok(x) => target_of(channel@, pinned, reach_views(agents@)) == Ok::<TargetView, Seq<char>>(x@),
            Err(e) => target_of(channel@, pinned, reach_views(agents@)) == Err::<TargetView, Seq<char>>(e@),
        },
{
    let ghost all = reach_views(agents@);
    if t::same(channel, "telegram") {
        let mut i: usize = 0;
        while i < agents.len()
            invariant
                i <= agents.len(),
                all == reach_views(agents@),
                channel@ == "telegram"@,
                telegram_target(all, !pinned, 0) == telegram_target(all, !pinned, i as int),
            decreases agents.len() - i,
        {
            assert(all[i as int] == agents@[i as int]@);
            match agents[i].telegram_chat {
                Some(chat) => if pinned || agents[i].telegram_live {
                    return Ok(
                        DeliveryTarget {
                            channel: "telegram".to_owned(),
                            platform_id: t::i64_text(chat),
                            agent_id: agents[i].agent_id.clone(),
                            session_id: session_text(&agents[i]),
                        },
                    );
                },
                None => {},
            }
            i += 1;
        }
        Err("no agent with a live Telegram bridge and a paired chat".to_owned())
    } else if t::same(channel, "discord") {
        let mut i: usize = 0;
        while i < agents.len()
            invariant
                i <= agents.len(),
                all == reach_views(agents@),
                channel@ == "discord"@,
                channel@ != "telegram"@,
                discord_target(all, 0) == discord_target(all, i as int),
            decreases agents.len() - i,
        {
            assert(all[i as int] == agents@[i as int]@);
            match &agents[i].discord_channel {
                Some(id) => {
                    return Ok(
                        DeliveryTarget {
                            channel: "discord".to_owned(),
                            platform_id: id.clone(),
                            agent_id: agents[i].agent_id.clone(),
                            session_id: session_text(&agents[i]),
                        },
                    );
                },
                None => {},
            }
            i += 1;
        }
        Err(
            "no agent with a known Discord destination (the bot learns a channel only once someone messages it there)".to_owned(),
        )
    } else {
        Err(
            "channel '".to_owned().concat(channel).concat(
                "' has no host-side push destination yet (it replies only to its last-seen conversation) — use telegram or discord, or pin an agent with channel:agent",
            ),
        )
    }
}

/// Whether a result is worth sending: it is neither empty nor the sentinel
/// that stands for silence.
pub open spec fn deliverable(text: Seq<char>, sentinel: Seq<char>) -> bool {
    t::trimmed(text).len() > 0 && t::trimmed(text) != sentinel
}

pub fn is_deliverable(text: &str, sentinel: &str) -> (r: bool)
    ensures
        r == deliverable(text@, sentinel@),
{
    let trimmed = t::trim(text);
    !trimmed.as_str().is_empty() && !t::same(trimmed.as_str(), sentinel)
}

/// An agent whose bridge does not run is chosen for Telegram only when it was
/// pinned.
pub proof fn law_telegram_needs_a_live_bridge(agents: Seq<ReachView>, i: int)
    requires
        0 <= i <= agents.len(),
    ensures
        telegram_target(agents, true, i) matches Some(x) ==> exists|k: int|
            i <= k < agents.len() && (#[trigger] agents[k]).telegram_live && agents[k].telegram_chat is Some
                && agents[k].agent_id == x.agent_id,
    decreases agents.len() - i,
{
    if i < agents.len() {
        law_telegram_needs_a_live_bridge(agents, i + 1);
    }
}

/// A card names its channel in front of the colon, in any case, and the agent
/// that it is pinned to behind it.
pub proof fn law_a_route_names_channel_and_agent(channel: Seq<char>, agent: Seq<char>)
    requires
        forall|i: int| 0 <= i < channel.len() ==> #[trigger] channel[i] != ':',
    ensures
        t::trimmed(agent).len() > 0 ==> route_of(channel + ":"@ + agent) == (
            t::lower(t::trimmed(channel)),
            Some(t::trimmed(agent)),
        ),
        t::trimmed(agent).len() == 0 ==> route_of(channel + ":"@ + agent) == (
            t::lower(t::trimmed(channel)),
            None::<Seq<char>>,
        ),
        route_of(channel) == (t::lower(t::trimmed(channel)), None::<Seq<char>>),
{
    reveal_strlit(":");
    assert(":"@ =~= seq![':']);
    t::lemma_cut_char(channel, ':', agent);
    t::lemma_find_from(channel, ":"@, 0);
    if t::find(channel, ":"@) is Some {
        let k = t::find(channel, ":"@)->0;
        assert(channel.subrange(k, k + 1)[0] == channel[k]);
    }
}

proof fn lemma_index_from(list: Seq<Seq<char>>, x: Seq<char>, i: int)
    requires
        0 <= i,
    ensures
        index_from(list, x, i) matches Some(k) ==> i <= k < list.len() && list[k] == x,
        index_from(list, x, i) is None ==> forall|k: int| i <= k < list.len() ==> #[trigger] list[k] != x,
    decreases list.len() - i,
{
    if i < list.len() && list[i] != x {
        lemma_index_from(list, x, i + 1);
    }
}

/// A pinned agent is the only one that is tried. Otherwise every agent is tried
/// once, the preferred one first.
pub proof fn law_every_agent_is_tried_once(ids: Seq<Seq<char>>, pinned: Seq<char>, prefer: Seq<char>)
    ensures
        candidates_of(ids, Some(pinned), Some(prefer)) == seq![pinned],
        candidates_of(ids, None, Some(prefer)).to_multiset() == ids.to_multiset(),
        candidates_of(ids, None, None).to_multiset() == ids.to_multiset(),
        ids.contains(prefer) ==> candidates_of(ids, None, Some(prefer)).len() > 0 && candidates_of(
            ids,
            None,
            Some(prefer),
        )[0] == prefer,
{
    broadcast use vstd::seq_lib::group_to_multiset_ensures;

    t::law_sorting_orders_and_keeps_the_texts(ids);
    let sorted = t::in_order(ids);
    lemma_index_from(sorted, prefer, 0);
    if ids.contains(prefer) {
        assert(ids.to_multiset().count(prefer) > 0);
        assert(sorted.contains(prefer));
    }
    if index_from(sorted, prefer, 0) is Some {
        let i = index_from(sorted, prefer, 0)->0;
        let r = seq![sorted[i]] + sorted.remove(i);
        vstd::seq_lib::lemma_multiset_commutative(seq![sorted[i]], sorted.remove(i));
        assert(seq![sorted[i]] =~= Seq::<Seq<char>>::empty().push(sorted[i]));
        assert(sorted.remove(i).to_multiset() =~= sorted.to_multiset().remove(sorted[i]));
        assert(r.to_multiset() =~= sorted.to_multiset());
    }
}

/// An agent can be reached on a channel: on Telegram by its paired chat, with a
/// running bridge unless it is pinned; on Discord by a channel that it knows.
pub open spec fn reaches(a: ReachView, channel: Seq<char>, pinned: bool) -> bool {
    ||| channel == "telegram"@ && a.telegram_chat is Some && (pinned || a.telegram_live)
    ||| channel == "discord"@ && a.discord_channel is Some
}

/// A result goes to the first agent that can be reached, in its own chat and its
/// own session; it goes nowhere only where no agent can be reached.
pub proof fn law_the_first_agent_in_reach_delivers(
    channel: Seq<char>,
    pinned: bool,
    agents: Seq<ReachView>,
    i: int,
)
    requires
        0 <= i < agents.len(),
        reaches(agents[i], channel, pinned),
        forall|j: int| 0 <= j < i ==> !reaches(#[trigger] agents[j], channel, pinned),
    ensures
        target_of(channel, pinned, agents) matches Ok(x) && {
            &&& x.channel == channel
            &&& x.agent_id == agents[i].agent_id
            &&& agents[i].session_id matches Some(s) ==> x.session_id == s
            &&& agents[i].session_id is None ==> x.session_id == agents[i].agent_id + "-main"@
            &&& channel == "telegram"@ ==> x.platform_id == t::signed_decimal(agents[i].telegram_chat->0 as int)
            &&& channel == "discord"@ ==> x.platform_id == agents[i].discord_channel->0
        },
{
    reveal_strlit("telegram");
    reveal_strlit("discord");
    assert("telegram"@.len() == 8 && "discord"@.len() == 7);
    if channel == "telegram"@ {
        lemma_telegram_first(agents, !pinned, 0, i);
    } else {
        lemma_discord_first(agents, 0, i);
    }
}

proof fn lemma_telegram_first(agents: Seq<ReachView>, live: bool, a: int, i: int)
    requires
        0 <= a <= i < agents.len(),
        reaches(agents[i], "telegram"@, !live),
        forall|j: int| a <= j < i ==> !reaches(#[trigger] agents[j], "telegram"@, !live),
    ensures
        telegram_target(agents, live, a) == telegram_target(agents, live, i),
    decreases i - a,
{
    if a < i {
        assert(!reaches(agents[a], "telegram"@, !live));
        lemma_telegram_first(agents, live, a + 1, i);
    }
}

proof fn lemma_discord_first(agents: Seq<ReachView>, a: int, i: int)
    requires
        0 <= a <= i < agents.len(),
        reaches(agents[i], "discord"@, false),
        forall|j: int| a <= j < i ==> (#[trigger] agents[j]).discord_channel is None,
    ensures
        discord_target(agents, a) == discord_target(agents, i),
    decreases i - a,
{
    if a < i {
        lemma_discord_first(agents, a + 1, i);
    }
}

/// Where no agent can be reached on the channel, nothing is sent.
pub proof fn law_without_an_agent_nothing_is_sent(channel: Seq<char>, pinned: bool, agents: Seq<ReachView>)
    requires
        forall|j: int| 0 <= j < agents.len() ==> !reaches(#[trigger] agents[j], channel, pinned),
    ensures
        target_of(channel, pinned, agents) is Err,
{
    lemma_no_target(channel, pinned, agents, 0);
}

proof fn lemma_no_target(channel: Seq<char>, pinned: bool, agents: Seq<ReachView>, i: int)
    requires
        0 <= i,
        forall|j: int| 0 <= j < agents.len() ==> !reaches(#[trigger] agents[j], channel, pinned),
    ensures
        channel == "telegram"@ ==> telegram_target(agents, !pinned, i) is None,
        channel == "discord"@ ==> discord_target(agents, i) is None,
    decreases agents.len() - i,
{
    if i < agents.len() {
        assert(!reaches(agents[i], channel, pinned));
        lemma_no_target(channel, pinned, agents, i + 1);
    }
}

/// Silence is not sent: neither an empty result nor the sentinel, with or
/// without white space around it. Every other result is.
pub proof fn law_only_silence_is_not_sent(text: Seq<char>, sentinel: Seq<char>)
    requires
        t::trimmed(sentinel) == sentinel,
    ensures
        !deliverable(sentinel, sentinel),
        !deliverable(Seq::empty(), sentinel),
        t::trimmed(text).len() > 0 && t::trimmed(text) != sentinel ==> deliverable(text, sentinel),
        t::trimmed(text) == sentinel || t::trimmed(text).len() == 0 ==> !deliverable(text, sentinel),
{
}

} // verus!
