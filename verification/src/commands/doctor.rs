//! The health report.

use crate::text as t;
use vstd::prelude::*;
use vstd::string::*;

verus! {

#[derive(Debug, PartialEq, Eq)]
pub struct DoctorCommand {
    pub agent_ids: Vec<String>,
    pub json: bool,
    pub sessiond_url: String,
}

/// How one component is doing.
#[derive(Debug, PartialEq, Eq)]
pub struct DoctorCheck<S> {
    pub ok: bool,
    pub message: S,
}

impl View for DoctorCheck<String> {
    type V = DoctorCheck<Seq<char>>;

    open spec fn view(&self) -> DoctorCheck<Seq<char>> {
        DoctorCheck {
            ok: self.ok,
            message: self.message@,
        }
    }
}

pub open spec fn check_lines(label: Seq<char>, check: DoctorCheck<Seq<char>>) -> Seq<Seq<char>> {
    t::added(
        seq![label + ".ok: "@ + t::truth_word(check.ok)],
        check.message.len() > 0,
        label + ".message: "@ + check.message,
    )
}

pub fn print_doctor_check(label: &str, check: &DoctorCheck<String>) -> (r: Vec<String>)
    ensures
        t::texts(r@) == check_lines(label@, check@),
{
    let mut lines = t::one_line(label.to_owned().concat(".ok: ").concat(t::truth_text(check.ok)));
    let said = check.message.as_str().unicode_len() > 0;
    let message = label.to_owned().concat(".message: ").concat(check.message.as_str());
    t::add_if(&mut lines, said, message.as_str());
    lines
}

/// How an agent is doing.
#[derive(Debug, PartialEq, Eq)]
pub struct DoctorAgent<S> {
    pub agent_id: S,
    pub vm: DoctorCheck<S>,
    pub telegram: DoctorCheck<S>,
    pub guest_worker: DoctorCheck<S>,
}

impl View for DoctorAgent<String> {
    type V = DoctorAgent<Seq<char>>;

    open spec fn view(&self) -> DoctorAgent<Seq<char>> {
        DoctorAgent {
            agent_id: self.agent_id@,
            vm: self.vm@,
            telegram: self.telegram@,
            guest_worker: self.guest_worker@,
        }
    }
}

pub open spec fn agents(v: Seq<DoctorAgent<String>>) -> Seq<DoctorAgent<Seq<char>>> {
    v.map_values(|x: DoctorAgent<String>| x@)
}

pub open spec fn agent_lines(a: DoctorAgent<Seq<char>>) -> Seq<Seq<char>> {
    seq!["agent: "@ + a.agent_id] + check_lines("  vm"@, a.vm) + check_lines("  telegram"@, a.telegram)
        + check_lines("  guest_worker"@, a.guest_worker)
}

pub open spec fn all_agent_lines(list: Seq<DoctorAgent<Seq<char>>>) -> Seq<Seq<char>>
    decreases list.len(),
{
    if list.len() == 0 {
        Seq::empty()
    } else {
        all_agent_lines(list.drop_last()) + agent_lines(list.last())
    }
}

#[derive(Debug, PartialEq, Eq)]
pub struct DoctorReport {
    pub ok: bool,
    pub home: String,
    pub hostd: DoctorCheck<String>,
    pub sessiond: DoctorCheck<String>,
    pub agents: Vec<DoctorAgent<String>>,
}

impl DoctorReport {
    pub open spec fn lines(self) -> Seq<Seq<char>> {
        seq!["maturana.ok: "@ + t::truth_word(self.ok), "home: "@ + self.home@] + check_lines(
            "hostd"@,
            self.hostd@,
        ) + check_lines("sessiond"@, self.sessiond@) + all_agent_lines(agents(self.agents@))
    }
}

fn print_agent(a: &DoctorAgent<String>) -> (r: Vec<String>)
    ensures
        t::texts(r@) == agent_lines(a@),
{
    let mut lines = t::one_line("agent: ".to_owned().concat(a.agent_id.as_str()));
    t::append_lines(&mut lines, &print_doctor_check("  vm", &a.vm));
    t::append_lines(&mut lines, &print_doctor_check("  telegram", &a.telegram));
    t::append_lines(&mut lines, &print_doctor_check("  guest_worker", &a.guest_worker));
    lines
}

fn print_agents(list: &Vec<DoctorAgent<String>>) -> (r: Vec<String>)
    ensures
        t::texts(r@) == all_agent_lines(agents(list@)),
{
    let ghost all = agents(list@);
    let mut lines = t::no_lines();
    let mut i: usize = 0;
    assert(all.take(0) =~= Seq::<DoctorAgent<Seq<char>>>::empty());
    while i < list.len()
        invariant
            i <= list@.len(),
            all == agents(list@),
            t::texts(lines@) == all_agent_lines(all.take(i as int)),
        decreases list@.len() - i,
    {
        t::append_lines(&mut lines, &print_agent(&list[i]));
        assert(all.take(i + 1).drop_last() =~= all.take(i as int));
        assert(all.take(i + 1).last() == list@[i as int]@);
        i += 1;
    }
    assert(all.take(all.len() as int) =~= all);
    lines
}

/// What the report prints, and the error it ends with; in JSON it prints no lines.
pub fn run_doctor(report: &DoctorReport, json: bool) -> (r: (Vec<String>, Option<&'static str>))
    ensures
        t::texts(r.0@) == if json {
            Seq::<Seq<char>>::empty()
        } else {
            report.lines()
        },
        t::opt_str(r.1) == if report.ok {
            None
        } else {
            Some("maturana doctor found unhealthy components"@)
        },
{
    let error: Option<&'static str> = if report.ok {
        None
    } else {
        Some("maturana doctor found unhealthy components")
    };
    if json {
        return (t::no_lines(), error);
    }
    let mut lines = t::two_lines(
        "maturana.ok: ".to_owned().concat(t::truth_text(report.ok)),
        "home: ".to_owned().concat(report.home.as_str()),
    );
    t::append_lines(&mut lines, &print_doctor_check("hostd", &report.hostd));
    t::append_lines(&mut lines, &print_doctor_check("sessiond", &report.sessiond));
    t::append_lines(&mut lines, &print_agents(&report.agents));
    (lines, error)
}

/// A check says whether it is well, and its message where it has one.
pub proof fn law_a_check_says_whether_it_is_well(label: Seq<char>, check: DoctorCheck<Seq<char>>)
    ensures
        check.ok ==> check_lines(label, check)[0] == label + ".ok: "@ + "true"@,
        !check.ok ==> check_lines(label, check)[0] == label + ".ok: "@ + "false"@,
        check.message.len() > 0 ==> check_lines(label, check).len() == 2 && check_lines(label, check)[1] == label
            + ".message: "@ + check.message,
        check.message.len() == 0 ==> check_lines(label, check).len() == 1,
{
}

/// Every agent is told of, its machine first.
pub proof fn law_every_agent_is_told_of(list: Seq<DoctorAgent<Seq<char>>>, i: int)
    requires
        0 <= i < list.len(),
    ensures
        all_agent_lines(list).contains("agent: "@ + list[i].agent_id),
        agent_lines(list[i])[0] == "agent: "@ + list[i].agent_id,
        list[i].vm.ok ==> agent_lines(list[i])[1] == "  vm"@ + ".ok: "@ + "true"@,
        !list[i].vm.ok ==> agent_lines(list[i])[1] == "  vm"@ + ".ok: "@ + "false"@,
    decreases list.len(),
{
    let front = all_agent_lines(list.drop_last());
    let last = agent_lines(list.last());
    let all = all_agent_lines(list);
    let vm = check_lines("  vm"@, list[i].vm);
    assert(agent_lines(list[i])[1] == vm[0]);
    if i == list.len() - 1 {
        assert(all[front.len() as int] == last[0]);
    } else {
        law_every_agent_is_told_of(list.drop_last(), i);
        assert(list.drop_last()[i] == list[i]);
        let k = choose|k: int| 0 <= k < front.len() && front[k] == "agent: "@ + list[i].agent_id;
        assert(all[k] == front[k]);
    }
}

} // verus!
