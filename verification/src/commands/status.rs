//! The dashboard: the runtime plane and the agents.

use crate::json;
use crate::json::{Json, Tree};
use crate::text as t;
use vstd::prelude::*;
use vstd::string::*;

verus! {

#[derive(Debug, PartialEq, Eq)]
pub struct ListCommand {
    /// Print JSON in place of the table.
    pub json: bool,
}

#[derive(Debug, PartialEq, Eq)]
pub struct StatusCommand {
    /// Print JSON in place of the dashboard.
    pub json: bool,
}

/// What the table shows of an agent.
#[derive(Debug, PartialEq, Eq)]
pub struct AgentRow<S> {
    pub agent: S,
    pub harness: S,
    pub vm: S,
    pub queue: S,
    pub last_turn: S,
}

impl View for AgentRow<String> {
    type V = AgentRow<Seq<char>>;

    open spec fn view(&self) -> AgentRow<Seq<char>> {
        AgentRow {
            agent: self.agent@,
            harness: self.harness@,
            vm: self.vm@,
            queue: self.queue@,
            last_turn: self.last_turn@,
        }
    }
}

pub type RowView = AgentRow<Seq<char>>;

pub open spec fn row_views(v: Seq<AgentRow<String>>) -> Seq<RowView> {
    v.map_values(|x: AgentRow<String>| x@)
}

pub open spec fn larger(a: nat, b: nat) -> nat {
    if a >= b {
        a
    } else {
        b
    }
}

/// How wide the columns are that hold the rows: each as wide as its title and
/// its longest cell.
pub struct Widths {
    pub agent: usize,
    pub harness: usize,
    pub vm: usize,
    pub queue: usize,
}

pub open spec fn agent_width(rows: Seq<RowView>) -> nat
    decreases rows.len(),
{
    if rows.len() == 0 {
        5
    } else {
        larger(agent_width(rows.drop_last()), rows.last().agent.len())
    }
}

pub open spec fn harness_width(rows: Seq<RowView>) -> nat
    decreases rows.len(),
{
    if rows.len() == 0 {
        7
    } else {
        larger(harness_width(rows.drop_last()), rows.last().harness.len())
    }
}

pub open spec fn vm_width(rows: Seq<RowView>) -> nat
    decreases rows.len(),
{
    if rows.len() == 0 {
        2
    } else {
        larger(vm_width(rows.drop_last()), rows.last().vm.len())
    }
}

pub open spec fn queue_width(rows: Seq<RowView>) -> nat
    decreases rows.len(),
{
    if rows.len() == 0 {
        5
    } else {
        larger(queue_width(rows.drop_last()), rows.last().queue.len())
    }
}

impl Widths {
    pub open spec fn fit(self, rows: Seq<RowView>) -> bool {
        self.agent == agent_width(rows) && self.harness == harness_width(rows) && self.vm == vm_width(rows)
            && self.queue == queue_width(rows)
    }
}

fn wider(a: usize, cell: &str) -> (r: usize)
    ensures
        r == larger(a as nat, cell@.len()),
{
    let n: usize = cell.unicode_len();
    if a >= n {
        a
    } else {
        n
    }
}

fn measure(rows: &Vec<AgentRow<String>>) -> (w: Widths)
    ensures
        w.fit(row_views(rows@)),
{
    let ghost all = row_views(rows@);
    let mut w = Widths { agent: 5, harness: 7, vm: 2, queue: 5 };
    let mut i: usize = 0;
    assert(all.take(0) =~= Seq::<RowView>::empty());
    while i < rows.len()
        invariant
            i <= rows@.len(),
            all == row_views(rows@),
            w.fit(all.take(i as int)),
        decreases rows@.len() - i,
    {
        assert(all.take(i + 1).drop_last() =~= all.take(i as int));
        assert(all.take(i + 1).last() == rows@[i as int]@);
        w = Widths {
            agent: wider(w.agent, rows[i].agent.as_str()),
            harness: wider(w.harness, rows[i].harness.as_str()),
            vm: wider(w.vm, rows[i].vm.as_str()),
            queue: wider(w.queue, rows[i].queue.as_str()),
        };
        i += 1;
    }
    assert(all.take(all.len() as int) =~= all);
    w
}

/// A line of the table.
pub open spec fn table_line(indent: Seq<char>, rows: Seq<RowView>, row: RowView) -> Seq<char> {
    indent + t::padded(row.agent, agent_width(rows)) + "  "@ + t::padded(row.harness, harness_width(rows)) + "  "@
        + t::padded(row.vm, vm_width(rows)) + "  "@ + t::padded(row.queue, queue_width(rows)) + "  "@
        + row.last_turn
}

pub open spec fn title_row() -> RowView {
    AgentRow { agent: "AGENT"@, harness: "HARNESS"@, vm: "VM"@, queue: "QUEUE"@, last_turn: "LAST TURN"@ }
}

/// The table: its titles, then a line for each agent.
pub open spec fn table(indent: Seq<char>, rows: Seq<RowView>) -> Seq<Seq<char>> {
    seq![table_line(indent, rows, title_row())] + rows.map_values(|row: RowView| table_line(indent, rows, row))
}

fn print_row(
    indent: &str,
    w: &Widths,
    agent: &str,
    harness: &str,
    vm: &str,
    queue: &str,
    last_turn: &str,
) -> (r: String)
    ensures
        r@ == indent@ + t::padded(agent@, w.agent as nat) + "  "@ + t::padded(harness@, w.harness as nat) + "  "@
            + t::padded(vm@, w.vm as nat) + "  "@ + t::padded(queue@, w.queue as nat) + "  "@ + last_turn@,
{
    indent.to_owned().concat(t::pad_right(agent, w.agent).as_str()).concat("  ").concat(
        t::pad_right(harness, w.harness).as_str(),
    ).concat("  ").concat(t::pad_right(vm, w.vm).as_str()).concat("  ").concat(
        t::pad_right(queue, w.queue).as_str(),
    ).concat("  ").concat(last_turn)
}

pub fn print_agent_table(rows: &Vec<AgentRow<String>>, indent: &str) -> (r: Vec<String>)
    ensures
        t::texts(r@) == table(indent@, row_views(rows@)),
{
    let ghost all = row_views(rows@);
    let w = measure(rows);
    let mut lines = t::one_line(print_row(indent, &w, "AGENT", "HARNESS", "VM", "QUEUE", "LAST TURN"));
    let ghost f = |row: RowView| table_line(indent@, all, row);
    let ghost body = all.map_values(f);
    let ghost top = seq![table_line(indent@, all, title_row())];
    let mut i: usize = 0;
    assert(top + body.take(0) =~= top);
    while i < rows.len()
        invariant
            i <= rows@.len(),
            all == row_views(rows@),
            w.fit(all),
            f == (|row: RowView| table_line(indent@, all, row)),
            body == all.map_values(f),
            t::texts(lines@) == top + body.take(i as int),
        decreases rows@.len() - i,
    {
        let row = &rows[i];
        let line = print_row(
            indent,
            &w,
            row.agent.as_str(),
            row.harness.as_str(),
            row.vm.as_str(),
            row.queue.as_str(),
            row.last_turn.as_str(),
        );
        assert(all[i as int] == row@);
        assert(line@ == body[i as int]);
        t::add_line(&mut lines, line);
        assert(top + body.take(i + 1) =~= (top + body.take(i as int)).push(body[i as int]));
        i += 1;
    }
    assert(body.take(body.len() as int) =~= body);
    lines
}

proof fn lemma_widths(rows: Seq<RowView>, i: int)
    requires
        0 <= i < rows.len(),
    ensures
        rows[i].agent.len() <= agent_width(rows),
        rows[i].harness.len() <= harness_width(rows),
        rows[i].vm.len() <= vm_width(rows),
        rows[i].queue.len() <= queue_width(rows),
    decreases rows.len(),
{
    if i < rows.len() - 1 {
        lemma_widths(rows.drop_last(), i);
        assert(rows.drop_last()[i] == rows[i]);
    }
}

/// The columns line up: in every line the cells of a column start at the same
/// place, so that all lines are equally long but for the last cell.
pub proof fn law_the_columns_line_up(indent: Seq<char>, rows: Seq<RowView>, i: int)
    requires
        0 <= i < rows.len(),
    ensures
        table_line(indent, rows, rows[i]).len() == indent.len() + agent_width(rows) + harness_width(rows) + vm_width(
            rows,
        ) + queue_width(rows) + 8 + rows[i].last_turn.len(),
{
    reveal_strlit("  ");
    lemma_widths(rows, i);
}

/// What the list of agents prints.
pub fn run_list(rows: &Vec<AgentRow<String>>, agents_dir: &str) -> (r: Vec<String>)
    ensures
        t::texts(r@) == if rows@.len() == 0 {
            seq![
                "No agents found under "@ + agents_dir@
                    + ".\nIf your agents live elsewhere, pass --home (or set MATURANA_HOME); otherwise create one with `maturana agent launch`."@,
            ]
        } else {
            table(Seq::empty(), row_views(rows@))
        },
{
    if rows.len() == 0 {
        t::one_line(
            "No agents found under ".to_owned().concat(agents_dir).concat(
                ".\nIf your agents live elsewhere, pass --home (or set MATURANA_HOME); otherwise create one with `maturana agent launch`.",
            ),
        )
    } else {
        print_agent_table(rows, t::empty_text().as_str())
    }
}

/// A time span in its largest unit.
pub open spec fn uptime(secs: u64) -> Seq<char> {
    if secs < 60 {
        t::decimal(secs as nat) + "s"@
    } else if secs < 3600 {
        t::decimal((secs / 60) as nat) + "m"@
    } else if secs < 86_400 {
        t::decimal((secs / 3600) as nat) + "h"@
    } else {
        t::decimal((secs / 86_400) as nat) + "d"@
    }
}

pub fn humanize_uptime(secs: u64) -> (r: String)
    ensures
        r@ == uptime(secs),
{
    if secs < 60 {
        t::u64_text(secs).concat("s")
    } else if secs < 3600 {
        t::u64_text(secs / 60).concat("m")
    } else if secs < 86_400 {
        t::u64_text(secs / 3600).concat("h")
    } else {
        t::u64_text(secs / 86_400).concat("d")
    }
}

pub open spec fn process_name(p: Tree) -> Seq<char> {
    match p.text_at("name"@) {
        Some(name) => name,
        None => "?"@,
    }
}

pub open spec fn process_number(p: Tree, key: Seq<char>) -> int {
    match p.uint64_at(key) {
        Some(n) => n,
        None => 0,
    }
}

/// The line of a process; the two services have lines of their own.
pub open spec fn process_line(p: Tree) -> Seq<char> {
    "  "@ + t::padded(process_name(p), 34) + "  running  restarts="@ + t::decimal(
        process_number(p, "restarts"@) as nat,
    ) + "  up="@ + uptime(process_number(p, "uptime_seconds"@) as u64)
}

pub open spec fn is_service(p: Tree) -> bool {
    process_name(p) == "sessiond"@ || process_name(p) == "graph"@
}

pub open spec fn process_lines(before: Seq<Seq<char>>, list: Seq<Tree>) -> Seq<Seq<char>>
    decreases list.len(),
{
    if list.len() == 0 {
        before
    } else {
        t::added(process_lines(before, list.drop_last()), !is_service(list.last()), process_line(list.last()))
    }
}

/// Which process the supervisor is, where that is known.
pub open spec fn supervisor_pid(state: Tree) -> Seq<char> {
    match state.uint64_at("pid"@) {
        Some(pid) => " (pid "@ + t::decimal(pid as nat) + ")"@,
        None => Seq::empty(),
    }
}

/// The lines on the supervisor and the two services.
pub open spec fn plane_head(state: Tree, sessiond_ok: bool, graph_ok: bool) -> Seq<Seq<char>> {
    seq![
        "PLANE"@,
        "  supervisor                          running"@ + supervisor_pid(state),
        "  sessiond :47834                     "@ + if sessiond_ok {
            "ok"@
        } else {
            "DOWN"@
        },
        "  graph    :47835                     "@ + if graph_ok {
            "ok"@
        } else {
            "not running"@
        },
    ]
}

/// The part of the dashboard on the plane.
pub open spec fn plane_lines(state: Option<Tree>, sessiond_ok: bool, graph_ok: bool) -> Seq<Seq<char>> {
    match state {
        None => seq![
            "PLANE"@,
            "  plane NOT running - start it with `maturana up` (or `maturana service install up`)."@,
        ],
        Some(state) => match state.items_at("processes"@) {
            Some(list) => process_lines(plane_head(state, sessiond_ok, graph_ok), list),
            None => plane_head(state, sessiond_ok, graph_ok),
        },
    }
}

fn number_at(p: &Json, key: &str) -> (r: u64)
    ensures
        r == process_number(p@, key@),
{
    match p.uint64_at(key) {
        Some(n) => n,
        None => 0,
    }
}

fn print_processes(lines: &mut Vec<String>, list: &Vec<Json>)
    ensures
        t::texts(final(lines)@) == process_lines(t::texts(old(lines)@), json::trees(list@)),
{
    let ghost before = t::texts(lines@);
    let ghost all = json::trees(list@);
    let mut i: usize = 0;
    assert(all.take(0) =~= Seq::<Tree>::empty());
    while i < list.len()
        invariant
            i <= list@.len(),
            all == json::trees(list@),
            t::texts(lines@) == process_lines(before, all.take(i as int)),
        decreases list@.len() - i,
    {
        let p = &list[i];
        assert(all.take(i + 1).drop_last() =~= all.take(i as int));
        assert(all.take(i + 1).last() == list@[i as int]@);
        let name = match p.text_at("name") {
            Some(name) => name,
            None => "?".to_owned(),
        };
        if !t::same(name.as_str(), "sessiond") && !t::same(name.as_str(), "graph") {
            let restarts: u64 = number_at(p, "restarts");
            let up: u64 = number_at(p, "uptime_seconds");
            let line = "  ".to_owned().concat(t::pad_right(name.as_str(), 34).as_str()).concat(
                "  running  restarts=",
            ).concat(t::u64_text(restarts).as_str()).concat("  up=").concat(humanize_uptime(up).as_str());
            t::add_line(lines, line);
        }
        i += 1;
    }
    assert(all.take(all.len() as int) =~= all);
}

pub fn print_plane(state: Option<&Json>, sessiond_ok: bool, graph_ok: bool) -> (r: Vec<String>)
    ensures
        t::texts(r@) == plane_lines(json::opt_tree(state), sessiond_ok, graph_ok),
{
    match state {
        None => t::two_lines(
            "PLANE".to_owned(),
            "  plane NOT running - start it with `maturana up` (or `maturana service install up`).".to_owned(),
        ),
        Some(state) => {
            let pid = match state.uint64_at("pid") {
                Some(pid) => " (pid ".to_owned().concat(t::u64_text(pid).as_str()).concat(")"),
                None => t::empty_text(),
            };
            let mut lines = t::two_lines(
                "PLANE".to_owned(),
                "  supervisor                          running".to_owned().concat(pid.as_str()),
            );
            let sessiond = if sessiond_ok {
                "ok"
            } else {
                "DOWN"
            };
            let graph = if graph_ok {
                "ok"
            } else {
                "not running"
            };
            t::add_line(&mut lines, "  sessiond :47834                     ".to_owned().concat(sessiond));
            t::add_line(&mut lines, "  graph    :47835                     ".to_owned().concat(graph));
            assert(pid@ == supervisor_pid(state@));
            assert(t::texts(lines@) =~= plane_head(state@, sessiond_ok, graph_ok));
            match state.items_at("processes") {
                Some(list) => {
                    print_processes(&mut lines, list);
                },
                None => {},
            }
            lines
        },
    }
}

/// The part of the dashboard on the agents.
pub open spec fn agents_lines(rows: Seq<RowView>, agents_dir: Seq<char>) -> Seq<Seq<char>> {
    seq![Seq::<char>::empty(), "AGENTS"@] + if rows.len() == 0 {
        seq!["  (none under "@ + agents_dir + ")"@]
    } else {
        table("  "@, rows)
    }
}

/// The dashboard.
pub fn run_status(
    state: Option<&Json>,
    sessiond_ok: bool,
    graph_ok: bool,
    rows: &Vec<AgentRow<String>>,
    agents_dir: &str,
) -> (r: Vec<String>)
    ensures
        t::texts(r@) == plane_lines(json::opt_tree(state), sessiond_ok, graph_ok) + agents_lines(
            row_views(rows@),
            agents_dir@,
        ),
{
    let mut lines = print_plane(state, sessiond_ok, graph_ok);
    let mut part = t::two_lines(t::empty_text(), "AGENTS".to_owned());
    let body = if rows.len() == 0 {
        t::one_line("  (none under ".to_owned().concat(agents_dir).concat(")"))
    } else {
        print_agent_table(rows, "  ")
    };
    t::append_lines(&mut part, &body);
    t::append_lines(&mut lines, &part);
    lines
}

/// The dashboard from the text that the supervisor left, where there is one; a
/// text that is no JSON counts as none.
pub fn read_status(
    raw: Option<&str>,
    sessiond_ok: bool,
    graph_ok: bool,
    rows: &Vec<AgentRow<String>>,
    agents_dir: &str,
) -> (r: Vec<String>)
    ensures
        t::texts(r@) == plane_lines(left_state(t::opt_str(raw)), sessiond_ok, graph_ok) + agents_lines(
            row_views(rows@),
            agents_dir@,
        ),
{
    let state = read_state(raw);
    run_status(state.as_ref(), sessiond_ok, graph_ok, rows, agents_dir)
}

/// What the supervisor left.
pub open spec fn left_state(raw: Option<Seq<char>>) -> Option<Tree> {
    match raw {
        Some(raw) => json::parsed_json(raw),
        None => None,
    }
}

fn read_state(raw: Option<&str>) -> (r: Option<Json>)
    ensures
        match r {
            Some(state) => left_state(t::opt_str(raw)) == Some(state@),
            None => left_state(t::opt_str(raw)) is None,
        },
{
    match raw {
        Some(raw) => json::parse_json(raw),
        None => None,
    }
}

/// The report in JSON: the plane as the supervisor left it, and the agents.
pub open spec fn report_tree(raw: Option<Seq<char>>, sessiond_ok: bool, graph_ok: bool, agents: Tree) -> Tree {
    Tree::Record(
        seq![
            (
                "plane"@,
                match left_state(raw) {
                    Some(state) => state,
                    None => Tree::Null,
                },
            ),
            ("sessiond_ok"@, Tree::Bool(sessiond_ok)),
            ("graph_ok"@, Tree::Bool(graph_ok)),
            ("agents"@, agents),
        ],
    )
}

pub fn status_report(raw: Option<&str>, sessiond_ok: bool, graph_ok: bool, agents: Json) -> (r: Json)
    ensures
        r@ == report_tree(t::opt_str(raw), sessiond_ok, graph_ok, agents@),
{
    let ghost rows = agents@;
    let plane = match read_state(raw) {
        Some(state) => state,
        None => Json::Null,
    };
    let mut f: Vec<(String, Json)> = Vec::new();
    json::field(&mut f, "plane", plane);
    json::field(&mut f, "sessiond_ok", Json::Bool(sessiond_ok));
    json::field(&mut f, "graph_ok", Json::Bool(graph_ok));
    json::field(&mut f, "agents", agents);
    assert(json::entries(f@) =~= report_tree(t::opt_str(raw), sessiond_ok, graph_ok, rows)->Record_0);
    json::record(f)
}

/// An uptime is told in the largest unit that fits.
pub proof fn law_an_uptime_is_told_in_its_unit(n: u64)
    ensures
        n < 60 ==> uptime(n) == t::decimal(n as nat) + "s"@,
        1 <= n < 60 ==> uptime((n * 60) as u64) == t::decimal(n as nat) + "m"@,
        1 <= n < 24 ==> uptime((n * 3600) as u64) == t::decimal(n as nat) + "h"@,
        1 <= n < 1000 ==> uptime((n * 86_400) as u64) == t::decimal(n as nat) + "d"@,
{
}

/// A plane that runs tells of its services as they are and of every other
/// process; one that does not says how to start it.
pub proof fn law_the_plane_is_told_as_it_is(state: Tree, sessiond_ok: bool, graph_ok: bool, list: Seq<Tree>, i: int)
    requires
        state.items_at("processes"@) == Some(list),
        0 <= i < list.len(),
    ensures
        ({
            let lines = plane_lines(Some(state), sessiond_ok, graph_ok);
            &&& lines.len() >= 4
            &&& sessiond_ok ==> lines[2] == "  sessiond :47834                     "@ + "ok"@
            &&& !sessiond_ok ==> lines[2] == "  sessiond :47834                     "@ + "DOWN"@
            &&& graph_ok ==> lines[3] == "  graph    :47835                     "@ + "ok"@
            &&& !graph_ok ==> lines[3] == "  graph    :47835                     "@ + "not running"@
            &&& process_name(list[i]) != "sessiond"@ && process_name(list[i]) != "graph"@ ==> lines.contains(
                process_line(list[i]),
            )
            &&& plane_lines(None, sessiond_ok, graph_ok).len() == 2
        }),
{
    let head = plane_head(state, sessiond_ok, graph_ok);
    lemma_process_lines(head, list, i);
}

proof fn lemma_process_lines(before: Seq<Seq<char>>, list: Seq<Tree>, i: int)
    requires
        0 <= i < list.len(),
    ensures
        process_lines(before, list).len() >= before.len(),
        process_lines(before, list).take(before.len() as int) == before,
        !is_service(list[i]) ==> process_lines(before, list).contains(process_line(list[i])),
    decreases list.len(),
{
    let front = process_lines(before, list.drop_last());
    let all = process_lines(before, list);
    if list.len() == 1 {
        assert(front == before);
        assert(all.take(before.len() as int) =~= before);
        if !is_service(list[i]) {
            assert(all[before.len() as int] == process_line(list[i]));
        }
    } else {
        let k = if i < list.len() - 1 {
            i
        } else {
            0
        };
        lemma_process_lines(before, list.drop_last(), k);
        assert(all.take(before.len() as int) =~= front.take(before.len() as int));
        if !is_service(list[i]) {
            if i < list.len() - 1 {
                assert(list.drop_last()[i] == list[i]);
                let j = choose|j: int| 0 <= j < front.len() && front[j] == process_line(list[i]);
                assert(all[j] == process_line(list[i]));
            } else {
                assert(all[front.len() as int] == process_line(list[i]));
            }
        }
    }
}

/// Every agent has a line, with its name in front and its last turn at the end;
/// where there is none, the directory is told.
pub proof fn law_every_agent_has_a_line(rows: Seq<RowView>, agents_dir: Seq<char>, i: int)
    requires
        0 <= i < rows.len(),
    ensures
        agents_lines(rows, agents_dir).len() == rows.len() + 3,
        t::starts(agents_lines(rows, agents_dir)[i + 3], "  "@ + rows[i].agent),
        t::ends(agents_lines(rows, agents_dir)[i + 3], rows[i].last_turn),
        agents_lines(Seq::empty(), agents_dir)[2] == "  (none under "@ + agents_dir + ")"@,
{
    let line = table_line("  "@, rows, rows[i]);
    assert(agents_lines(rows, agents_dir)[i + 3] == line);
    assert(line.subrange(line.len() - rows[i].last_turn.len(), line.len() as int) =~= rows[i].last_turn);
    let a = "  "@ + rows[i].agent;
    let wide = t::padded(rows[i].agent, agent_width(rows));
    assert(wide.len() >= rows[i].agent.len());
    assert(line.subrange(0, a.len() as int) =~= a);
}

/// The report holds what the plane left, how the services are, and the agents.
pub proof fn law_the_report_holds_what_is_known(raw: Seq<char>, sessiond_ok: bool, graph_ok: bool, agents: Tree)
    ensures
        ({
            let r = report_tree(Some(raw), sessiond_ok, graph_ok, agents);
            &&& json::parsed_json(raw) matches Some(state) ==> r.get("plane"@) == Some(state)
            &&& r.truth_at("sessiond_ok"@) == Some(sessiond_ok)
            &&& r.truth_at("graph_ok"@) == Some(graph_ok)
            &&& r.get("agents"@) == Some(agents)
        }),
        report_tree(None, sessiond_ok, graph_ok, agents).get("plane"@) == Some(Tree::Null),
{
    reveal_strlit("plane");
    reveal_strlit("sessiond_ok");
    reveal_strlit("graph_ok");
    reveal_strlit("agents");
    assert("plane"@.len() == 5 && "plane"@[0] == 'p' && "plane"@[1] == 'l' && "plane"@[2] == 'a' && "plane"@[3] == 'n' && "plane"@[4] == 'e');
    assert("sessiond_ok"@.len() == 11 && "sessiond_ok"@[0] == 's' && "sessiond_ok"@[1] == 'e' && "sessiond_ok"@[2] == 's' && "sessiond_ok"@[3] == 's' && "sessiond_ok"@[4] == 'i' && "sessiond_ok"@[5] == 'o');
    assert("graph_ok"@.len() == 8 && "graph_ok"@[0] == 'g' && "graph_ok"@[1] == 'r' && "graph_ok"@[2] == 'a' && "graph_ok"@[3] == 'p' && "graph_ok"@[4] == 'h' && "graph_ok"@[5] == '_');
    assert("agents"@.len() == 6 && "agents"@[0] == 'a' && "agents"@[1] == 'g' && "agents"@[2] == 'e' && "agents"@[3] == 'n' && "agents"@[4] == 't' && "agents"@[5] == 's');
    reveal_with_fuel(json::entry_from, 5);
}

} // verus!
