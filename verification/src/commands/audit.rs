//! The audit log of an agent.

use crate::text as t;
use vstd::prelude::*;
use vstd::string::*;

verus! {

/// The entries of a log up to a line: each with its line number, from one on,
/// and without the blanks around it. Blank lines are no entries.
pub open spec fn entries_to(lines: Seq<Seq<char>>) -> Seq<(int, Seq<char>)>
    decreases lines.len(),
{
    if lines.len() == 0 {
        Seq::empty()
    } else {
        let front = entries_to(lines.drop_last());
        if t::trimmed(lines.last()).len() == 0 {
            front
        } else {
            front.push((lines.len() as int, t::trimmed(lines.last())))
        }
    }
}

pub open spec fn entry_views(v: Seq<(usize, String)>) -> Seq<(int, Seq<char>)> {
    v.map_values(|e: (usize, String)| (e.0 as int, e.1@))
}

/// Takes a log apart into its entries.
pub fn audit_entries(raw: &str) -> (r: Vec<(usize, String)>)
    ensures
        entry_views(r@) == entries_to(t::lines_of(raw@)),
{
    let lines = t::lines(raw);
    let ghost all = t::texts(lines@);
    let mut r: Vec<(usize, String)> = Vec::new();
    let mut i: usize = 0;
    assert(all.take(0) =~= Seq::<Seq<char>>::empty());
    assert(entry_views(r@) =~= Seq::<(int, Seq<char>)>::empty());
    while i < lines.len()
        invariant
            i <= lines@.len(),
            all == t::texts(lines@),
            entry_views(r@) == entries_to(all.take(i as int)),
        decreases lines@.len() - i,
    {
        let ghost before = entry_views(r@);
        let line = t::trim(lines[i].as_str());
        assert(all.take(i + 1).drop_last() =~= all.take(i as int));
        assert(all.take(i + 1).last() == lines@[i as int]@);
        if line.as_str().unicode_len() > 0 {
            let ghost entry = ((i + 1) as int, line@);
            r.push((i + 1, line));
            assert(entry_views(r@) =~= before.push(entry));
        }
        i += 1;
    }
    assert(all.take(all.len() as int) =~= all);
    r
}

pub fn parse_error_text(path: &str, line: usize) -> (r: String)
    ensures
        r@ == "failed to parse audit log "@ + path@ + " at line "@ + t::decimal(line as nat),
{
    "failed to parse audit log ".to_owned().concat(path).concat(" at line ").concat(
        t::usize_text(line).as_str(),
    )
}

/// The first of the last `limit` entries.
pub fn tail_start(count: usize, limit: usize) -> (r: usize)
    ensures
        r == if count >= limit {
            count - limit
        } else {
            0
        },
{
    if count >= limit {
        count - limit
    } else {
        0
    }
}

/// An entry of the log, with its time as it is shown.
#[derive(Debug, PartialEq, Eq)]
pub struct AuditEvent<S> {
    pub at: S,
    pub action: S,
    pub message: S,
}

impl View for AuditEvent<String> {
    type V = AuditEvent<Seq<char>>;

    open spec fn view(&self) -> AuditEvent<Seq<char>> {
        AuditEvent {
            at: self.at@,
            action: self.action@,
            message: self.message@,
        }
    }
}

pub open spec fn events(v: Seq<AuditEvent<String>>) -> Seq<AuditEvent<Seq<char>>> {
    v.map_values(|e: AuditEvent<String>| e@)
}

pub open spec fn event_line(e: AuditEvent<Seq<char>>) -> Seq<char> {
    e.at + " "@ + e.action + " "@ + e.message
}

/// The last entries of the log, one to a line.
pub open spec fn tail_lines(agent_id: Seq<char>, list: Seq<AuditEvent<Seq<char>>>, limit: nat) -> Seq<Seq<char>> {
    let start = if list.len() >= limit {
        list.len() - limit
    } else {
        0
    };
    let shown = list.skip(start);
    if shown.len() == 0 {
        seq!["no audit events for "@ + agent_id]
    } else {
        shown.map_values(|e: AuditEvent<Seq<char>>| event_line(e))
    }
}

pub fn handle_audit(agent_id: &str, list: &Vec<AuditEvent<String>>, limit: usize) -> (r: Vec<String>)
    ensures
        t::texts(r@) == tail_lines(agent_id@, events(list@), limit as nat),
{
    let start: usize = tail_start(list.len(), limit);
    let ghost shown = events(list@).skip(start as int);
    if start == list.len() {
        return t::one_line("no audit events for ".to_owned().concat(agent_id));
    }
    let mut r: Vec<String> = Vec::new();
    let mut i: usize = start;
    while i < list.len()
        invariant
            start <= i <= list@.len(),
            shown == events(list@).skip(start as int),
            r@.len() == i - start,
            forall|k: int| 0 <= k < r@.len() ==> (#[trigger] r@[k])@ == event_line(shown[k]),
        decreases list@.len() - i,
    {
        let e = &list[i];
        assert(shown[i - start] == e@);
        r.push(e.at.clone().concat(" ").concat(e.action.as_str()).concat(" ").concat(e.message.as_str()));
        i += 1;
    }
    assert(t::texts(r@) =~= shown.map_values(|e: AuditEvent<Seq<char>>| event_line(e)));
    r
}

/// No more than `limit` entries are listed, and they are the last ones.
pub proof fn law_the_last_events_are_listed(agent_id: Seq<char>, list: Seq<AuditEvent<Seq<char>>>, limit: nat)
    requires
        list.len() > 0,
        limit > 0,
    ensures
        tail_lines(agent_id, list, limit).len() == (if list.len() >= limit {
            limit
        } else {
            list.len()
        }),
        tail_lines(agent_id, list, limit).last() == event_line(list.last()),
{
}

/// Every line that is not blank is an entry, under its own number and in its
/// order.
pub proof fn law_every_line_is_an_entry_of_its_number(lines: Seq<Seq<char>>, line: Seq<char>)
    ensures
        t::trimmed(line).len() > 0 ==> entries_to(lines.push(line)) == entries_to(lines).push(
            ((lines.len() + 1) as int, t::trimmed(line)),
        ),
        t::trimmed(line).len() == 0 ==> entries_to(lines.push(line)) == entries_to(lines),
        entries_to(Seq::empty()).len() == 0,
{
    assert(lines.push(line).drop_last() =~= lines);
    assert(lines.push(line).last() == line);
}

/// The events that are listed are the last ones, in their order, each with its
/// time, its action and its message.
pub proof fn law_an_event_is_listed_as_it_was(agent_id: Seq<char>, list: Seq<AuditEvent<Seq<char>>>, limit: nat, i: int)
    requires
        list.len() > 0,
        limit > 0,
        0 <= i < list.len(),
        list.len() - limit <= i,
    ensures
        ({
            let start = if list.len() >= limit {
                list.len() - limit
            } else {
                0
            };
            tail_lines(agent_id, list, limit)[i - start] == list[i].at + " "@ + list[i].action + " "@ + list[i].message
        }),
        tail_lines(agent_id, Seq::empty(), limit) == seq!["no audit events for "@ + agent_id],
{
    let none = Seq::<AuditEvent<Seq<char>>>::empty();
    assert(none.skip(0) =~= none);
}

} // verus!
