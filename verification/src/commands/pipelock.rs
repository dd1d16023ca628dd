//! The secret vault, and the proxy that guards what agents may reach.

use crate::text as t;
use vstd::prelude::*;
use vstd::string::*;

verus! {

#[derive(Debug, PartialEq, Eq)]
pub enum PipelockSubcommand<S, L> {
    Init,
    Store { name: S, value: Option<S>, value_file: Option<S> },
    Get { name: S },
    List,
    Delete { name: S },
    CaCert,
    Proxy {
        agent_id: Option<S>,
        spec: Option<S>,
        bind: Option<S>,
        allowlist: L,
        allow_all: bool,
        inject_headers: L,
    },
}

impl View for PipelockSubcommand<String, Vec<String>> {
    type V = PipelockSubcommand<Seq<char>, Seq<Seq<char>>>;

    open spec fn view(&self) -> PipelockSubcommand<Seq<char>, Seq<Seq<char>>> {
        match self {
            PipelockSubcommand::Init => PipelockSubcommand::Init,
            PipelockSubcommand::Store { name, value, value_file } => PipelockSubcommand::Store {
                name: name@,
                value: t::opt_view(*value),
                value_file: t::opt_view(*value_file),
            },
            PipelockSubcommand::Get { name } => PipelockSubcommand::Get { name: name@ },
            PipelockSubcommand::List => PipelockSubcommand::List,
            PipelockSubcommand::Delete { name } => PipelockSubcommand::Delete { name: name@ },
            PipelockSubcommand::CaCert => PipelockSubcommand::CaCert,
            PipelockSubcommand::Proxy { agent_id, spec, bind, allowlist, allow_all, inject_headers } =>
                PipelockSubcommand::Proxy {
                agent_id: t::opt_view(*agent_id),
                spec: t::opt_view(*spec),
                bind: t::opt_view(*bind),
                allowlist: t::texts(allowlist@),
                allow_all: *allow_all,
                inject_headers: t::texts(inject_headers@),
            },
        }
    }
}

/// The text without the line ends behind it.
pub open spec fn without_newlines(value: Seq<char>) -> Seq<char> {
    t::trim_end_by(value, (t::Trim::Two { a: '\n', b: '\r' }).pred())
}

pub fn trim_trailing_newlines(value: String) -> (r: String)
    ensures
        r@ == without_newlines(value@),
{
    t::trim_end_matches(value.as_str(), &t::Trim::Two { a: '\n', b: '\r' })
}

/// Where the value of a secret comes from.
#[derive(Debug, PartialEq, Eq)]
pub enum ValueSource<S> {
    Given { value: S },
    File { path: S },
    Stdin,
}

impl View for ValueSource<String> {
    type V = ValueSource<Seq<char>>;

    open spec fn view(&self) -> ValueSource<Seq<char>> {
        match self {
            ValueSource::Given { value } => ValueSource::Given { value: value@ },
            ValueSource::File { path } => ValueSource::File { path: path@ },
            ValueSource::Stdin => ValueSource::Stdin,
        }
    }
}

pub open spec fn value_source(value: Option<Seq<char>>, file: Option<Seq<char>>) -> ValueSource<Seq<char>> {
    match value {
        Some(value) => ValueSource::Given { value },
        None => match file {
            Some(path) => ValueSource::File { path },
            None => ValueSource::Stdin,
        },
    }
}

pub fn read_pipelock_value(value: Option<String>, value_file: Option<String>) -> (r: ValueSource<String>)
    ensures
        r@ == value_source(t::opt_view(value), t::opt_view(value_file)),
{
    match value {
        Some(value) => ValueSource::Given { value },
        None => match value_file {
            Some(path) => ValueSource::File { path },
            None => ValueSource::Stdin,
        },
    }
}

/// The value that was read from the standard input; nothing at all is refused.
pub fn stdin_value(raw: String) -> (r: Result<String, &'static str>)
    ensures
        match r {
            Ok(value) => raw@.len() > 0 && value@ == without_newlines(raw@),
            Err(message) => raw@.len() == 0 && message@
                == "pipelock set requires --value, --value-file, or stdin"@,
        },
{
    if raw.as_str().unicode_len() == 0 {
        Err("pipelock set requires --value, --value-file, or stdin")
    } else {
        Ok(trim_trailing_newlines(raw))
    }
}

/// What a command on the vault has done.
#[derive(Debug, PartialEq, Eq)]
pub enum VaultOutcome<S, L> {
    Made { vault: S, key: S },
    Stored { name: S },
    Value { value: S },
    Names { names: L },
    Deleted { name: S, found: bool },
    Certificate { path: S },
}

impl View for VaultOutcome<String, Vec<String>> {
    type V = VaultOutcome<Seq<char>, Seq<Seq<char>>>;

    open spec fn view(&self) -> VaultOutcome<Seq<char>, Seq<Seq<char>>> {
        match self {
            VaultOutcome::Made { vault, key } => VaultOutcome::Made { vault: vault@, key: key@ },
            VaultOutcome::Stored { name } => VaultOutcome::Stored { name: name@ },
            VaultOutcome::Value { value } => VaultOutcome::Value { value: value@ },
            VaultOutcome::Names { names } => VaultOutcome::Names { names: t::texts(names@) },
            VaultOutcome::Deleted { name, found } => VaultOutcome::Deleted {
                name: name@,
                found: *found,
            },
            VaultOutcome::Certificate { path } => VaultOutcome::Certificate { path: path@ },
        }
    }
}

impl VaultOutcome<Seq<char>, Seq<Seq<char>>> {
    pub open spec fn lines(self) -> Seq<Seq<char>> {
        match self {
            VaultOutcome::Made { vault, key } => seq!["pipelock vault: "@ + vault, "pipelock key: "@ + key],
            VaultOutcome::Stored { name } => seq!["pipelock secret stored: "@ + name],
            VaultOutcome::Value { value } => seq![value],
            VaultOutcome::Names { names } => names,
            VaultOutcome::Deleted { name, found } => if found {
                seq!["pipelock secret deleted: "@ + name]
            } else {
                seq!["pipelock secret not found: "@ + name]
            },
            VaultOutcome::Certificate { path } => seq![path],
        }
    }
}

/// The lines that report what was done to the vault. A secret is printed only
/// where it was asked for.
pub fn handle_pipelock(outcome: VaultOutcome<String, Vec<String>>) -> (r: Vec<String>)
    ensures
        t::texts(r@) == outcome@.lines(),
{
    match outcome {
        VaultOutcome::Made { vault, key } => t::two_lines(
            "pipelock vault: ".to_owned().concat(vault.as_str()),
            "pipelock key: ".to_owned().concat(key.as_str()),
        ),
        VaultOutcome::Stored { name } => t::one_line("pipelock secret stored: ".to_owned().concat(name.as_str())),
        VaultOutcome::Value { value } => t::one_line(value),
        VaultOutcome::Names { names } => names,
        VaultOutcome::Deleted { name, found } => if found {
            t::one_line("pipelock secret deleted: ".to_owned().concat(name.as_str()))
        } else {
            t::one_line("pipelock secret not found: ".to_owned().concat(name.as_str()))
        },
        VaultOutcome::Certificate { path } => t::one_line(path),
    }
}

// ---------------------------------------------------------------------------
// The proxy
// ---------------------------------------------------------------------------

/// The description that a proxy follows: the one that is named, else that of
/// the agent.
pub fn proxy_spec(named: Option<String>, of_agent: Option<String>) -> (r: Option<String>)
    ensures
        t::opt_view(r) == if named is Some {
            t::opt_view(named)
        } else {
            t::opt_view(of_agent)
        },
{
    match named {
        Some(path) => Some(path),
        None => of_agent,
    }
}

/// Where a proxy listens that follows a description; an error where the
/// description is not valid or declares no proxy.
pub fn proxy_bind(path: &str, valid: bool, declared: Option<&str>, asked: Option<&str>) -> (r: Result<String, String>)
    ensures
        match r {
            Ok(bind) => valid && declared is Some && bind@ == (if asked is Some {
                asked->0@
            } else {
                declared->0@
            }),
            Err(message) => if !valid {
                message@ == "spec is invalid; run `maturana spec validate "@ + path@ + "`"@
            } else {
                declared is None && message@ == path@ + " does not declare network.proxy"@
            },
        },
{
    if !valid {
        return Err("spec is invalid; run `maturana spec validate ".to_owned().concat(path).concat("`"));
    }
    match declared {
        None => Err(path.to_owned().concat(" does not declare network.proxy")),
        Some(bind) => match asked {
            Some(a) => Ok(a.to_owned()),
            None => Ok(bind.to_owned()),
        },
    }
}

/// Where a proxy listens that follows no description.
pub fn free_proxy_bind(asked: Option<&str>) -> (r: String)
    ensures
        r@ == match asked {
            Some(a) => a@,
            None => "127.0.0.1:47833"@,
        },
{
    match asked {
        Some(a) => a.to_owned(),
        None => "127.0.0.1:47833".to_owned(),
    }
}

/// The log of a proxy.
pub fn proxy_audit_name(agent_id: Option<&str>) -> (r: String)
    ensures
        r@ == match agent_id {
            Some(id) => id@ + "-pipelock-proxy.jsonl"@,
            None => "pipelock-proxy.jsonl"@,
        },
{
    match agent_id {
        Some(id) => id.to_owned().concat("-pipelock-proxy.jsonl"),
        None => "pipelock-proxy.jsonl".to_owned(),
    }
}

/// What a proxy lets through, the headers that it adds, and what is said when it
/// starts.
#[derive(Debug, PartialEq, Eq)]
pub struct ProxyPlan {
    pub allowlist: Vec<String>,
    pub allow_all: bool,
    /// The headers as they are written, those of the description first.
    pub injections: Vec<String>,
    pub lines: Vec<String>,
}

pub open spec fn proxy_lines(bind: Seq<char>, allowed: Seq<Seq<char>>, allow_all: bool, audit: Seq<char>) -> Seq<
    Seq<char>,
> {
    seq![
        "pipelock proxy listening on "@ + bind,
        if allow_all {
            "pipelock proxy allowlist: ALLOW-ALL (egress governance off; still audited)"@
        } else {
            "pipelock proxy allowlist: "@ + t::joined(allowed, ", "@)
        },
        "pipelock proxy audit: "@ + audit,
    ]
}

/// Plans a proxy from what the description lets through and what the command
/// adds; one that would let nothing through is refused.
pub fn run_pipelock_proxy(
    bind: &str,
    described: &Vec<String>,
    described_all: bool,
    described_headers: &Vec<String>,
    added: &Vec<String>,
    added_all: bool,
    added_headers: &Vec<String>,
    audit: &str,
) -> (r: Result<ProxyPlan, &'static str>)
    ensures
        match r {
            Ok(plan) => {
                &&& described@.len() > 0 || added@.len() > 0 || described_all || added_all
                &&& t::texts(plan.allowlist@) == t::texts(described@) + t::texts(added@)
                &&& plan.allow_all == (described_all || added_all)
                &&& t::texts(plan.injections@) == t::texts(described_headers@) + t::texts(added_headers@)
                &&& t::texts(plan.lines@) == proxy_lines(
                    bind@,
                    t::texts(plan.allowlist@),
                    plan.allow_all,
                    audit@,
                )
            },
            Err(message) => described@.len() == 0 && added@.len() == 0 && !described_all && !added_all && message@
                == "pipelock proxy requires network.egress_allowlist, --allow <host>, or --allow-all"@,
        },
{
    let mut allowlist = t::no_lines();
    t::append_lines(&mut allowlist, described);
    t::append_lines(&mut allowlist, added);
    assert(t::texts(allowlist@) =~= t::texts(described@) + t::texts(added@));
    let allow_all = described_all || added_all;
    assert(allowlist@.len() == t::texts(allowlist@).len());
    if allowlist.len() == 0 && !allow_all {
        return Err("pipelock proxy requires network.egress_allowlist, --allow <host>, or --allow-all");
    }
    let mut injections = t::no_lines();
    t::append_lines(&mut injections, described_headers);
    t::append_lines(&mut injections, added_headers);
    assert(t::texts(injections@) =~= t::texts(described_headers@) + t::texts(added_headers@));
    let shown = if allow_all {
        "pipelock proxy allowlist: ALLOW-ALL (egress governance off; still audited)".to_owned()
    } else {
        "pipelock proxy allowlist: ".to_owned().concat(t::join(&allowlist, ", ").as_str())
    };
    let mut lines = t::two_lines("pipelock proxy listening on ".to_owned().concat(bind), shown);
    t::add_line(&mut lines, "pipelock proxy audit: ".to_owned().concat(audit));
    assert(t::texts(lines@) =~= proxy_lines(bind@, t::texts(allowlist@), allow_all, audit@));
    Ok(ProxyPlan { allowlist, allow_all, injections, lines })
}

/// A secret is taken from the command, else from its file, else from the input;
/// line ends behind it are no part of it.
pub proof fn law_a_secret_is_taken_from_where_it_is_given(value: Seq<char>, path: Seq<char>)
    requires
        value.len() > 0,
        value.last() != '\n',
        value.last() != '\r',
    ensures
        value_source(Some(value), Some(path)) == (ValueSource::<Seq<char>>::Given { value }),
        value_source(None, Some(path)) == (ValueSource::<Seq<char>>::File { path }),
        value_source(None, None) is Stdin,
        without_newlines(value) == value,
        without_newlines(value.push('\n')) == value,
        without_newlines(value.push('\r').push('\n')) == value,
{
    reveal_with_fuel(t::trim_end_by, 3);
    let p = (t::Trim::Two { a: '\n', b: '\r' }).pred();
    assert(t::trim_end_by(value, p) == value);
    assert(value.push('\n').drop_last() =~= value);
    assert(value.push('\r').drop_last() =~= value);
    assert(value.push('\r').push('\n').drop_last() =~= value.push('\r'));
    assert(t::trim_end_by(value.push('\r'), p) == value);
}

/// What the vault did is told: a stored secret by its name only, a value as it
/// is, and a secret that was not there as missing.
pub proof fn law_what_the_vault_did_is_told(name: Seq<char>, value: Seq<char>, names: Seq<Seq<char>>)
    ensures
        ({
            let stored: VaultOutcome<Seq<char>, Seq<Seq<char>>> = VaultOutcome::Stored { name };
            let told: VaultOutcome<Seq<char>, Seq<Seq<char>>> = VaultOutcome::Value { value };
            let listed: VaultOutcome<Seq<char>, Seq<Seq<char>>> = VaultOutcome::Names { names };
            let deleted: VaultOutcome<Seq<char>, Seq<Seq<char>>> = VaultOutcome::Deleted { name, found: true };
            let missing: VaultOutcome<Seq<char>, Seq<Seq<char>>> = VaultOutcome::Deleted { name, found: false };
            &&& stored.lines() == seq!["pipelock secret stored: "@ + name]
            &&& told.lines() == seq![value]
            &&& listed.lines() == names
            &&& deleted.lines() == seq!["pipelock secret deleted: "@ + name]
            &&& missing.lines() == seq!["pipelock secret not found: "@ + name]
        }),
{
}

/// The proxy tells where it listens, whom it lets through, and that everything is
/// let through where it is.
pub proof fn law_the_proxy_tells_whom_it_lets_through(bind: Seq<char>, allowed: Seq<Seq<char>>, audit: Seq<char>)
    ensures
        proxy_lines(bind, allowed, false, audit)[0] == "pipelock proxy listening on "@ + bind,
        proxy_lines(bind, allowed, false, audit)[1] == "pipelock proxy allowlist: "@ + t::joined(allowed, ", "@),
        proxy_lines(bind, allowed, true, audit)[1]
            == "pipelock proxy allowlist: ALLOW-ALL (egress governance off; still audited)"@,
        proxy_lines(bind, allowed, true, audit)[2] == "pipelock proxy audit: "@ + audit,
{
}

} // verus!
