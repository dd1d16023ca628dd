//! The web cockpit: where it listens, and what it makes of what is sent to it.

use crate::channels::media;
use crate::channels::media::supported_ext_names;
use crate::graph::is_supported_ext;
use crate::http;
use crate::text as t;
use vstd::prelude::*;
use vstd::string::*;

verus! {

/// The address of the tailnet that a command printed: the first line, without
/// the blanks around it.
pub open spec fn tailnet_ip(success: bool, stdout: Seq<u8>) -> Option<Seq<char>> {
    let lines = t::lines_of(http::lossy(stdout));
    if success && lines.len() > 0 && t::trimmed(lines[0]).len() > 0 {
        Some(t::trimmed(lines[0]))
    } else {
        None
    }
}

pub fn tailscale_ipv4(success: bool, stdout: &[u8]) -> (r: Option<String>)
    ensures
        t::opt_view(r) == tailnet_ip(success, stdout@),
{
    if !success {
        return None;
    }
    let lines = t::lines(http::lossy_text(stdout).as_str());
    let ghost all = t::lines_of(http::lossy(stdout@));
    if lines.len() == 0 {
        return None;
    }
    assert(all[0] == lines@[0]@);
    let ip = t::trim(lines[0].as_str());
    if ip.as_str().unicode_len() == 0 {
        None
    } else {
        Some(ip)
    }
}

pub open spec fn at_port(host: Seq<char>) -> Seq<char> {
    host + ":47836"@
}

/// Where the cockpit listens, or why it does not. An address that is given
/// counts; else the tailnet, where it is asked for; else what was chosen, which
/// is the tailnet unless it is one of the two other choices; and all interfaces
/// where there was nothing to choose.
pub open spec fn bind_of(
    explicit: Option<Seq<char>>,
    tailnet: bool,
    ip: Option<Seq<char>>,
    choice: Option<Seq<char>>,
) -> Result<Seq<char>, Seq<char>> {
    match explicit {
        Some(bind) => Ok(bind),
        None => if tailnet {
            match ip {
                Some(ip) => Ok(at_port(ip)),
                None => Err("--tailnet requested but Tailscale isn't up (no `tailscale ip -4`)"@),
            }
        } else {
            match (ip, choice) {
                (Some(ip), Some(choice)) => if choice == "2"@ {
                    Ok(at_port("0.0.0.0"@))
                } else if choice == "3"@ {
                    Ok(at_port("127.0.0.1"@))
                } else {
                    Ok(at_port(ip))
                },
                _ => Ok(at_port("0.0.0.0"@)),
            }
        },
    }
}

pub open spec fn bind_view(r: Result<String, String>) -> Result<Seq<char>, Seq<char>> {
    match r {
        Ok(s) => Ok(s@),
        Err(e) => Err(e@),
    }
}

pub fn web_bind_for(explicit: Option<&str>, tailnet: bool, tailscale_ip: Option<&str>, choice: Option<&str>) -> (r:
    Result<String, String>)
    ensures
        bind_view(r) == bind_of(t::opt_str(explicit), tailnet, t::opt_str(tailscale_ip), t::opt_str(choice)),
{
    match explicit {
        Some(bind) => Ok(bind.to_owned()),
        None => if tailnet {
            match tailscale_ip {
                Some(ip) => Ok(ip.to_owned().concat(":47836")),
                None => Err("--tailnet requested but Tailscale isn't up (no `tailscale ip -4`)".to_owned()),
            }
        } else {
            match (tailscale_ip, choice) {
                (Some(ip), Some(choice)) => if t::same(choice, "2") {
                    Ok("0.0.0.0".to_owned().concat(":47836"))
                } else if t::same(choice, "3") {
                    Ok("127.0.0.1".to_owned().concat(":47836"))
                } else {
                    Ok(ip.to_owned().concat(":47836"))
                },
                _ => Ok("0.0.0.0".to_owned().concat(":47836")),
            }
        },
    }
}

/// An address that is given always wins.
pub proof fn law_a_given_address_wins(
    bind: Seq<char>,
    tailnet: bool,
    ip: Option<Seq<char>>,
    choice: Option<Seq<char>>,
)
    ensures
        bind_of(Some(bind), tailnet, ip, choice) == Ok::<Seq<char>, Seq<char>>(bind),
{
}

/// Who asks for the tailnet and gives no address gets the tailnet or an error,
/// never another interface.
pub proof fn law_the_tailnet_is_kept_to(ip: Option<Seq<char>>, choice: Option<Seq<char>>)
    ensures
        bind_of(None, true, ip, choice) matches Ok(bind) ==> ip matches Some(host) && bind == at_port(host),
{
}

/// What is asked where the tailnet is up and nobody said where to listen.
pub open spec fn question(ip: Seq<char>) -> Seq<char> {
    "Tailscale detected at "@ + ip + ". Where should the web cockpit listen?\n  [1] tailnet only   "@ + ip
        + ":47836   (recommended -- your tailnet only)\n  [2] all interfaces 0.0.0.0:47836  (LAN + tailnet; put TLS in front)\n  [3] localhost only 127.0.0.1:47836\nChoose [1]: "@
}

/// The question to ask, if there is one: only on a terminal, and only where the
/// command leaves the choice open.
pub fn bind_question(explicit: bool, tailnet: bool, ip: Option<&str>, terminal: bool) -> (r: Option<String>)
    ensures
        t::opt_view(r) == if !explicit && !tailnet && terminal && ip is Some {
            Some(question(ip->0@))
        } else {
            None
        },
{
    if explicit || tailnet || !terminal {
        return None;
    }
    match ip {
        Some(ip) => Some(
            "Tailscale detected at ".to_owned().concat(ip).concat(
                ". Where should the web cockpit listen?\n  [1] tailnet only   ",
            ).concat(ip).concat(
                ":47836   (recommended -- your tailnet only)\n  [2] all interfaces 0.0.0.0:47836  (LAN + tailnet; put TLS in front)\n  [3] localhost only 127.0.0.1:47836\nChoose [1]: ",
            ),
        ),
        None => None,
    }
}

/// What an answered line chooses; an empty one chooses the first.
pub fn read_choice(line: &str) -> (r: String)
    ensures
        r@ == if t::trimmed(line@).len() == 0 {
            "1"@
        } else {
            t::trimmed(line@)
        },
{
    let c = t::trim(line);
    if c.as_str().unicode_len() == 0 {
        "1".to_owned()
    } else {
        c
    }
}

/// What is said when the cockpit starts.
pub fn cockpit_lines(bind: &str, home: &str) -> (r: Vec<String>)
    ensures
        t::texts(r@) == seq![
            "Maturana web cockpit \u{2192} http://"@ + bind@,
            "  login token: `maturana web token` (stored at "@ + home@ + "/web/token)"@,
        ],
{
    t::two_lines(
        "Maturana web cockpit \u{2192} http://".to_owned().concat(bind),
        "  login token: `maturana web token` (stored at ".to_owned().concat(home).concat("/web/token)"),
    )
}

/// The key of the chat that a session of the cockpit stands for.
pub fn web_chat_name(session_id: &str) -> (r: String)
    ensures
        r@ == "web:"@ + session_id@,
{
    "web:".to_owned().concat(session_id)
}

/// The command in a message, where it is one: without the blanks in front.
pub fn web_command(text: &str) -> (r: Option<String>)
    ensures
        t::opt_view(r) == if t::starts(t::trimmed_start(text@), "/"@) {
            Some(t::trimmed_start(text@))
        } else {
            None
        },
{
    let rest = t::trim_start(text);
    if t::starts_with(rest.as_str(), "/") {
        Some(rest)
    } else {
        None
    }
}

/// Why a file is not ingested, where it is not.
pub open spec fn ingest_refusal(graph: bool, token: bool, extension: Option<Seq<char>>) -> Option<Seq<char>> {
    if !graph {
        Some("knowledge graph is not enabled for this agent"@)
    } else if !token {
        Some("graph service token is missing"@)
    } else if extension is Some && media::supported_exts().contains(t::lower(extension->0)) {
        None
    } else {
        Some(
            "unsupported file type for graph ingest (supported: "@ + t::joined(media::supported_exts(), ", "@)
                + ")"@,
        )
    }
}

pub fn web_ingest_refusal(graph: bool, token: bool, extension: Option<&str>) -> (r: Option<String>)
    ensures
        t::opt_view(r) == ingest_refusal(graph, token, t::opt_str(extension)),
{
    if !graph {
        return Some("knowledge graph is not enabled for this agent".to_owned());
    }
    if !token {
        return Some("graph service token is missing".to_owned());
    }
    let supported = match extension {
        Some(e) => is_supported_ext(e),
        None => false,
    };
    if supported {
        None
    } else {
        Some(
            "unsupported file type for graph ingest (supported: ".to_owned().concat(
                t::join(&supported_ext_names(), ", ").as_str(),
            ).concat(")"),
        )
    }
}

/// Without an address of its own the cockpit listens where it was chosen: on the
/// tailnet, on all interfaces, or on the loopback one.
pub proof fn law_the_cockpit_listens_where_it_was_chosen(ip: Seq<char>, choice: Seq<char>)
    ensures
        bind_of(None, false, Some(ip), Some("2"@)) == Ok::<Seq<char>, Seq<char>>("0.0.0.0"@ + ":47836"@),
        bind_of(None, false, Some(ip), Some("3"@)) == Ok::<Seq<char>, Seq<char>>("127.0.0.1"@ + ":47836"@),
        choice != "2"@ && choice != "3"@ ==> bind_of(None, false, Some(ip), Some(choice)) == Ok::<Seq<char>, Seq<char>>(
            ip + ":47836"@,
        ),
        bind_of(None, true, Some(ip), Some(choice)) == Ok::<Seq<char>, Seq<char>>(ip + ":47836"@),
        bind_of(None, true, None, Some(choice)) is Err,
        bind_of(None, false, None, None) == Ok::<Seq<char>, Seq<char>>("0.0.0.0"@ + ":47836"@),
{
    reveal_strlit("2");
    reveal_strlit("3");
    assert("2"@.len() == 1 && "2"@[0] == '2');
    assert("3"@.len() == 1 && "3"@[0] == '3');
}

/// A file goes into the graph only where the agent has one, the service has a
/// token, and the file can be read.
pub proof fn law_a_file_is_ingested_only_with_a_graph(ext: Seq<char>)
    ensures
        ingest_refusal(false, true, Some(ext)) is Some,
        ingest_refusal(true, false, Some(ext)) is Some,
        ingest_refusal(true, true, None) is Some,
        media::supported_exts().contains(t::lower(ext)) ==> ingest_refusal(true, true, Some(ext)) is None,
        !media::supported_exts().contains(t::lower(ext)) ==> ingest_refusal(true, true, Some(ext)) is Some,
{
}

/// The address on the tailnet is the first line that was printed, where the
/// command went well.
pub proof fn law_the_tailnet_address_is_the_first_line(stdout: Seq<u8>, line: Seq<char>, rest: Seq<Seq<char>>)
    requires
        t::lines_of(http::lossy(stdout)) == seq![line] + rest,
        t::trimmed(line).len() > 0,
    ensures
        tailnet_ip(true, stdout) == Some(t::trimmed(line)),
        tailnet_ip(false, stdout) is None,
{
}

} // verus!
