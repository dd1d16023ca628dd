//! The daemon that manages virtual machines for agents on a Windows host.

use crate::http;
use crate::json;
use crate::json::{parse_json, parse_json_bytes, Json, Tree};
use crate::text as t;
use vstd::prelude::*;
use vstd::string::*;

verus! {

// ---------------------------------------------------------------------------
// Names
// ---------------------------------------------------------------------------

/// An agent id holds lower case letters, digits and dashes only.
pub open spec fn agent_id_char(c: char) -> bool {
    t::ascii_lower(c) || t::digit(c) || c == '-'
}

pub open spec fn valid_agent_id(s: Seq<char>) -> bool {
    s.len() > 0 && forall|i: int| 0 <= i < s.len() ==> agent_id_char(#[trigger] s[i])
}

pub open spec fn bad_agent_text(agent_id: Seq<char>) -> Seq<char> {
    "invalid agent id: "@ + agent_id
}

/// Whether the daemon takes an agent id; what it says where it does not.
pub fn validate_hostd_agent_id(agent_id: &str) -> (r: Result<(), String>)
    ensures
        match r {
            Ok(_) => valid_agent_id(agent_id@),
            Err(message) => !valid_agent_id(agent_id@) && message@ == bad_agent_text(agent_id@),
        },
{
    let v = t::chars_of(agent_id);
    let mut ok = v.len() > 0;
    let mut i: usize = 0;
    while i < v.len()
        invariant
            i <= v.len(),
            v@ == agent_id@,
            ok <==> (v@.len() > 0 && forall|k: int| 0 <= k < i ==> agent_id_char(#[trigger] v@[k])),
        decreases v.len() - i,
    {
        let c = v[i];
        if !(t::is_ascii_lower(c) || t::is_digit(c) || c == '-') {
            ok = false;
            assert(!agent_id_char(v@[i as int]));
        }
        i += 1;
    }
    if ok {
        Ok(())
    } else {
        Err("invalid agent id: ".to_owned().concat(agent_id))
    }
}

/// The virtual machine of an agent.
pub open spec fn vm_of(agent_id: Seq<char>) -> Seq<char> {
    "maturana-"@ + agent_id
}

pub fn hostd_vm_name(agent_id: &str) -> (r: Result<String, String>)
    ensures
        match r {
            Ok(name) => valid_agent_id(agent_id@) && name@ == vm_of(agent_id@),
            Err(message) => !valid_agent_id(agent_id@) && message@ == bad_agent_text(agent_id@),
        },
{
    match validate_hostd_agent_id(agent_id) {
        Ok(_) => Ok("maturana-".to_owned().concat(agent_id)),
        Err(message) => Err(message),
    }
}

pub open spec fn snapshot_char(c: char) -> bool {
    t::ascii_alnum(c) || c == '.' || c == '_' || c == '-'
}

pub open spec fn valid_snapshot_name(s: Seq<char>) -> bool {
    s.len() > 0 && forall|i: int| 0 <= i < s.len() ==> snapshot_char(#[trigger] s[i])
}

pub open spec fn bad_snapshot_text(name: Seq<char>) -> Seq<char> {
    "invalid snapshot name: "@ + name
}

/// Whether the daemon takes the name of a snapshot: the name itself, or what
/// it says where it does not.
pub fn validate_hostd_snapshot_name(name: &str) -> (r: Result<&str, String>)
    ensures
        match r {
            Ok(s) => valid_snapshot_name(name@) && s@ == name@,
            Err(message) => !valid_snapshot_name(name@) && message@ == bad_snapshot_text(name@),
        },
{
    let v = t::chars_of(name);
    let mut ok = v.len() > 0;
    let mut i: usize = 0;
    while i < v.len()
        invariant
            i <= v.len(),
            v@ == name@,
            ok <==> (v@.len() > 0 && forall|k: int| 0 <= k < i ==> snapshot_char(#[trigger] v@[k])),
        decreases v.len() - i,
    {
        let c = v[i];
        if !(t::is_ascii_alnum(c) || c == '.' || c == '_' || c == '-') {
            ok = false;
            assert(!snapshot_char(v@[i as int]));
        }
        i += 1;
    }
    if ok {
        Ok(name)
    } else {
        Err("invalid snapshot name: ".to_owned().concat(name))
    }
}

/// A name that the daemon takes ends no quoted text of a script: it holds no
/// quote, no blank and no line end.
pub proof fn law_names_stay_inside_their_quotes(name: Seq<char>, i: int)
    requires
        valid_agent_id(name) || valid_snapshot_name(name),
        0 <= i < name.len(),
    ensures
        name[i] != '\'',
        name[i] != '"',
        name[i] != '\n',
        name[i] != ' ',
        name[i] != '/',
        name[i] != '$',
{
    assert(agent_id_char(name[i]) || snapshot_char(name[i]));
}

// ---------------------------------------------------------------------------
// Requests
// ---------------------------------------------------------------------------

pub open spec fn hex_value(b: u8) -> Option<u8> {
    if 0x30 <= b <= 0x39 {
        Some((b - 0x30) as u8)
    } else if 0x41 <= b <= 0x46 {
        Some((b - 0x41 + 10) as u8)
    } else if 0x61 <= b <= 0x66 {
        Some((b - 0x61 + 10) as u8)
    } else {
        None
    }
}

fn hex_digit(b: u8) -> (r: Option<u8>)
    ensures
        r == hex_value(b),
        r matches Some(n) ==> n < 16,
{
    if 0x30 <= b && b <= 0x39 {
        Some(b - 0x30)
    } else if 0x41 <= b && b <= 0x46 {
        Some(b - 0x41 + 10)
    } else if 0x61 <= b && b <= 0x66 {
        Some(b - 0x61 + 10)
    } else {
        None
    }
}

/// The byte that two characters stand for in hexadecimal; a plus sign may
/// stand before a single digit.
pub open spec fn hex_pair(a: u8, b: u8) -> Option<u8> {
    match hex_value(b) {
        None => None,
        Some(low) => if a == 0x2b {
            Some(low)
        } else {
            match hex_value(a) {
                None => None,
                Some(high) => Some((high * 16 + low) as u8),
            }
        },
    }
}

fn hex_byte(a: u8, b: u8) -> (r: Option<u8>)
    ensures
        r == hex_pair(a, b),
{
    match hex_digit(b) {
        None => None,
        Some(low) => if a == 0x2b {
            Some(low)
        } else {
            match hex_digit(a) {
                None => None,
                Some(high) => Some(high * 16 + low),
            }
        },
    }
}

/// Whether an escape begins at `i`: a percent sign with two bytes behind it.
pub open spec fn escape_at(bytes: Seq<u8>, i: int) -> bool {
    bytes[i] == 0x25 && i + 2 < bytes.len()
}

/// How many bytes are decoded together at `i`.
pub open spec fn decode_width(bytes: Seq<u8>, i: int) -> int {
    if escape_at(bytes, i) && hex_pair(bytes[i + 1], bytes[i + 2]) is Some {
        3
    } else {
        1
    }
}

/// The byte that is decoded at `i`.
pub open spec fn decode_at(bytes: Seq<u8>, i: int) -> u8 {
    if escape_at(bytes, i) && hex_pair(bytes[i + 1], bytes[i + 2]) is Some {
        hex_pair(bytes[i + 1], bytes[i + 2])->0
    } else if bytes[i] == 0x2b {
        0x20
    } else {
        bytes[i]
    }
}

/// The bytes from `i` on, decoded.
pub open spec fn decoded_from(bytes: Seq<u8>, i: int) -> Seq<u8>
    decreases bytes.len() - i,
{
    if i < 0 || i >= bytes.len() {
        Seq::empty()
    } else {
        seq![decode_at(bytes, i)] + decoded_from(bytes, i + decode_width(bytes, i))
    }
}

/// Whether no escape from `i` on ends inside a character.
pub open spec fn whole_from(bytes: Seq<u8>, i: int) -> bool
    decreases bytes.len() - i,
{
    if i < 0 || i >= bytes.len() {
        true
    } else {
        (escape_at(bytes, i) && i + 3 < bytes.len() ==> !(0x80 <= bytes[i + 3] < 0xc0)) && whole_from(
            bytes,
            i + decode_width(bytes, i),
        )
    }
}

/// Whether a value can be decoded: none of its escapes ends inside a character.
pub open spec fn decodable(value: Seq<char>) -> bool {
    whole_from(vstd::utf8::encode_utf8(value), 0)
}

pub open spec fn decoded(value: Seq<char>) -> Seq<char> {
    http::lossy(decoded_from(vstd::utf8::encode_utf8(value), 0))
}

pub fn is_decodable(value: &str) -> (r: bool)
    ensures
        r == decodable(value@),
{
    let bytes = value.as_bytes();
    let mut i: usize = 0;
    while i < bytes.len()
        invariant
            bytes@ == vstd::utf8::encode_utf8(value@),
            i <= bytes@.len(),
            whole_from(bytes@, 0) == whole_from(bytes@, i as int),
        decreases bytes@.len() - i,
    {
        let left: usize = bytes.len() - i;
        if bytes[i] == 0x25 && left > 2 {
            if left > 3 && 0x80 <= bytes[i + 3] && bytes[i + 3] < 0xc0 {
                return false;
            }
            if hex_byte(bytes[i + 1], bytes[i + 2]).is_some() {
                i += 3;
            } else {
                i += 1;
            }
        } else {
            i += 1;
        }
    }
    true
}

/// Decodes a value of a query: escapes and plus signs.
pub fn percent_decode_minimal(value: &str) -> (r: String)
    requires
        decodable(value@),
    ensures
        r@ == decoded(value@),
{
    let bytes = value.as_bytes();
    let mut output: Vec<u8> = Vec::new();
    let mut i: usize = 0;
    assert(Seq::<u8>::empty() + decoded_from(bytes@, 0) =~= decoded_from(bytes@, 0));
    while i < bytes.len()
        invariant
            i <= bytes@.len(),
            decoded_from(bytes@, 0) == output@ + decoded_from(bytes@, i as int),
        decreases bytes@.len() - i,
    {
        let ghost before = output@;
        let ghost at = i as int;
        let left: usize = bytes.len() - i;
        let pair: Option<u8> = if bytes[i] == 0x25 && left > 2 {
            hex_byte(bytes[i + 1], bytes[i + 2])
        } else {
            None
        };
        match pair {
            Some(b) => {
                output.push(b);
                i += 3;
            },
            None => {
                if bytes[i] == 0x2b {
                    output.push(0x20);
                } else {
                    output.push(bytes[i]);
                }
                i += 1;
            },
        }
        assert(output@ =~= before + seq![decode_at(bytes@, at)]);
        assert(before + (seq![decode_at(bytes@, at)] + decoded_from(bytes@, i as int)) =~= output@ + decoded_from(
            bytes@,
            i as int,
        ));
    }
    assert(output@ + decoded_from(bytes@, i as int) =~= output@);
    http::lossy_text(output.as_slice())
}

/// A name and its value, as a query holds them.
pub open spec fn raw_pair(piece: Seq<char>) -> (Seq<char>, Seq<char>) {
    match t::cut(piece, "="@) {
        Some(p) => p,
        None => (piece, Seq::empty()),
    }
}

fn split_pair(piece: &str) -> (r: (String, String))
    ensures
        (r.0@, r.1@) == raw_pair(piece@),
{
    match t::split_once(piece, "=") {
        Some(p) => p,
        None => (piece.to_owned(), t::empty_text()),
    }
}

/// The parts of a target: the path, and the pieces of its query.
pub open spec fn target_path(target: Seq<char>) -> Seq<char> {
    match t::cut(target, "?"@) {
        Some((path, _)) => path,
        None => target,
    }
}

pub open spec fn target_query(target: Seq<char>) -> Seq<char> {
    match t::cut(target, "?"@) {
        Some((_, query)) => query,
        None => Seq::empty(),
    }
}

pub open spec fn query_pieces(target: Seq<char>) -> Seq<Seq<char>> {
    t::nonempty(t::pieces(target_query(target), "&"@))
}

/// Whether every value of the query can be decoded.
pub open spec fn target_decodable(target: Seq<char>) -> bool {
    forall|i: int| 0 <= i < query_pieces(target).len() ==> decodable(raw_pair(#[trigger] query_pieces(target)[i]).1)
}

/// The names and decoded values of the query, in order.
pub open spec fn query_of(target: Seq<char>) -> Seq<(Seq<char>, Seq<char>)> {
    query_pieces(target).map_values(|p: Seq<char>| (raw_pair(p).0, decoded(raw_pair(p).1)))
}

fn cut_target(target: &str) -> (r: (String, Vec<String>))
    ensures
        r.0@ == target_path(target@),
        t::texts(r.1@) == query_pieces(target@),
{
    proof {
        reveal_strlit("&");
    }
    let (path, query) = match t::split_once(target, "?") {
        Some(p) => p,
        None => (target.to_owned(), t::empty_text()),
    };
    let pieces = t::split(query.as_str(), "&");
    (path, t::keep_nonempty(&pieces))
}

pub fn is_target_decodable(target: &str) -> (r: bool)
    ensures
        r == target_decodable(target@),
{
    let (_, pieces) = cut_target(target);
    let ghost all = query_pieces(target@);
    let mut i: usize = 0;
    while i < pieces.len()
        invariant
            i <= pieces@.len(),
            t::texts(pieces@) == all,
            all == query_pieces(target@),
            forall|k: int| 0 <= k < i ==> decodable(raw_pair(#[trigger] all[k]).1),
        decreases pieces@.len() - i,
    {
        let (_, value) = split_pair(pieces[i].as_str());
        assert(all[i as int] == pieces@[i as int]@);
        if !is_decodable(value.as_str()) {
            return false;
        }
        i += 1;
    }
    true
}

/// Takes the target of a request apart. Of several values with one name the
/// last one counts.
pub fn parse_http_target(target: &str) -> (r: (String, Vec<(String, String)>))
    requires
        target_decodable(target@),
    ensures
        r.0@ == target_path(target@),
        http::pair_views(r.1@) == query_of(target@),
{
    let (path, pieces) = cut_target(target);
    let ghost all = query_pieces(target@);
    let mut query: Vec<(String, String)> = Vec::new();
    let mut i: usize = 0;
    while i < pieces.len()
        invariant
            i <= pieces@.len(),
            t::texts(pieces@) == all,
            all == query_pieces(target@),
            target_decodable(target@),
            query@.len() == i,
            forall|k: int|
                0 <= k < i ==> (#[trigger] query@[k]).0@ == raw_pair(all[k]).0 && query@[k].1@ == decoded(
                    raw_pair(all[k]).1,
                ),
        decreases pieces@.len() - i,
    {
        let (name, value) = split_pair(pieces[i].as_str());
        assert(all[i as int] == pieces@[i as int]@);
        query.push((name, percent_decode_minimal(value.as_str())));
        i += 1;
    }
    assert(http::pair_views(query@) =~= query_of(target@));
    (path, query)
}

/// A request, as the daemon reads it.
#[derive(Debug, PartialEq, Eq)]
pub struct HostdHttpRequest {
    pub method: String,
    pub path: String,
    pub query: Vec<(String, String)>,
    pub headers: Vec<(String, String)>,
    pub body: Vec<u8>,
}

/// Whether a request carries the daemon's token.
pub open spec fn authorized(headers: Seq<(Seq<char>, Seq<char>)>, token: Seq<char>) -> bool {
    http::header_value(headers, "x-maturana-hostd-token"@) == Some(token)
}

pub fn hostd_request_authorized(request: &HostdHttpRequest, token: &str) -> (r: bool)
    ensures
        r == authorized(http::pair_views(request.headers@), token@),
{
    match http::lookup(&request.headers, "x-maturana-hostd-token") {
        Some(actual) => t::same(actual.as_str(), token),
        None => false,
    }
}

/// A header line without its line end.
pub open spec fn bare_line(line: Seq<char>) -> Seq<char> {
    t::trim_end_by(line, (t::Trim::Two { a: '\r', b: '\n' }).pred())
}

/// Whether a line ends the head of a request.
pub fn ends_head(line: &str) -> (r: bool)
    ensures
        r == (bare_line(line@).len() == 0),
{
    t::trim_end_matches(line, &t::Trim::Two { a: '\r', b: '\n' }).as_str().unicode_len() == 0
}

/// The header lines: those before the first empty one, without their line ends.
pub open spec fn head_lines(lines: Seq<Seq<char>>) -> Seq<Seq<char>>
    decreases lines.len(),
{
    if lines.len() == 0 || bare_line(lines[0]).len() == 0 {
        Seq::empty()
    } else {
        seq![bare_line(lines[0])] + head_lines(lines.skip(1))
    }
}

/// Reads the headers of a request from the lines behind its first one.
pub fn read_headers(lines: &Vec<String>) -> (r: Vec<(String, String)>)
    ensures
        http::pair_views(r@) == http::headers_of(head_lines(t::texts(lines@))),
{
    let ghost all = t::texts(lines@);
    let mut headers: Vec<(String, String)> = Vec::new();
    let ghost mut taken: Seq<Seq<char>> = Seq::empty();
    let mut i: usize = 0;
    assert(all.skip(0) =~= all);
    assert(taken + head_lines(all) =~= head_lines(all));
    assert(http::pair_views(headers@) =~= http::headers_of(taken));
    while i < lines.len()
        invariant
            i <= lines@.len(),
            all == t::texts(lines@),
            head_lines(all) == taken + head_lines(all.skip(i as int)),
            http::pair_views(headers@) == http::headers_of(taken),
        decreases lines@.len() - i,
    {
        let line = t::trim_end_matches(lines[i].as_str(), &t::Trim::Two { a: '\r', b: '\n' });
        let ghost rest = all.skip(i as int);
        assert(rest[0] == lines@[i as int]@);
        assert(rest.skip(1) =~= all.skip(i + 1));
        if line.as_str().unicode_len() == 0 {
            assert(taken + head_lines(rest) =~= taken);
            return headers;
        }
        let ghost before = http::pair_views(headers@);
        proof {
            assert(taken + (seq![line@] + head_lines(rest.skip(1))) =~= taken.push(line@) + head_lines(rest.skip(1)));
            assert(taken.push(line@).drop_last() =~= taken);
            taken = taken.push(line@);
        }
        match http::parse_header(line.as_str()) {
            Some(h) => {
                let ghost hv = (h.0@, h.1@);
                headers.push(h);
                assert(http::pair_views(headers@) =~= before.push(hv));
            },
            None => {},
        }
        i += 1;
    }
    assert(all.skip(i as int) =~= Seq::<Seq<char>>::empty());
    assert(taken + head_lines(all.skip(i as int)) =~= taken);
    headers
}

/// The longest body of a request, in bytes.
pub const MAX_REQUEST_BYTES: usize = 1_048_576;

/// Why a request cannot be read, where it cannot.
pub open spec fn request_error(request_line: Seq<char>, lines: Seq<Seq<char>>) -> Option<Seq<char>> {
    let words = t::words_of(request_line);
    if words.len() == 0 {
        Some("missing HTTP method"@)
    } else if words.len() == 1 {
        Some("missing HTTP target"@)
    } else if http::announced(http::headers_of(head_lines(lines))) > MAX_REQUEST_BYTES {
        Some("hostd request body too large"@)
    } else {
        None
    }
}

/// The target that a request line names; empty where it names none.
pub open spec fn line_target(request_line: Seq<char>) -> Seq<char> {
    http::word(request_line, 1)
}

/// Whether the target that a request line names can be decoded.
pub fn is_request_decodable(request_line: &str) -> (r: bool)
    ensures
        r == target_decodable(line_target(request_line@)),
{
    let words = t::words(request_line);
    let ghost ws = t::words_of(request_line@);
    if words.len() > 1 {
        assert(ws[1] == words@[1]@);
        is_target_decodable(words[1].as_str())
    } else {
        is_target_decodable(t::empty_text().as_str())
    }
}

/// Reads the head of a request from its first line and the lines behind it:
/// the request without its body, and the length of the body.
pub fn read_hostd_request(request_line: &str, lines: &Vec<String>) -> (r: Result<(HostdHttpRequest, usize), String>)
    requires
        target_decodable(line_target(request_line@)),
    ensures
        match r {
            Ok((request, length)) => {
                &&& request_error(request_line@, t::texts(lines@)) is None
                &&& request.method@ == t::words_of(request_line@)[0]
                &&& request.path@ == target_path(line_target(request_line@))
                &&& http::pair_views(request.query@) == query_of(line_target(request_line@))
                &&& http::pair_views(request.headers@) == http::headers_of(head_lines(t::texts(lines@)))
                &&& request.body@.len() == 0
                &&& length == http::announced(http::pair_views(request.headers@))
            },
            Err(message) => request_error(request_line@, t::texts(lines@)) == Some(message@),
        },
{
    let words = t::words(request_line);
    let ghost ws = t::words_of(request_line@);
    assert(ws == t::texts(words@));
    if words.len() == 0 {
        return Err("missing HTTP method".to_owned());
    }
    if words.len() == 1 {
        return Err("missing HTTP target".to_owned());
    }
    assert(ws[0] == words@[0]@);
    assert(ws[1] == words@[1]@);
    let (path, query) = parse_http_target(words[1].as_str());
    let headers = read_headers(lines);
    let length: usize = http::content_length(&headers);
    if length > MAX_REQUEST_BYTES {
        return Err("hostd request body too large".to_owned());
    }
    Ok((HostdHttpRequest { method: words[0].clone(), path, query, headers, body: Vec::new() }, length))
}

// ---------------------------------------------------------------------------
// Routes
// ---------------------------------------------------------------------------

/// What a request comes to.
#[derive(Debug, PartialEq, Eq)]
pub enum HostdRoute<S> {
    /// The token is missing.
    Unauthorized,
    /// The daemon is well.
    Health,
    /// Run the script that lists the machines.
    Vms,
    /// Read the body as a launch, and launch.
    Launch,
    /// Run a script that may report that something was not found.
    Script { script: S },
    Unknown,
    /// The request fails with an error.
    Fail { message: S },
}

impl View for HostdRoute<String> {
    type V = HostdRoute<Seq<char>>;

    open spec fn view(&self) -> HostdRoute<Seq<char>> {
        match self {
            HostdRoute::Unauthorized => HostdRoute::Unauthorized,
            HostdRoute::Health => HostdRoute::Health,
            HostdRoute::Vms => HostdRoute::Vms,
            HostdRoute::Launch => HostdRoute::Launch,
            HostdRoute::Script { script } => HostdRoute::Script { script: script@ },
            HostdRoute::Unknown => HostdRoute::Unknown,
            HostdRoute::Fail { message } => HostdRoute::Fail { message: message@ },
        }
    }
}

pub open spec fn stop_script(vm: Seq<char>) -> Seq<char> {
    "$ErrorActionPreference='Stop'; if(!(Get-VM -Name '"@ + vm
        + "' -ErrorAction SilentlyContinue)){ @{ ok=$false; error='VM not found: "@ + vm
        + "' } | ConvertTo-Json -Compress; exit 4 }; Stop-VM -Name '"@ + vm
        + "' -Force -TurnOff; @{ ok=$true; vm='"@ + vm + "'; state='stopped' } | ConvertTo-Json -Compress"@
}

pub open spec fn take_script(vm: Seq<char>, snapshot: Seq<char>) -> Seq<char> {
    "$ErrorActionPreference='Stop'; if(!(Get-VM -Name '"@ + vm
        + "' -ErrorAction SilentlyContinue)){ @{ ok=$false; error='VM not found: "@ + vm
        + "' } | ConvertTo-Json -Compress; exit 4 }; Checkpoint-VM -Name '"@ + vm + "' -SnapshotName '"@ + snapshot
        + "' | Out-Null; @{ ok=$true; vm='"@ + vm + "'; snapshot='"@ + snapshot + "' } | ConvertTo-Json -Compress"@
}

pub open spec fn restore_script(vm: Seq<char>, snapshot: Seq<char>) -> Seq<char> {
    "$ErrorActionPreference='Stop'; if(!(Get-VM -Name '"@ + vm
        + "' -ErrorAction SilentlyContinue)){ @{ ok=$false; error='VM not found: "@ + vm
        + "' } | ConvertTo-Json -Compress; exit 4 }; $s=Get-VMSnapshot -VMName '"@ + vm + "' -Name '"@ + snapshot
        + "' -ErrorAction SilentlyContinue; if(!$s){ @{ ok=$false; error='Snapshot not found: "@ + snapshot
        + "' } | ConvertTo-Json -Compress; exit 4 }; Restore-VMSnapshot -VMSnapshot $s -Confirm:$false; @{ ok=$true; vm='"@
        + vm + "'; snapshot='"@ + snapshot + "'; restored=$true } | ConvertTo-Json -Compress"@
}

pub open spec fn list_script(vm: Seq<char>) -> Seq<char> {
    "$ErrorActionPreference='Stop'; if(!(Get-VM -Name '"@ + vm
        + "' -ErrorAction SilentlyContinue)){ @{ ok=$false; error='VM not found: "@ + vm
        + "' } | ConvertTo-Json -Compress; exit 4 }; $snapshots=@(Get-VMSnapshot -VMName '"@ + vm
        + "' -ErrorAction SilentlyContinue | Select-Object Name, CreationTime, SnapshotType); @{ ok=$true; vm='"@ + vm
        + "'; snapshots=$snapshots } | ConvertTo-Json -Compress -Depth 10"@
}

/// The script that lists the machines.
pub fn hyperv_vms() -> (r: &'static str)
    ensures
        r@ == "\n$ErrorActionPreference = 'Stop'\nfunction Get-MaturanaVMIPv4 {\n  param([string]$Name)\n  $adapter = Get-VMNetworkAdapter -VMName $Name -ErrorAction SilentlyContinue\n  if (!$adapter) { return '' }\n  $addresses = @($adapter.IPAddresses | Where-Object { $_ -match '^\\d+\\.\\d+\\.\\d+\\.\\d+$' -and $_ -notlike '169.254.*' -and $_ -notlike '0.*' -and $_ -notlike '127.*' })\n  if ($addresses.Count -gt 0) { return $addresses[0] }\n  $mac = ($adapter.MacAddress -replace '[^0-9A-Fa-f]', '').ToUpperInvariant()\n  if (!$mac) { return '' }\n  $neighbor = Get-NetNeighbor -AddressFamily IPv4 -ErrorAction SilentlyContinue | Where-Object {\n    ($_.LinkLayerAddress -replace '[^0-9A-Fa-f]', '').ToUpperInvariant() -eq $mac -and\n    $_.IPAddress -match '^\\d+\\.\\d+\\.\\d+\\.\\d+$' -and\n    $_.IPAddress -notlike '169.254.*' -and $_.IPAddress -notlike '0.*' -and $_.IPAddress -notlike '127.*'\n  } | Select-Object -First 1\n  if ($neighbor) { return $neighbor.IPAddress }\n  return ''\n}\n$vms = @(Get-VM | Where-Object { $_.Name -like 'maturana-*' } | ForEach-Object {\n  [pscustomobject]@{\n    name = $_.Name\n    state = \"$($_.State)\"\n    status = \"$($_.Status)\"\n    uptime = \"$($_.Uptime)\"\n    generation = $_.Generation\n    processor_count = $_.ProcessorCount\n    memory_startup = $_.MemoryStartup\n    ipv4 = Get-MaturanaVMIPv4 -Name $_.Name\n  }\n})\n@{ ok = $true; vms = $vms } | ConvertTo-Json -Compress -Depth 10\n"@,
{
    "\n$ErrorActionPreference = 'Stop'\nfunction Get-MaturanaVMIPv4 {\n  param([string]$Name)\n  $adapter = Get-VMNetworkAdapter -VMName $Name -ErrorAction SilentlyContinue\n  if (!$adapter) { return '' }\n  $addresses = @($adapter.IPAddresses | Where-Object { $_ -match '^\\d+\\.\\d+\\.\\d+\\.\\d+$' -and $_ -notlike '169.254.*' -and $_ -notlike '0.*' -and $_ -notlike '127.*' })\n  if ($addresses.Count -gt 0) { return $addresses[0] }\n  $mac = ($adapter.MacAddress -replace '[^0-9A-Fa-f]', '').ToUpperInvariant()\n  if (!$mac) { return '' }\n  $neighbor = Get-NetNeighbor -AddressFamily IPv4 -ErrorAction SilentlyContinue | Where-Object {\n    ($_.LinkLayerAddress -replace '[^0-9A-Fa-f]', '').ToUpperInvariant() -eq $mac -and\n    $_.IPAddress -match '^\\d+\\.\\d+\\.\\d+\\.\\d+$' -and\n    $_.IPAddress -notlike '169.254.*' -and $_.IPAddress -notlike '0.*' -and $_.IPAddress -notlike '127.*'\n  } | Select-Object -First 1\n  if ($neighbor) { return $neighbor.IPAddress }\n  return ''\n}\n$vms = @(Get-VM | Where-Object { $_.Name -like 'maturana-*' } | ForEach-Object {\n  [pscustomobject]@{\n    name = $_.Name\n    state = \"$($_.State)\"\n    status = \"$($_.Status)\"\n    uptime = \"$($_.Uptime)\"\n    generation = $_.Generation\n    processor_count = $_.ProcessorCount\n    memory_startup = $_.MemoryStartup\n    ipv4 = Get-MaturanaVMIPv4 -Name $_.Name\n  }\n})\n@{ ok = $true; vms = $vms } | ConvertTo-Json -Compress -Depth 10\n"
}

pub open spec fn stop_route(agent_id: Seq<char>) -> HostdRoute<Seq<char>> {
    if valid_agent_id(agent_id) {
        HostdRoute::Script { script: stop_script(vm_of(agent_id)) }
    } else {
        HostdRoute::Fail { message: bad_agent_text(agent_id) }
    }
}

/// Stops the machine of an agent.
pub fn hyperv_stop(agent_id: &str) -> (r: HostdRoute<String>)
    ensures
        r@ == stop_route(agent_id@),
{
    match hostd_vm_name(agent_id) {
        Err(message) => HostdRoute::Fail { message },
        Ok(name) => {
            let vm = name.as_str();
            HostdRoute::Script {
                script: "$ErrorActionPreference='Stop'; if(!(Get-VM -Name '".to_owned().concat(vm).concat(
                    "' -ErrorAction SilentlyContinue)){ @{ ok=$false; error='VM not found: ",
                ).concat(vm).concat("' } | ConvertTo-Json -Compress; exit 4 }; Stop-VM -Name '").concat(vm).concat(
                    "' -Force -TurnOff; @{ ok=$true; vm='",
                ).concat(vm).concat("'; state='stopped' } | ConvertTo-Json -Compress"),
            }
        },
    }
}

pub open spec fn snapshot_route(agent_id: Seq<char>, name: Seq<char>, restore: bool) -> HostdRoute<Seq<char>> {
    if !valid_agent_id(agent_id) {
        HostdRoute::Fail { message: bad_agent_text(agent_id) }
    } else if !valid_snapshot_name(name) {
        HostdRoute::Fail { message: bad_snapshot_text(name) }
    } else {
        HostdRoute::Script {
            script: if restore {
                restore_script(vm_of(agent_id), name)
            } else {
                take_script(vm_of(agent_id), name)
            },
        }
    }
}

/// Takes a snapshot of the machine of an agent.
pub fn hyperv_snapshot_take(agent_id: &str, name: &str) -> (r: HostdRoute<String>)
    ensures
        r@ == snapshot_route(agent_id@, name@, false),
{
    let vm_name = match hostd_vm_name(agent_id) {
        Err(message) => return HostdRoute::Fail { message },
        Ok(name) => name,
    };
    let vm = vm_name.as_str();
    match validate_hostd_snapshot_name(name) {
        Err(message) => HostdRoute::Fail { message },
        Ok(snapshot) => HostdRoute::Script {
            script: "$ErrorActionPreference='Stop'; if(!(Get-VM -Name '".to_owned().concat(vm).concat(
                "' -ErrorAction SilentlyContinue)){ @{ ok=$false; error='VM not found: ",
            ).concat(vm).concat("' } | ConvertTo-Json -Compress; exit 4 }; Checkpoint-VM -Name '").concat(vm).concat(
                "' -SnapshotName '",
            ).concat(snapshot).concat("' | Out-Null; @{ ok=$true; vm='").concat(vm).concat("'; snapshot='").concat(
                snapshot,
            ).concat("' } | ConvertTo-Json -Compress"),
        },
    }
}

/// Brings the machine of an agent back to a snapshot.
pub fn hyperv_snapshot_restore(agent_id: &str, name: &str) -> (r: HostdRoute<String>)
    ensures
        r@ == snapshot_route(agent_id@, name@, true),
{
    let vm_name = match hostd_vm_name(agent_id) {
        Err(message) => return HostdRoute::Fail { message },
        Ok(name) => name,
    };
    let vm = vm_name.as_str();
    match validate_hostd_snapshot_name(name) {
        Err(message) => HostdRoute::Fail { message },
        Ok(snapshot) => HostdRoute::Script {
            script: "$ErrorActionPreference='Stop'; if(!(Get-VM -Name '".to_owned().concat(vm).concat(
                "' -ErrorAction SilentlyContinue)){ @{ ok=$false; error='VM not found: ",
            ).concat(vm).concat("' } | ConvertTo-Json -Compress; exit 4 }; $s=Get-VMSnapshot -VMName '").concat(
                vm,
            ).concat("' -Name '").concat(snapshot).concat(
                "' -ErrorAction SilentlyContinue; if(!$s){ @{ ok=$false; error='Snapshot not found: ",
            ).concat(snapshot).concat(
                "' } | ConvertTo-Json -Compress; exit 4 }; Restore-VMSnapshot -VMSnapshot $s -Confirm:$false; @{ ok=$true; vm='",
            ).concat(vm).concat("'; snapshot='").concat(snapshot).concat(
                "'; restored=$true } | ConvertTo-Json -Compress",
            ),
        },
    }
}

pub open spec fn list_route(agent_id: Seq<char>) -> HostdRoute<Seq<char>> {
    if valid_agent_id(agent_id) {
        HostdRoute::Script { script: list_script(vm_of(agent_id)) }
    } else {
        HostdRoute::Fail { message: bad_agent_text(agent_id) }
    }
}

/// Lists the snapshots of the machine of an agent.
pub fn hyperv_snapshot_list(agent_id: &str) -> (r: HostdRoute<String>)
    ensures
        r@ == list_route(agent_id@),
{
    match hostd_vm_name(agent_id) {
        Err(message) => HostdRoute::Fail { message },
        Ok(name) => {
            let vm = name.as_str();
            HostdRoute::Script {
                script: "$ErrorActionPreference='Stop'; if(!(Get-VM -Name '".to_owned().concat(vm).concat(
                    "' -ErrorAction SilentlyContinue)){ @{ ok=$false; error='VM not found: ",
                ).concat(vm).concat(
                    "' } | ConvertTo-Json -Compress; exit 4 }; $snapshots=@(Get-VMSnapshot -VMName '",
                ).concat(vm).concat(
                    "' -ErrorAction SilentlyContinue | Select-Object Name, CreationTime, SnapshotType); @{ ok=$true; vm='",
                ).concat(vm).concat("'; snapshots=$snapshots } | ConvertTo-Json -Compress -Depth 10"),
            }
        },
    }
}

/// A text that a body must hold, and that may not be blank.
pub open spec fn required_text(body: Tree, name: Seq<char>) -> Option<Seq<char>> {
    match body.text_at(name) {
        Some(s) => if t::trimmed(s).len() > 0 {
            Some(s)
        } else {
            None
        },
        None => None,
    }
}

pub fn required_json_string(body: &Json, name: &str) -> (r: Result<String, String>)
    ensures
        match r {
            Ok(s) => required_text(body@, name@) == Some(s@),
            Err(message) => required_text(body@, name@) is None && message@ == name@ + " is required"@,
        },
{
    match body.text_at(name) {
        Some(s) => if t::trim(s.as_str()).unicode_len() > 0 {
            return Ok(s);
        },
        None => {},
    }
    Err(name.to_owned().concat(" is required"))
}

/// What a request to stop comes to, from its body.
pub open spec fn stop_asked(body: Option<Tree>) -> HostdRoute<Seq<char>> {
    match body {
        None => HostdRoute::Fail { message: "failed to parse stop request body"@ },
        Some(b) => match required_text(b, "agent_id"@) {
            None => HostdRoute::Fail { message: "agent_id"@ + " is required"@ },
            Some(agent_id) => stop_route(agent_id),
        },
    }
}

pub fn stop_request(body: Option<&Json>) -> (r: HostdRoute<String>)
    ensures
        r@ == stop_asked(json::opt_tree(body)),
{
    match body {
        None => HostdRoute::Fail { message: "failed to parse stop request body".to_owned() },
        Some(b) => match required_json_string(b, "agent_id") {
            Err(message) => HostdRoute::Fail { message },
            Ok(agent_id) => hyperv_stop(agent_id.as_str()),
        },
    }
}

/// What a request about a snapshot comes to, from its body.
pub open spec fn snapshot_asked(body: Option<Tree>, restore: bool) -> HostdRoute<Seq<char>> {
    match body {
        None => HostdRoute::Fail { message: "failed to parse snapshot request body"@ },
        Some(b) => match (required_text(b, "agent_id"@), required_text(b, "name"@)) {
            (None, _) => HostdRoute::Fail { message: "agent_id"@ + " is required"@ },
            (Some(_), None) => HostdRoute::Fail { message: "name"@ + " is required"@ },
            (Some(agent_id), Some(name)) => snapshot_route(agent_id, name, restore),
        },
    }
}

pub fn snapshot_request(body: Option<&Json>, restore: bool) -> (r: HostdRoute<String>)
    ensures
        r@ == snapshot_asked(json::opt_tree(body), restore),
{
    match body {
        None => HostdRoute::Fail { message: "failed to parse snapshot request body".to_owned() },
        Some(b) => match required_json_string(b, "agent_id") {
            Err(message) => HostdRoute::Fail { message },
            Ok(agent_id) => match required_json_string(b, "name") {
                Err(message) => HostdRoute::Fail { message },
                Ok(name) => if restore {
                    hyperv_snapshot_restore(agent_id.as_str(), name.as_str())
                } else {
                    hyperv_snapshot_take(agent_id.as_str(), name.as_str())
                },
            },
        },
    }
}

pub open spec fn route_of(
    method: Seq<char>,
    path: Seq<char>,
    query: Seq<(Seq<char>, Seq<char>)>,
    body: Option<Tree>,
) -> HostdRoute<Seq<char>> {
    if method == "GET"@ && path == "/health"@ {
        HostdRoute::Health
    } else if method == "GET"@ && path == "/vms"@ {
        HostdRoute::Vms
    } else if method == "POST"@ && path == "/agents/launch/ubuntu"@ {
        HostdRoute::Launch
    } else if method == "POST"@ && path == "/agents/stop"@ {
        stop_asked(body)
    } else if method == "POST"@ && path == "/agents/snapshot/take"@ {
        snapshot_asked(body, false)
    } else if method == "POST"@ && path == "/agents/snapshot/restore"@ {
        snapshot_asked(body, true)
    } else if method == "GET"@ && path == "/agents/snapshot/list"@ {
        match http::header_value(query, "agent_id"@) {
            Some(agent_id) => list_route(agent_id),
            None => HostdRoute::Fail { message: "agent_id is required"@ },
        }
    } else {
        HostdRoute::Unknown
    }
}

/// Decides what an authorised request comes to. The body is read as JSON only
/// where the route needs it.
pub fn route_hostd_request(request: &HostdHttpRequest) -> (r: HostdRoute<String>)
    ensures
        r@ == route_of(
            request.method@,
            request.path@,
            http::pair_views(request.query@),
            json::parsed_json_bytes(request.body@),
        ),
{
    let get = t::same(request.method.as_str(), "GET");
    let post = t::same(request.method.as_str(), "POST");
    let path = request.path.as_str();
    if get && t::same(path, "/health") {
        HostdRoute::Health
    } else if get && t::same(path, "/vms") {
        HostdRoute::Vms
    } else if post && t::same(path, "/agents/launch/ubuntu") {
        HostdRoute::Launch
    } else if post && t::same(path, "/agents/stop") {
        match parse_json_bytes(request.body.as_slice()) {
            Some(body) => stop_request(Some(&body)),
            None => stop_request(None),
        }
    } else if post && t::same(path, "/agents/snapshot/take") {
        match parse_json_bytes(request.body.as_slice()) {
            Some(body) => snapshot_request(Some(&body), false),
            None => snapshot_request(None, false),
        }
    } else if post && t::same(path, "/agents/snapshot/restore") {
        match parse_json_bytes(request.body.as_slice()) {
            Some(body) => snapshot_request(Some(&body), true),
            None => snapshot_request(None, true),
        }
    } else if get && t::same(path, "/agents/snapshot/list") {
        match http::lookup(&request.query, "agent_id") {
            Some(agent_id) => hyperv_snapshot_list(agent_id.as_str()),
            None => HostdRoute::Fail { message: "agent_id is required".to_owned() },
        }
    } else {
        HostdRoute::Unknown
    }
}

pub open spec fn stream_route(
    method: Seq<char>,
    path: Seq<char>,
    query: Seq<(Seq<char>, Seq<char>)>,
    headers: Seq<(Seq<char>, Seq<char>)>,
    body: Option<Tree>,
    token: Seq<char>,
) -> HostdRoute<Seq<char>> {
    if path != "/health"@ && !authorized(headers, token) {
        HostdRoute::Unauthorized
    } else {
        route_of(method, path, query, body)
    }
}

/// Decides what a request comes to.
pub fn handle_hostd_stream(request: &HostdHttpRequest, token: &str) -> (r: HostdRoute<String>)
    ensures
        r@ == stream_route(
            request.method@,
            request.path@,
            http::pair_views(request.query@),
            http::pair_views(request.headers@),
            json::parsed_json_bytes(request.body@),
            token@,
        ),
{
    if !t::same(request.path.as_str(), "/health") && !hostd_request_authorized(request, token) {
        HostdRoute::Unauthorized
    } else {
        route_hostd_request(request)
    }
}

/// Without the token no script runs and nothing is launched, whatever else the
/// request holds.
pub proof fn law_the_token_guards_the_machines(
    method: Seq<char>,
    path: Seq<char>,
    query: Seq<(Seq<char>, Seq<char>)>,
    headers: Seq<(Seq<char>, Seq<char>)>,
    body: Option<Tree>,
    token: Seq<char>,
)
    requires
        !authorized(headers, token),
    ensures
        ({
            let route = stream_route(method, path, query, headers, body, token);
            route is Unauthorized || route is Health || route is Unknown
        }),
{
    reveal_strlit("/health");
    reveal_strlit("/vms");
    reveal_strlit("/agents/launch/ubuntu");
    reveal_strlit("/agents/stop");
    reveal_strlit("/agents/snapshot/take");
    reveal_strlit("/agents/snapshot/restore");
    reveal_strlit("/agents/snapshot/list");
    assert("/health"@.len() == 7);
    assert("/vms"@.len() == 4);
    assert("/agents/launch/ubuntu"@.len() == 21);
    assert("/agents/stop"@.len() == 12);
    assert("/agents/snapshot/take"@.len() == 21);
    assert("/agents/snapshot/restore"@.len() == 24);
    assert("/agents/snapshot/list"@.len() == 21);
}

// ---------------------------------------------------------------------------
// Responses
// ---------------------------------------------------------------------------

/// The body of an error.
pub open spec fn error_tree(message: Seq<char>) -> Tree {
    Tree::Record(seq![("ok"@, Tree::Bool(false)), ("error"@, Tree::Text(message))])
}

pub fn error_body(message: &str) -> (r: Json)
    ensures
        r@ == error_tree(message@),
{
    let mut f: Vec<(String, Json)> = Vec::new();
    json::field(&mut f, "ok", Json::Bool(false));
    json::field(&mut f, "error", Json::Text(message.to_owned()));
    assert(json::entries(f@) =~= seq![("ok"@, Tree::Bool(false)), ("error"@, Tree::Text(message@))]);
    json::record(f)
}

/// The response to a request that needs nothing done: its status and body.
pub open spec fn direct(route: HostdRoute<Seq<char>>) -> Option<(u16, Tree)> {
    match route {
        HostdRoute::Unauthorized => Some((401, error_tree("unauthorized"@))),
        HostdRoute::Health => Some((200, Tree::Record(seq![("ok"@, Tree::Bool(true))]))),
        HostdRoute::Unknown => Some((404, error_tree("unknown endpoint"@))),
        HostdRoute::Fail { message } => Some((500, error_tree(message))),
        _ => None,
    }
}

pub open spec fn response_view(r: Option<(u16, Json)>) -> Option<(u16, Tree)> {
    match r {
        Some((status, body)) => Some((status, body@)),
        None => None,
    }
}

pub fn direct_response(route: &HostdRoute<String>) -> (r: Option<(u16, Json)>)
    ensures
        response_view(r) == direct(route@),
{
    match route {
        HostdRoute::Unauthorized => Some((401, error_body("unauthorized"))),
        HostdRoute::Health => {
            let mut f: Vec<(String, Json)> = Vec::new();
            json::field(&mut f, "ok", Json::Bool(true));
            assert(json::entries(f@) =~= seq![("ok"@, Tree::Bool(true))]);
            Some((200, json::record(f)))
        },
        HostdRoute::Unknown => Some((404, error_body("unknown endpoint"))),
        HostdRoute::Fail { message } => Some((500, error_body(message.as_str()))),
        _ => None,
    }
}

/// The last line that looks like a JSON object.
pub open spec fn json_line(lines: Seq<Seq<char>>) -> Option<Seq<char>>
    decreases lines.len(),
{
    if lines.len() == 0 {
        None
    } else if t::starts(t::trimmed_start(lines.last()), "{"@) {
        Some(lines.last())
    } else {
        json_line(lines.drop_last())
    }
}

/// The document that a script printed, where it printed one.
pub open spec fn printed_json(stdout: Seq<u8>) -> Option<Tree> {
    match json_line(t::lines_of(http::lossy(stdout))) {
        Some(line) => json::parsed_json(t::trimmed(line)),
        None => None,
    }
}

fn find_json_line(lines: &Vec<String>) -> (r: Option<String>)
    ensures
        t::opt_view(r) == json_line(t::texts(lines@)),
{
    let ghost all = t::texts(lines@);
    let mut i: usize = lines.len();
    assert(all.take(all.len() as int) =~= all);
    while i > 0
        invariant
            i <= lines@.len(),
            all == t::texts(lines@),
            json_line(all) == json_line(all.take(i as int)),
        decreases i,
    {
        i -= 1;
        assert(all.take(i + 1).drop_last() =~= all.take(i as int));
        assert(all.take(i + 1).last() == lines@[i as int]@);
        if t::starts_with(t::trim_start(lines[i].as_str()).as_str(), "{") {
            return Some(lines[i].clone());
        }
    }
    None
}

pub fn parse_powershell_json_output(stdout: &[u8]) -> (r: Option<Json>)
    ensures
        r is Some <==> printed_json(stdout@) is Some,
        r matches Some(j) ==> printed_json(stdout@) == Some(j@),
{
    let text = http::lossy_text(stdout);
    let lines = t::lines(text.as_str());
    match find_json_line(&lines) {
        Some(line) => parse_json(t::trim(line.as_str()).as_str()),
        None => None,
    }
}

/// All lines that a command printed, errors last.
pub open spec fn output_lines(stdout: Seq<u8>, stderr: Seq<u8>) -> Seq<Seq<char>> {
    t::lines_of(http::lossy(stdout)) + t::lines_of(http::lossy(stderr))
}

pub fn command_output_lines(stdout: &[u8], stderr: &[u8]) -> (r: Vec<String>)
    ensures
        t::texts(r@) == output_lines(stdout@, stderr@),
{
    let mut lines = t::lines(http::lossy_text(stdout).as_str());
    let more = t::lines(http::lossy_text(stderr).as_str());
    let ghost first = t::texts(lines@);
    let ghost second = t::texts(more@);
    let mut i: usize = 0;
    assert(first + second.take(0) =~= first);
    while i < more.len()
        invariant
            i <= more@.len(),
            second == t::texts(more@),
            t::texts(lines@) == first + second.take(i as int),
        decreases more@.len() - i,
    {
        t::add_line(&mut lines, more[i].clone());
        assert(first + second.take(i + 1) =~= (first + second.take(i as int)).push(more@[i as int]@));
        i += 1;
    }
    assert(second.take(second.len() as int) =~= second);
    lines
}

pub open spec fn text_list(lines: Seq<Seq<char>>) -> Tree {
    Tree::List(lines.map_values(|s: Seq<char>| Tree::Text(s)))
}

fn list_of(lines: &Vec<String>) -> (r: Json)
    ensures
        r@ == text_list(t::texts(lines@)),
{
    let mut out: Vec<Json> = Vec::new();
    let mut i: usize = 0;
    while i < lines.len()
        invariant
            i <= lines@.len(),
            out@.len() == i,
            forall|k: int| 0 <= k < i ==> (#[trigger] out@[k])@ == Tree::Text(lines@[k]@),
        decreases lines@.len() - i,
    {
        out.push(Json::Text(lines[i].clone()));
        i += 1;
    }
    assert(json::trees(out@) =~= t::texts(lines@).map_values(|s: Seq<char>| Tree::Text(s)));
    json::list(out)
}

/// What is answered where a script printed no document.
pub open spec fn unread_tree(stdout: Seq<u8>, stderr: Seq<u8>) -> Tree {
    Tree::Record(
        seq![
            ("ok"@, Tree::Bool(false)),
            ("error"@, Tree::Text(t::trimmed(http::lossy(stderr)))),
            ("output"@, text_list(output_lines(stdout, stderr))),
        ],
    )
}

/// The response to a script that ran, from the document it printed, if any.
pub fn script_answer(success: bool, printed: Option<Json>, stdout: &[u8], stderr: &[u8]) -> (r: (u16, Json))
    ensures
        r.0 == if success {
            200u16
        } else {
            500u16
        },
        r.1@ == match printed {
            Some(j) => j@,
            None => unread_tree(stdout@, stderr@),
        },
{
    let status: u16 = if success {
        200
    } else {
        500
    };
    match printed {
        Some(j) => (status, j),
        None => {
            let lines = command_output_lines(stdout, stderr);
            let mut f: Vec<(String, Json)> = Vec::new();
            json::field(&mut f, "ok", Json::Bool(false));
            json::field(&mut f, "error", Json::Text(t::trim(http::lossy_text(stderr).as_str())));
            json::field(&mut f, "output", list_of(&lines));
            assert(json::entries(f@) =~= unread_tree(stdout@, stderr@)->Record_0);
            (status, json::record(f))
        },
    }
}

/// The response to a script that ran.
pub fn hyperv_json_script(success: bool, stdout: &[u8], stderr: &[u8]) -> (r: (u16, Json))
    ensures
        r.0 == if success {
            200u16
        } else {
            500u16
        },
        r.1@ == match printed_json(stdout@) {
            Some(j) => j,
            None => unread_tree(stdout@, stderr@),
        },
{
    script_answer(success, parse_powershell_json_output(stdout), stdout, stderr)
}

/// A failed script that reports something as not found gives that status.
pub open spec fn found_status(status: u16, body: Tree) -> u16 {
    if status >= 400 && body.text_at("error"@) is Some && t::has(body.text_at("error"@)->0, "not found"@) {
        404
    } else {
        status
    }
}

pub fn not_found_status(status: u16, body: &Json) -> (r: u16)
    ensures
        r == found_status(status, body@),
{
    if status >= 400 {
        match body.text_at("error") {
            Some(error) => if t::contains(error.as_str(), "not found") {
                return 404;
            },
            None => {},
        }
    }
    status
}

/// The response to a script that may report that something was not found.
pub fn hyperv_json_script_with_not_found(success: bool, stdout: &[u8], stderr: &[u8]) -> (r: (u16, Json))
    ensures
        r.1@ == match printed_json(stdout@) {
            Some(j) => j,
            None => unread_tree(stdout@, stderr@),
        },
        r.0 == found_status(
            if success {
                200u16
            } else {
                500u16
            },
            r.1@,
        ),
{
    let (status, body) = hyperv_json_script(success, stdout, stderr);
    (not_found_status(status, &body), body)
}

/// The head of a response.
pub fn write_hostd_json(status: u16, length: usize) -> (r: String)
    ensures
        r@ == "HTTP/1.1 "@ + t::decimal(status as nat) + " "@ + http::reason_words(status)
            + "\r\nContent-Type: application/json\r\nContent-Length: "@ + t::decimal(length as nat)
            + "\r\nConnection: close\r\n\r\n"@,
{
    "HTTP/1.1 ".to_owned().concat(t::u64_text(status as u64).as_str()).concat(" ").concat(
        http::reason(status),
    ).concat("\r\nContent-Type: application/json\r\nContent-Length: ").concat(
        t::usize_text(length).as_str(),
    ).concat("\r\nConnection: close\r\n\r\n")
}

// ---------------------------------------------------------------------------
// Launching
// ---------------------------------------------------------------------------

/// The body of a launch; everything in it may be left out.
#[derive(Debug, PartialEq, Eq)]
pub struct HostdLaunchBody<S> {
    pub agent_id: Option<S>,
    pub harness: Option<S>,
    pub base_vhdx_path: Option<S>,
    pub switch_name: Option<S>,
    pub ssh_user: Option<S>,
    pub ssh_key_path: Option<S>,
    pub cloud_init_user_data_path: Option<S>,
    pub cloud_init_meta_data_path: Option<S>,
    pub disk_size_gb: Option<u32>,
    pub vcpu: Option<u8>,
    pub memory_mib: Option<u32>,
    pub provision_existing: Option<bool>,
    pub force: Option<bool>,
}

impl View for HostdLaunchBody<String> {
    type V = HostdLaunchBody<Seq<char>>;

    open spec fn view(&self) -> HostdLaunchBody<Seq<char>> {
        HostdLaunchBody {
            agent_id: t::opt_view(self.agent_id),
            harness: t::opt_view(self.harness),
            base_vhdx_path: t::opt_view(self.base_vhdx_path),
            switch_name: t::opt_view(self.switch_name),
            ssh_user: t::opt_view(self.ssh_user),
            ssh_key_path: t::opt_view(self.ssh_key_path),
            cloud_init_user_data_path: t::opt_view(self.cloud_init_user_data_path),
            cloud_init_meta_data_path: t::opt_view(self.cloud_init_meta_data_path),
            disk_size_gb: self.disk_size_gb,
            vcpu: self.vcpu,
            memory_mib: self.memory_mib,
            provision_existing: self.provision_existing,
            force: self.force,
        }
    }
}

/// What a launch comes to.
#[derive(Debug, PartialEq, Eq)]
pub enum HostdLaunch<S, L> {
    /// The request fails with an error.
    Fail { message: S },
    /// The request is answered as a bad one.
    Refuse { message: S },
    /// Run the launcher with these arguments behind its own.
    Run { agent_id: S, harness: S, args: L },
}

impl View for HostdLaunch<String, Vec<String>> {
    type V = HostdLaunch<Seq<char>, Seq<Seq<char>>>;

    open spec fn view(&self) -> HostdLaunch<Seq<char>, Seq<Seq<char>>> {
        match self {
            HostdLaunch::Fail { message } => HostdLaunch::Fail { message: message@ },
            HostdLaunch::Refuse { message } => HostdLaunch::Refuse { message: message@ },
            HostdLaunch::Run { agent_id, harness, args } => HostdLaunch::Run {
                agent_id: agent_id@,
                harness: harness@,
                args: t::texts(args@),
            },
        }
    }
}

/// An argument that is given only where its value is not blank.
pub open spec fn with_arg(args: Seq<Seq<char>>, name: Seq<char>, value: Option<Seq<char>>) -> Seq<Seq<char>> {
    match value {
        Some(v) => if t::trimmed(v).len() > 0 {
            args.push(name).push(v)
        } else {
            args
        },
        None => args,
    }
}

pub fn add_process_arg(args: &mut Vec<String>, name: &str, value: &Option<String>)
    ensures
        t::texts(final(args)@) == with_arg(t::texts(old(args)@), name@, t::opt_view(*value)),
{
    match value {
        Some(v) => if t::trim(v.as_str()).unicode_len() > 0 {
            t::add_line(args, name.to_owned());
            t::add_line(args, v.clone());
        },
        None => {},
    }
}

/// An argument that is given wherever it has a value.
pub open spec fn with_path(args: Seq<Seq<char>>, name: Seq<char>, value: Option<Seq<char>>) -> Seq<Seq<char>> {
    match value {
        Some(v) => args.push(name).push(v),
        None => args,
    }
}

pub fn add_process_arg_path(args: &mut Vec<String>, name: &str, value: &Option<String>)
    ensures
        t::texts(final(args)@) == with_path(t::texts(old(args)@), name@, t::opt_view(*value)),
{
    match value {
        Some(v) => {
            t::add_line(args, name.to_owned());
            t::add_line(args, v.clone());
        },
        None => {},
    }
}

pub open spec fn number(n: Option<u32>) -> Option<Seq<char>> {
    match n {
        Some(n) => Some(t::decimal(n as nat)),
        None => None,
    }
}

fn number_text(n: Option<u32>) -> (r: Option<String>)
    ensures
        t::opt_view(r) == number(n),
{
    match n {
        Some(n) => Some(t::u64_text(n as u64)),
        None => None,
    }
}

pub open spec fn or_text(o: Option<Seq<char>>, default: Seq<char>) -> Seq<char> {
    match o {
        Some(s) => s,
        None => default,
    }
}

fn text_or(o: &Option<String>, default: &str) -> (r: String)
    ensures
        r@ == or_text(t::opt_view(*o), default@),
{
    match o {
        Some(s) => s.clone(),
        None => default.to_owned(),
    }
}

/// `coder` is the command of the coding tool that stands beside codex and
/// opencode.
pub open spec fn known_harness(s: Seq<char>, coder: Seq<char>) -> bool {
    s == "codex"@ || s == coder + "-code"@ || s == "opencode"@ || s == "none"@
}

impl HostdLaunchBody<Seq<char>> {
    pub open spec fn launch_args(self, agent_id: Seq<char>) -> Seq<Seq<char>> {
        let a = with_arg(Seq::empty(), "-AgentId"@, Some(agent_id));
        let a = with_path(a, "-BaseVhdxPath"@, self.base_vhdx_path);
        let a = with_arg(a, "-SwitchName"@, self.switch_name);
        let a = with_arg(a, "-SshUser"@, Some(or_text(self.ssh_user, "ubuntu"@)));
        let a = with_path(a, "-SshKeyPath"@, self.ssh_key_path);
        let a = with_path(a, "-CloudInitUserDataPath"@, self.cloud_init_user_data_path);
        let a = with_path(a, "-CloudInitMetaDataPath"@, self.cloud_init_meta_data_path);
        let a = with_arg(a, "-DiskSizeGB"@, number(self.disk_size_gb));
        let a = with_arg(
            a,
            "-Vcpu"@,
            number(
                match self.vcpu {
                    Some(n) => Some(n as u32),
                    None => None,
                },
            ),
        );
        let a = with_arg(a, "-MemoryMiB"@, number(self.memory_mib));
        let a = t::added(a, self.provision_existing == Some(true), "-ProvisionExisting"@);
        t::added(a, self.force == Some(true), "-Force"@)
    }

    pub open spec fn launch(self, coder: Seq<char>) -> HostdLaunch<Seq<char>, Seq<Seq<char>>> {
        let agent_id = or_text(self.agent_id, "codex-demo"@);
        let harness = or_text(self.harness, "codex"@);
        if !valid_agent_id(agent_id) {
            HostdLaunch::Fail { message: bad_agent_text(agent_id) }
        } else if !known_harness(harness, coder) {
            HostdLaunch::Refuse { message: "unsupported harness: "@ + harness }
        } else {
            HostdLaunch::Run { agent_id, harness, args: self.launch_args(agent_id) }
        }
    }
}

/// Decides what a launch comes to.
pub fn hyperv_launch_ubuntu(body: &HostdLaunchBody<String>, coder: &str) -> (r: HostdLaunch<String, Vec<String>>)
    ensures
        r@ == body@.launch(coder@),
{
    let agent_id = text_or(&body.agent_id, "codex-demo");
    match validate_hostd_agent_id(agent_id.as_str()) {
        Err(message) => return HostdLaunch::Fail { message },
        Ok(_) => {},
    }
    let harness = text_or(&body.harness, "codex");
    let h = harness.as_str();
    let label = coder.to_owned().concat("-code");
    if !(t::same(h, "codex") || t::same(h, label.as_str()) || t::same(h, "opencode") || t::same(h, "none")) {
        return HostdLaunch::Refuse { message: "unsupported harness: ".to_owned().concat(h) };
    }
    let mut args = t::no_lines();
    let id: Option<String> = Some(agent_id.clone());
    let user: Option<String> = Some(text_or(&body.ssh_user, "ubuntu"));
    let vcpu: Option<u32> = match body.vcpu {
        Some(n) => Some(n as u32),
        None => None,
    };
    let provision = match body.provision_existing {
        Some(b) => b,
        None => false,
    };
    let force = match body.force {
        Some(b) => b,
        None => false,
    };
    add_process_arg(&mut args, "-AgentId", &id);
    add_process_arg_path(&mut args, "-BaseVhdxPath", &body.base_vhdx_path);
    add_process_arg(&mut args, "-SwitchName", &body.switch_name);
    add_process_arg(&mut args, "-SshUser", &user);
    add_process_arg_path(&mut args, "-SshKeyPath", &body.ssh_key_path);
    add_process_arg_path(&mut args, "-CloudInitUserDataPath", &body.cloud_init_user_data_path);
    add_process_arg_path(&mut args, "-CloudInitMetaDataPath", &body.cloud_init_meta_data_path);
    add_process_arg(&mut args, "-DiskSizeGB", &number_text(body.disk_size_gb));
    add_process_arg(&mut args, "-Vcpu", &number_text(vcpu));
    add_process_arg(&mut args, "-MemoryMiB", &number_text(body.memory_mib));
    t::add_if(&mut args, provision, "-ProvisionExisting");
    t::add_if(&mut args, force, "-Force");
    HostdLaunch::Run { agent_id, harness, args }
}

/// The body of the response to a launch.
pub open spec fn launch_tree(
    agent_id: Seq<char>,
    success: bool,
    exit_code: Option<i32>,
    log: Seq<char>,
    lines: Seq<Seq<char>>,
) -> Tree {
    Tree::Record(
        seq![
            ("ok"@, Tree::Bool(success)),
            ("agent_id"@, Tree::Text(agent_id)),
            (
                "status"@,
                Tree::Text(
                    if success {
                        "succeeded"@
                    } else {
                        "failed"@
                    },
                ),
            ),
            (
                "exit_code"@,
                match exit_code {
                    Some(n) => Tree::Int(n as int),
                    None => Tree::Null,
                },
            ),
            ("log"@, Tree::Text(log)),
            ("output"@, text_list(lines)),
        ],
    )
}

pub fn launch_response(
    agent_id: &str,
    success: bool,
    exit_code: Option<i32>,
    log: &str,
    stdout: &[u8],
    stderr: &[u8],
) -> (r: (u16, Json))
    ensures
        r.0 == if success {
            200u16
        } else {
            500u16
        },
        r.1@ == launch_tree(agent_id@, success, exit_code, log@, output_lines(stdout@, stderr@)),
{
    let lines = command_output_lines(stdout, stderr);
    let status: u16 = if success {
        200
    } else {
        500
    };
    let word = if success {
        "succeeded"
    } else {
        "failed"
    };
    let code = match exit_code {
        Some(n) => Json::Int(n as i128),
        None => Json::Null,
    };
    let mut f: Vec<(String, Json)> = Vec::new();
    json::field(&mut f, "ok", Json::Bool(success));
    json::field(&mut f, "agent_id", Json::Text(agent_id.to_owned()));
    json::field(&mut f, "status", Json::Text(word.to_owned()));
    json::field(&mut f, "exit_code", code);
    json::field(&mut f, "log", Json::Text(log.to_owned()));
    json::field(&mut f, "output", list_of(&lines));
    assert(json::entries(f@) =~= launch_tree(
        agent_id@,
        success,
        exit_code,
        log@,
        output_lines(stdout@, stderr@),
    )->Record_0);
    (status, json::record(f))
}

/// What the log of the daemon says of a launch.
pub fn launch_requested_text(agent_id: &str, harness: &str) -> (r: String)
    ensures
        r@ == "launch requested; agent="@ + agent_id@ + " harness="@ + harness@,
{
    "launch requested; agent=".to_owned().concat(agent_id).concat(" harness=").concat(harness)
}

/// The name of the log of a launch.
pub fn launch_log_name(agent_id: &str) -> (r: String)
    ensures
        r@ == "hyperv-launch-"@ + agent_id@ + ".log"@,
{
    "hyperv-launch-".to_owned().concat(agent_id).concat(".log")
}

// ---------------------------------------------------------------------------
// Starting
// ---------------------------------------------------------------------------

/// What a bind prefix is refused for.
#[derive(Debug, PartialEq, Eq)]
pub enum BindError {
    /// It does not start with `http://`.
    Scheme,
    /// It names no port.
    NoPort,
    /// It names a host that is not the loopback one.
    NotLoopback { host: String },
    /// Its port is no port number.
    BadPort { port: String },
}

/// The part of a prefix that names host and port.
pub open spec fn host_port(rest: Seq<char>) -> Seq<char> {
    t::pieces(rest, "/"@)[0]
}

/// Cuts at the last colon.
pub open spec fn last_cut(s: Seq<char>, i: int) -> Option<(Seq<char>, Seq<char>)>
    decreases i,
{
    if i <= 0 {
        None
    } else if s[i - 1] == ':' {
        Some((s.take(i - 1), s.skip(i)))
    } else {
        last_cut(s, i - 1)
    }
}

pub fn cut_last_colon(s: &str) -> (r: Option<(String, String)>)
    ensures
        t::pair_view(r) == last_cut(s@, s@.len() as int),
{
    let v = t::chars_of(s);
    let n: usize = v.len();
    let mut i: usize = n;
    while i > 0
        invariant
            n == v@.len(),
            i <= n,
            v@ == s@,
            last_cut(s@, s@.len() as int) == last_cut(s@, i as int),
        decreases i,
    {
        if v[i - 1] == ':' {
            let head = t::string_of(&v, 0, i - 1);
            let tail = t::string_of(&v, i, n);
            assert(head@ =~= s@.take(i - 1));
            assert(tail@ =~= s@.skip(i as int));
            return Some((head, tail));
        }
        i -= 1;
    }
    None
}

/// The loopback port that a prefix names, or why it is refused.
pub open spec fn bind_port(prefix: Seq<char>) -> Option<nat> {
    match t::after_prefix(prefix, "http://"@) {
        None => None,
        Some(rest) => match last_cut(host_port(rest), host_port(rest).len() as int) {
            None => None,
            Some((host, port)) => if host == "127.0.0.1"@ || host == "localhost"@ {
                t::parsed_unsigned(port, 65535)
            } else {
                None
            },
        },
    }
}

/// The port to listen on; the address is always the loopback one.
pub fn parse_hostd_bind_prefix(prefix: &str) -> (r: Result<u16, BindError>)
    ensures
        match r {
            Ok(port) => bind_port(prefix@) == Some(port as nat),
            Err(error) => bind_port(prefix@) is None && match t::after_prefix(prefix@, "http://"@) {
                None => error is Scheme,
                Some(rest) => match last_cut(host_port(rest), host_port(rest).len() as int) {
                    None => error is NoPort,
                    Some((host, port)) => match error {
                        BindError::NotLoopback { host: h } => h@ == host && host != "127.0.0.1"@ && host
                            != "localhost"@,
                        BindError::BadPort { port: p } => p@ == port && (host == "127.0.0.1"@ || host
                            == "localhost"@),
                        _ => false,
                    },
                },
            },
        },
{
    proof {
        reveal_strlit("/");
    }
    let rest = match t::strip_prefix(prefix, "http://") {
        Some(rest) => rest,
        None => return Err(BindError::Scheme),
    };
    let pieces = t::split(rest.as_str(), "/");
    let ghost all = t::pieces(rest@, "/"@);
    assert(all == t::texts(pieces@));
    assert(all.len() > 0);
    assert(pieces@.len() > 0);
    assert(all[0] == pieces@[0]@);
    match cut_last_colon(pieces[0].as_str()) {
        None => Err(BindError::NoPort),
        Some((host, port)) => {
            if !t::same(host.as_str(), "127.0.0.1") && !t::same(host.as_str(), "localhost") {
                return Err(BindError::NotLoopback { host });
            }
            match t::parse_unsigned(port.as_str(), 65535) {
                Some(n) => Ok(n as u16),
                None => Err(BindError::BadPort { port }),
            }
        },
    }
}

/// What is said of a prefix that is refused, for its shape.
pub fn bind_error_text(error: &BindError) -> (r: Option<String>)
    ensures
        t::opt_view(r) == match error {
            BindError::Scheme => Some("hostd bind prefix must start with http://"@),
            BindError::NoPort => Some("hostd bind prefix must include a port"@),
            BindError::NotLoopback { host } => Some("hostd bind must stay on loopback, got "@ + host@),
            BindError::BadPort { .. } => None,
        },
{
    match error {
        BindError::Scheme => Some("hostd bind prefix must start with http://".to_owned()),
        BindError::NoPort => Some("hostd bind prefix must include a port".to_owned()),
        BindError::NotLoopback { host } => Some(
            "hostd bind must stay on loopback, got ".to_owned().concat(host.as_str()),
        ),
        BindError::BadPort { .. } => None,
    }
}

/// The host that a prefix names.
pub open spec fn named_host(prefix: Seq<char>) -> Option<Seq<char>> {
    match t::after_prefix(prefix, "http://"@) {
        None => None,
        Some(rest) => match last_cut(host_port(rest), host_port(rest).len() as int) {
            None => None,
            Some((host, _)) => Some(host),
        },
    }
}

/// A prefix that is accepted names the loopback host.
pub proof fn law_the_daemon_stays_on_loopback(prefix: Seq<char>)
    requires
        bind_port(prefix) is Some,
    ensures
        named_host(prefix) == Some("127.0.0.1"@) || named_host(prefix) == Some("localhost"@),
{
}

/// The token that guards the daemon: what its file holds, without the blanks
/// around it; an empty one is refused.
pub fn ensure_hostd_server_token(raw: &str, path: &str) -> (r: Result<String, String>)
    ensures
        match r {
            Ok(token) => token@ == t::trimmed(raw@) && token@.len() > 0,
            Err(message) => t::trimmed(raw@).len() == 0 && message@ == "hostd token file is empty: "@ + path@,
        },
{
    let token = t::trim(raw);
    if token.as_str().unicode_len() == 0 {
        Err("hostd token file is empty: ".to_owned().concat(path))
    } else {
        Ok(token)
    }
}

/// How the daemon is doing.
#[derive(Debug, PartialEq, Eq)]
pub struct HostdStatus<S> {
    pub url: S,
    pub reachable: bool,
    pub token_present: bool,
    pub error: Option<S>,
}

impl View for HostdStatus<String> {
    type V = HostdStatus<Seq<char>>;

    open spec fn view(&self) -> HostdStatus<Seq<char>> {
        HostdStatus {
            url: self.url@,
            reachable: self.reachable,
            token_present: self.token_present,
            error: t::opt_view(self.error),
        }
    }
}

impl HostdStatus<Seq<char>> {
    pub open spec fn lines(self) -> Seq<Seq<char>> {
        let head = seq![
            "hostd.url: "@ + self.url,
            "hostd.reachable: "@ + t::truth_word(self.reachable),
            "hostd.token_present: "@ + t::truth_word(self.token_present),
        ];
        match self.error {
            Some(error) => head.push("hostd.error: "@ + error),
            None => head,
        }
    }
}

/// The lines that report how the daemon is doing.
pub fn hostd_status_lines(status: &HostdStatus<String>) -> (r: Vec<String>)
    ensures
        t::texts(r@) == status@.lines(),
{
    let mut lines = t::two_lines(
        "hostd.url: ".to_owned().concat(status.url.as_str()),
        "hostd.reachable: ".to_owned().concat(t::truth_text(status.reachable)),
    );
    t::add_line(&mut lines, "hostd.token_present: ".to_owned().concat(t::truth_text(status.token_present)));
    assert(t::texts(lines@) =~= seq![
        "hostd.url: "@ + status@.url,
        "hostd.reachable: "@ + t::truth_word(status.reachable),
        "hostd.token_present: "@ + t::truth_word(status.token_present),
    ]);
    match &status.error {
        Some(error) => {
            t::add_line(&mut lines, "hostd.error: ".to_owned().concat(error.as_str()));
        },
        None => {},
    }
    lines
}

/// Each script does to the machine that it names what it is for, and to no other.
pub proof fn law_a_script_does_what_it_is_for(vm: Seq<char>, snapshot: Seq<char>)
    ensures
        t::has(stop_script(vm), "Stop-VM -Name '"@ + vm + "' -Force -TurnOff"@),
        t::has(take_script(vm, snapshot), "Checkpoint-VM -Name '"@ + vm + "' -SnapshotName '"@ + snapshot + "'"@),
        t::has(restore_script(vm, snapshot), "$s=Get-VMSnapshot -VMName '"@ + vm + "' -Name '"@ + snapshot + "'"@),
        t::has(restore_script(vm, snapshot), "Restore-VMSnapshot -VMSnapshot $s"@),
        t::has(list_script(vm), "$snapshots=@(Get-VMSnapshot -VMName '"@ + vm + "'"@),
{
    lemma_stop_script(vm);
    lemma_take_script(vm, snapshot);
    lemma_restore_script(vm, snapshot);
    lemma_list_script(vm);
}

proof fn lemma_stop_script(vm: Seq<char>)
    ensures
        t::has(stop_script(vm), "Stop-VM -Name '"@ + vm + "' -Force -TurnOff"@),
{
    let a = "$ErrorActionPreference='Stop'; if(!(Get-VM -Name '"@;
    let b = "' -ErrorAction SilentlyContinue)){ @{ ok=$false; error='VM not found: "@;
    let m = "' } | ConvertTo-Json -Compress; exit 4 }; Stop-VM -Name '"@;
    let z = "' -Force -TurnOff; @{ ok=$true; vm='"@;
    let z2 = "'; state='stopped' } | ConvertTo-Json -Compress"@;
    let w = "Stop-VM -Name '"@;
    let u = "' -Force -TurnOff"@;
    reveal_strlit("' } | ConvertTo-Json -Compress; exit 4 }; Stop-VM -Name '");
    reveal_strlit("' -Force -TurnOff; @{ ok=$true; vm='");
    reveal_strlit("Stop-VM -Name '");
    reveal_strlit("' -Force -TurnOff");
    assert(m.skip(42) =~= w);
    assert(z.take(17) =~= u);
    let x = w + vm + u;
    let front = a + vm + b + vm + m.take(42);
    let back = z.skip(17) + vm + z2;
    t::lemma_has_part(front, x, back);
    assert(front + x + back =~= stop_script(vm));
}

proof fn lemma_take_script(vm: Seq<char>, snapshot: Seq<char>)
    ensures
        t::has(take_script(vm, snapshot), "Checkpoint-VM -Name '"@ + vm + "' -SnapshotName '"@ + snapshot + "'"@),
{
    let a = "$ErrorActionPreference='Stop'; if(!(Get-VM -Name '"@;
    let b = "' -ErrorAction SilentlyContinue)){ @{ ok=$false; error='VM not found: "@;
    let m = "' } | ConvertTo-Json -Compress; exit 4 }; Checkpoint-VM -Name '"@;
    let n = "' -SnapshotName '"@;
    let z = "' | Out-Null; @{ ok=$true; vm='"@;
    let z2 = "'; snapshot='"@;
    let z3 = "' } | ConvertTo-Json -Compress"@;
    let w = "Checkpoint-VM -Name '"@;
    let q = "'"@;
    reveal_strlit("' } | ConvertTo-Json -Compress; exit 4 }; Checkpoint-VM -Name '");
    reveal_strlit("' | Out-Null; @{ ok=$true; vm='");
    reveal_strlit("Checkpoint-VM -Name '");
    reveal_strlit("'");
    assert(m.skip(42) =~= w);
    assert(z.take(1) =~= q);
    let x = w + vm + n + snapshot + q;
    let front = a + vm + b + vm + m.take(42);
    let back = z.skip(1) + vm + z2 + snapshot + z3;
    t::lemma_has_part(front, x, back);
    assert(front + x + back =~= take_script(vm, snapshot));
}

#[verifier::rlimit(30)]
proof fn lemma_restore_script(vm: Seq<char>, snapshot: Seq<char>)
    ensures
        t::has(restore_script(vm, snapshot), "$s=Get-VMSnapshot -VMName '"@ + vm + "' -Name '"@ + snapshot + "'"@),
        t::has(restore_script(vm, snapshot), "Restore-VMSnapshot -VMSnapshot $s"@),
{
    let a = "$ErrorActionPreference='Stop'; if(!(Get-VM -Name '"@;
    let b = "' -ErrorAction SilentlyContinue)){ @{ ok=$false; error='VM not found: "@;
    let m = "' } | ConvertTo-Json -Compress; exit 4 }; $s=Get-VMSnapshot -VMName '"@;
    let n = "' -Name '"@;
    let z = "' -ErrorAction SilentlyContinue; if(!$s){ @{ ok=$false; error='Snapshot not found: "@;
    let r = "' } | ConvertTo-Json -Compress; exit 4 }; Restore-VMSnapshot -VMSnapshot $s -Confirm:$false; @{ ok=$true; vm='"@;
    let z2 = "'; snapshot='"@;
    let z3 = "'; restored=$true } | ConvertTo-Json -Compress"@;
    let w = "$s=Get-VMSnapshot -VMName '"@;
    let q = "'"@;
    let v = "Restore-VMSnapshot -VMSnapshot $s"@;
    reveal_strlit("' } | ConvertTo-Json -Compress; exit 4 }; $s=Get-VMSnapshot -VMName '");
    reveal_strlit("' -ErrorAction SilentlyContinue; if(!$s){ @{ ok=$false; error='Snapshot not found: ");
    reveal_strlit("' } | ConvertTo-Json -Compress; exit 4 }; Restore-VMSnapshot -VMSnapshot $s -Confirm:$false; @{ ok=$true; vm='");
    reveal_strlit("$s=Get-VMSnapshot -VMName '");
    reveal_strlit("'");
    reveal_strlit("Restore-VMSnapshot -VMSnapshot $s");
    assert(m.skip(42) =~= w);
    assert(z.take(1) =~= q);
    assert(r.subrange(42, 75) =~= v);
    let all = restore_script(vm, snapshot);
    let x = w + vm + n + snapshot + q;
    let front = a + vm + b + vm + m.take(42);
    let back = z.skip(1) + snapshot + r + vm + z2 + snapshot + z3;
    t::lemma_has_part(front, x, back);
    assert(front + x + back =~= all);
    let front = a + vm + b + vm + m + vm + n + snapshot + z + snapshot + r.take(42);
    let back = r.skip(75) + vm + z2 + snapshot + z3;
    t::lemma_has_part(front, v, back);
    assert(front + v + back =~= all);
}

proof fn lemma_list_script(vm: Seq<char>)
    ensures
        t::has(list_script(vm), "$snapshots=@(Get-VMSnapshot -VMName '"@ + vm + "'"@),
{
    let a = "$ErrorActionPreference='Stop'; if(!(Get-VM -Name '"@;
    let b = "' -ErrorAction SilentlyContinue)){ @{ ok=$false; error='VM not found: "@;
    let m = "' } | ConvertTo-Json -Compress; exit 4 }; $snapshots=@(Get-VMSnapshot -VMName '"@;
    let z = "' -ErrorAction SilentlyContinue | Select-Object Name, CreationTime, SnapshotType); @{ ok=$true; vm='"@;
    let z2 = "'; snapshots=$snapshots } | ConvertTo-Json -Compress -Depth 10"@;
    let w = "$snapshots=@(Get-VMSnapshot -VMName '"@;
    let q = "'"@;
    reveal_strlit("' } | ConvertTo-Json -Compress; exit 4 }; $snapshots=@(Get-VMSnapshot -VMName '");
    reveal_strlit("' -ErrorAction SilentlyContinue | Select-Object Name, CreationTime, SnapshotType); @{ ok=$true; vm='");
    reveal_strlit("$snapshots=@(Get-VMSnapshot -VMName '");
    reveal_strlit("'");
    assert(m.skip(42) =~= w);
    assert(z.take(1) =~= q);
    let x = w + vm + q;
    let front = a + vm + b + vm + m.take(42);
    let back = z.skip(1) + vm + z2;
    t::lemma_has_part(front, x, back);
    assert(front + x + back =~= list_script(vm));
}

/// Each request is served at its address: the machine of the agent that it names
/// is stopped, kept, restored or listed, and no other.
pub proof fn law_a_machine_request_is_served(
    agent_id: Seq<char>,
    name: Seq<char>,
    body: Tree,
    query: Seq<(Seq<char>, Seq<char>)>,
    headers: Seq<(Seq<char>, Seq<char>)>,
    token: Seq<char>,
)
    requires
        valid_agent_id(agent_id),
        valid_snapshot_name(name),
        body.text_at("agent_id"@) == Some(agent_id),
        body.text_at("name"@) == Some(name),
        t::trimmed(agent_id).len() > 0,
        t::trimmed(name).len() > 0,
        http::header_value(query, "agent_id"@) == Some(agent_id),
        authorized(headers, token),
    ensures
        ({
            let ask = |method: Seq<char>, path: Seq<char>| stream_route(method, path, query, headers, Some(body), token);
            let vm = "maturana-"@ + agent_id;
            &&& ask("POST"@, "/agents/stop"@) == (HostdRoute::<Seq<char>>::Script { script: stop_script(vm) })
            &&& ask("POST"@, "/agents/snapshot/take"@) == (HostdRoute::<Seq<char>>::Script {
                script: take_script(vm, name),
            })
            &&& ask("POST"@, "/agents/snapshot/restore"@) == (HostdRoute::<Seq<char>>::Script {
                script: restore_script(vm, name),
            })
            &&& ask("GET"@, "/agents/snapshot/list"@) == (HostdRoute::<Seq<char>>::Script { script: list_script(vm) })
            &&& ask("GET"@, "/health"@) is Health
            &&& ask("GET"@, "/vms"@) is Vms
            &&& ask("POST"@, "/agents/launch/ubuntu"@) is Launch
        }),
{
    reveal_strlit("/health");
    reveal_strlit("/vms");
    reveal_strlit("/agents/launch/ubuntu");
    reveal_strlit("/agents/stop");
    reveal_strlit("/agents/snapshot/take");
    reveal_strlit("/agents/snapshot/restore");
    reveal_strlit("/agents/snapshot/list");
    assert("/health"@.len() == 7 && "/health"@[0] == '/' && "/health"@[1] == 'h');
    assert("/vms"@.len() == 4 && "/vms"@[0] == '/' && "/vms"@[1] == 'v');
    assert("/agents/launch/ubuntu"@.len() == 21 && "/agents/launch/ubuntu"@[0] == '/' && "/agents/launch/ubuntu"@[1] == 'a' && "/agents/launch/ubuntu"@[8] == 'l' && "/agents/launch/ubuntu"@[17] == 'u' && "/agents/launch/ubuntu"@[18] == 'n');
    assert("/agents/stop"@.len() == 12 && "/agents/stop"@[0] == '/' && "/agents/stop"@[1] == 'a' && "/agents/stop"@[8] == 's');
    assert("/agents/snapshot/take"@.len() == 21 && "/agents/snapshot/take"@[0] == '/' && "/agents/snapshot/take"@[1] == 'a' && "/agents/snapshot/take"@[8] == 's' && "/agents/snapshot/take"@[17] == 't' && "/agents/snapshot/take"@[18] == 'a');
    assert("/agents/snapshot/restore"@.len() == 24 && "/agents/snapshot/restore"@[0] == '/' && "/agents/snapshot/restore"@[1] == 'a' && "/agents/snapshot/restore"@[8] == 's' && "/agents/snapshot/restore"@[17] == 'r' && "/agents/snapshot/restore"@[18] == 'e');
    assert("/agents/snapshot/list"@.len() == 21 && "/agents/snapshot/list"@[0] == '/' && "/agents/snapshot/list"@[1] == 'a' && "/agents/snapshot/list"@[8] == 's' && "/agents/snapshot/list"@[17] == 'l' && "/agents/snapshot/list"@[18] == 'i');
    reveal_strlit("GET");
    reveal_strlit("POST");
    assert("GET"@.len() == 3 && "GET"@[0] == 'G' && "GET"@[1] == 'E' && "GET"@[2] == 'T');
    assert("POST"@.len() == 4 && "POST"@[0] == 'P' && "POST"@[1] == 'O' && "POST"@[2] == 'S' && "POST"@[3] == 'T');
}

/// A request that names no agent, or an id or a name that is not valid, is
/// refused and runs no script.
pub proof fn law_a_request_without_a_valid_name_is_refused(body: Tree, restore: bool)
    ensures
        body.text_at("agent_id"@) is None ==> stop_asked(Some(body)) is Fail && snapshot_asked(Some(body), restore) is Fail,
        body.text_at("agent_id"@) matches Some(id) ==> !valid_agent_id(id) ==> stop_asked(Some(body)) is Fail
            && snapshot_asked(Some(body), restore) is Fail && list_route(id) is Fail,
        body.text_at("name"@) matches Some(name) ==> !valid_snapshot_name(name) ==> snapshot_asked(
            Some(body),
            restore,
        ) is Fail,
        stop_asked(None) is Fail,
        snapshot_asked(None, restore) is Fail,
{
}

/// A request that runs nothing is answered at once, with the status that says
/// why.
pub proof fn law_a_request_is_answered_with_its_status(message: Seq<char>, script: Seq<char>)
    ensures
        direct(HostdRoute::Unauthorized) matches Some((status, body)) && status == 401 && body.truth_at("ok"@) == Some(
            false,
        ),
        direct(HostdRoute::Health) matches Some((status, body)) && status == 200 && body.truth_at("ok"@) == Some(true),
        direct(HostdRoute::Unknown) matches Some((status, body)) && status == 404 && body.truth_at("ok"@) == Some(false),
        direct(HostdRoute::Fail { message }) matches Some((status, body)) && status == 500 && body.text_at("error"@)
            == Some(message),
        direct(HostdRoute::Script { script }) is None,
        direct(HostdRoute::Launch) is None,
        direct(HostdRoute::Vms) is None,
{
    reveal_strlit("ok");
    reveal_strlit("error");
    assert("ok"@.len() == 2 && "ok"@[0] == 'o' && "ok"@[1] == 'k');
    assert("error"@.len() == 5 && "error"@[0] == 'e' && "error"@[1] == 'r' && "error"@[2] == 'r' && "error"@[3] == 'o' && "error"@[4] == 'r');
    reveal_with_fuel(json::entry_from, 3);
}

/// A hexadecimal digit has its value, in either case; an escape stands for the
/// byte of its two digits, a plus for a blank, and any other byte for itself.
pub proof fn law_an_escape_stands_for_its_byte(bytes: Seq<u8>, i: int, d: u8, high: u8, low: u8)
    requires
        0 <= i < bytes.len(),
        d < 10,
    ensures
        hex_value((0x30 + d) as u8) == Some(d),
        d < 6 ==> hex_value((0x41 + d) as u8) == Some((10 + d) as u8) && hex_value((0x61 + d) as u8) == Some(
            (10 + d) as u8,
        ),
        bytes[i] == 0x25 && i + 2 < bytes.len() && hex_value(bytes[i + 1]) == Some(high) && hex_value(bytes[i + 2])
            == Some(low) ==> decoded_from(bytes, i) == seq![(high * 16 + low) as u8] + decoded_from(bytes, i + 3),
        bytes[i] == 0x2b ==> decoded_from(bytes, i) == seq![0x20u8] + decoded_from(bytes, i + 1),
        bytes[i] != 0x25 && bytes[i] != 0x2b ==> decoded_from(bytes, i) == seq![bytes[i]] + decoded_from(bytes, i + 1),
{
}

/// A pair of a query is cut at its first equals sign, and a target at its first
/// question mark.
pub proof fn law_a_target_is_cut_into_its_parts(name: Seq<char>, value: Seq<char>, path: Seq<char>, query: Seq<char>)
    requires
        forall|i: int| 0 <= i < name.len() ==> #[trigger] name[i] != '=',
        forall|i: int| 0 <= i < path.len() ==> #[trigger] path[i] != '?',
    ensures
        raw_pair(name + seq!['='] + value) == (name, value),
        target_path(path + seq!['?'] + query) == path,
        target_query(path + seq!['?'] + query) == query,
        target_path(path) == path,
{
    reveal_strlit("=");
    reveal_strlit("?");
    assert("="@ =~= seq!['=']);
    assert("?"@ =~= seq!['?']);
    t::lemma_cut_char(name, '=', value);
    t::lemma_cut_char(path, '?', query);
    t::lemma_find_char(path, '?');
}

/// What a script printed is its last line that looks like a document.
pub proof fn law_the_last_document_counts(lines: Seq<Seq<char>>, line: Seq<char>)
    ensures
        t::starts(t::trimmed_start(line), "{"@) ==> json_line(lines.push(line)) == Some(line),
        !t::starts(t::trimmed_start(line), "{"@) ==> json_line(lines.push(line)) == json_line(lines),
        json_line(Seq::empty()) is None,
{
    assert(lines.push(line).drop_last() =~= lines);
    assert(lines.push(line).last() == line);
}

/// A failed script that did not find its machine is answered as such; any other
/// keeps its status.
pub proof fn law_what_is_not_found_is_said_so(status: u16, body: Tree, error: Seq<char>)
    requires
        body.text_at("error"@) == Some(error),
    ensures
        status >= 400 && t::has(error, "not found"@) ==> found_status(status, body) == 404,
        !t::has(error, "not found"@) || status < 400 ==> found_status(status, body) == status,
{
}

/// The arguments give `value` under `name`.
pub open spec fn given(args: Seq<Seq<char>>, name: Seq<char>, value: Seq<char>) -> bool {
    exists|i: int| #![trigger args[i]] 0 <= i < args.len() - 1 && args[i] == name && args[i + 1] == value
}

proof fn lemma_given(args: Seq<Seq<char>>, name: Seq<char>, value: Option<Seq<char>>)
    ensures
        value matches Some(v) ==> given(with_path(args, name, value), name, v),
        value matches Some(v) ==> t::trimmed(v).len() > 0 ==> given(with_arg(args, name, value), name, v),
        forall|n: Seq<char>, v: Seq<char>| given(args, n, v) ==> #[trigger] given(with_path(args, name, value), n, v),
        forall|n: Seq<char>, v: Seq<char>| given(args, n, v) ==> #[trigger] given(with_arg(args, name, value), n, v),
{
    let p = with_path(args, name, value);
    let q = with_arg(args, name, value);
    if value is Some {
        assert(p[args.len() as int] == name && p[args.len() as int + 1] == value->0);
        if t::trimmed(value->0).len() > 0 {
            assert(q[args.len() as int] == name && q[args.len() as int + 1] == value->0);
        }
    }
    assert forall|n: Seq<char>, v: Seq<char>| given(args, n, v) implies #[trigger] given(p, n, v) by {
        let i = choose|i: int| #![trigger args[i]] 0 <= i < args.len() - 1 && args[i] == n && args[i + 1] == v;
        assert(p[i] == args[i] && p[i + 1] == args[i + 1]);
    }
    assert forall|n: Seq<char>, v: Seq<char>| given(args, n, v) implies #[trigger] given(q, n, v) by {
        let i = choose|i: int| #![trigger args[i]] 0 <= i < args.len() - 1 && args[i] == n && args[i + 1] == v;
        assert(q[i] == args[i] && q[i + 1] == args[i + 1]);
    }
}

proof fn lemma_flagged(args: Seq<Seq<char>>, flag: bool, word: Seq<char>)
    ensures
        flag ==> t::added(args, flag, word).last() == word,
        forall|n: Seq<char>, v: Seq<char>| given(args, n, v) ==> #[trigger] given(t::added(args, flag, word), n, v),
{
    let p = t::added(args, flag, word);
    assert forall|n: Seq<char>, v: Seq<char>| given(args, n, v) implies #[trigger] given(p, n, v) by {
        let i = choose|i: int| #![trigger args[i]] 0 <= i < args.len() - 1 && args[i] == n && args[i + 1] == v;
        assert(p[i] == args[i] && p[i + 1] == args[i + 1]);
    }
}

/// The launcher is given everything that the request names, each under its own
/// name; the id and the user are always given, and force only where it is asked
/// for.
pub proof fn law_the_launcher_is_given_what_was_asked(b: HostdLaunchBody<Seq<char>>, agent_id: Seq<char>)
    requires
        t::trimmed(agent_id).len() > 0,
    ensures
        ({
            let args = b.launch_args(agent_id);
            &&& given(args, "-AgentId"@, agent_id)
            &&& b.base_vhdx_path matches Some(v) ==> given(args, "-BaseVhdxPath"@, v)
            &&& b.switch_name matches Some(v) ==> t::trimmed(v).len() > 0 ==> given(args, "-SwitchName"@, v)
            &&& b.ssh_user matches Some(v) ==> t::trimmed(v).len() > 0 ==> given(args, "-SshUser"@, v)
            &&& b.ssh_key_path matches Some(v) ==> given(args, "-SshKeyPath"@, v)
            &&& b.cloud_init_user_data_path matches Some(v) ==> given(args, "-CloudInitUserDataPath"@, v)
            &&& b.cloud_init_meta_data_path matches Some(v) ==> given(args, "-CloudInitMetaDataPath"@, v)
            &&& b.force == Some(true) ==> args.last() == "-Force"@
        }),
{
    let a0 = Seq::<Seq<char>>::empty();
    let a1 = with_arg(a0, "-AgentId"@, Some(agent_id));
    let a2 = with_path(a1, "-BaseVhdxPath"@, b.base_vhdx_path);
    let a3 = with_arg(a2, "-SwitchName"@, b.switch_name);
    let user = Some(or_text(b.ssh_user, "ubuntu"@));
    let a4 = with_arg(a3, "-SshUser"@, user);
    let a5 = with_path(a4, "-SshKeyPath"@, b.ssh_key_path);
    let a6 = with_path(a5, "-CloudInitUserDataPath"@, b.cloud_init_user_data_path);
    let a7 = with_path(a6, "-CloudInitMetaDataPath"@, b.cloud_init_meta_data_path);
    let a8 = with_arg(a7, "-DiskSizeGB"@, number(b.disk_size_gb));
    let cpus = number(
        match b.vcpu {
            Some(n) => Some(n as u32),
            None => None,
        },
    );
    let a9 = with_arg(a8, "-Vcpu"@, cpus);
    let a10 = with_arg(a9, "-MemoryMiB"@, number(b.memory_mib));
    let a11 = t::added(a10, b.provision_existing == Some(true), "-ProvisionExisting"@);
    lemma_given(a0, "-AgentId"@, Some(agent_id));
    lemma_given(a1, "-BaseVhdxPath"@, b.base_vhdx_path);
    lemma_given(a2, "-SwitchName"@, b.switch_name);
    lemma_given(a3, "-SshUser"@, user);
    lemma_given(a4, "-SshKeyPath"@, b.ssh_key_path);
    lemma_given(a5, "-CloudInitUserDataPath"@, b.cloud_init_user_data_path);
    lemma_given(a6, "-CloudInitMetaDataPath"@, b.cloud_init_meta_data_path);
    lemma_given(a7, "-DiskSizeGB"@, number(b.disk_size_gb));
    lemma_given(a8, "-Vcpu"@, cpus);
    lemma_given(a9, "-MemoryMiB"@, number(b.memory_mib));
    lemma_flagged(a10, b.provision_existing == Some(true), "-ProvisionExisting"@);
    lemma_flagged(a11, b.force == Some(true), "-Force"@);
}

/// A launch with a valid id and a known harness runs, for the agent that it
/// names; any other is refused by what is wrong with it.
pub proof fn law_a_launch_runs_for_its_agent(b: HostdLaunchBody<Seq<char>>, id: Seq<char>, harness: Seq<char>, coder: Seq<char>)
    requires
        b.agent_id == Some(id),
        b.harness == Some(harness),
    ensures
        valid_agent_id(id) && (harness == "codex"@ || harness == "opencode"@ || harness == "none"@ || harness == coder
            + "-code"@) ==> (b.launch(coder) matches HostdLaunch::Run { agent_id, harness: h, args } && agent_id == id && h
            == harness && args == b.launch_args(id)),
        !valid_agent_id(id) ==> (b.launch(coder) matches HostdLaunch::Fail { message } && message
            == "invalid agent id: "@ + id),
        valid_agent_id(id) && harness != "codex"@ && harness != "opencode"@ && harness != "none"@ && harness != coder
            + "-code"@ ==> (b.launch(coder) matches HostdLaunch::Refuse { message } && message == "unsupported harness: "@
            + harness),
{
}

/// What a launch came to is told: whether it went well, with its log and its
/// lines.
pub proof fn law_a_launch_is_answered(agent_id: Seq<char>, success: bool, code: i32, log: Seq<char>, lines: Seq<Seq<char>>)
    ensures
        ({
            let r = launch_tree(agent_id, success, Some(code), log, lines);
            &&& r.truth_at("ok"@) == Some(success)
            &&& r.text_at("agent_id"@) == Some(agent_id)
            &&& success ==> r.text_at("status"@) == Some("succeeded"@)
            &&& !success ==> r.text_at("status"@) == Some("failed"@)
            &&& r.int64_at("exit_code"@) == Some(code as int)
            &&& r.text_at("log"@) == Some(log)
            &&& r.items_at("output"@) matches Some(v) && v.len() == lines.len() && forall|i: int|
                0 <= i < v.len() ==> #[trigger] v[i] == Tree::Text(lines[i])
        }),
{
    reveal_strlit("ok");
    reveal_strlit("agent_id");
    reveal_strlit("status");
    reveal_strlit("exit_code");
    reveal_strlit("log");
    reveal_strlit("output");
    assert("ok"@.len() == 2 && "ok"@[0] == 'o' && "ok"@[1] == 'k');
    assert("agent_id"@.len() == 8 && "agent_id"@[0] == 'a' && "agent_id"@[1] == 'g' && "agent_id"@[2] == 'e' && "agent_id"@[3] == 'n' && "agent_id"@[4] == 't' && "agent_id"@[5] == '_');
    assert("status"@.len() == 6 && "status"@[0] == 's' && "status"@[1] == 't' && "status"@[2] == 'a' && "status"@[3] == 't' && "status"@[4] == 'u' && "status"@[5] == 's');
    assert("exit_code"@.len() == 9 && "exit_code"@[0] == 'e' && "exit_code"@[1] == 'x' && "exit_code"@[2] == 'i' && "exit_code"@[3] == 't' && "exit_code"@[4] == '_' && "exit_code"@[5] == 'c');
    assert("log"@.len() == 3 && "log"@[0] == 'l' && "log"@[1] == 'o' && "log"@[2] == 'g');
    assert("output"@.len() == 6 && "output"@[0] == 'o' && "output"@[1] == 'u' && "output"@[2] == 't' && "output"@[3] == 'p' && "output"@[4] == 'u' && "output"@[5] == 't');
    reveal_with_fuel(json::entry_from, 7);
}

proof fn lemma_last_cut(s: Seq<char>, i: int, k: int)
    requires
        0 <= k < i <= s.len(),
        s[k] == ':',
        forall|j: int| k < j < i ==> s[j] != ':',
    ensures
        last_cut(s, i) == Some((s.take(k), s.skip(k + 1))),
    decreases i,
{
    if k < i - 1 {
        lemma_last_cut(s, i - 1, k);
    }
}

/// A prefix on the loopback address gives the port that it names.
pub proof fn law_a_loopback_prefix_gives_its_port(port: Seq<char>)
    requires
        forall|i: int| 0 <= i < port.len() ==> #[trigger] port[i] != '/' && port[i] != ':',
    ensures
        bind_port("http://127.0.0.1:"@ + port) == t::parsed_unsigned(port, 65535),
        bind_port("http://0.0.0.0:"@ + port) is None,
{
    lemma_bind("http://127.0.0.1:"@, "127.0.0.1"@, port);
    lemma_bind("http://0.0.0.0:"@, "0.0.0.0"@, port);
    reveal_strlit("127.0.0.1");
    reveal_strlit("localhost");
    reveal_strlit("0.0.0.0");
    assert("0.0.0.0"@.len() == 7 && "127.0.0.1"@.len() == 9 && "localhost"@.len() == 9);
}

proof fn lemma_bind(whole: Seq<char>, host: Seq<char>, port: Seq<char>)
    requires
        forall|i: int| 0 <= i < port.len() ==> #[trigger] port[i] != '/' && port[i] != ':',
        whole == "http://127.0.0.1:"@ && host == "127.0.0.1"@ || whole == "http://0.0.0.0:"@ && host == "0.0.0.0"@,
    ensures
        bind_port(whole + port) == if host == "127.0.0.1"@ || host == "localhost"@ {
            t::parsed_unsigned(port, 65535)
        } else {
            None
        },
{
    reveal_strlit("http://");
    reveal_strlit("http://127.0.0.1:");
    reveal_strlit("http://0.0.0.0:");
    reveal_strlit("127.0.0.1");
    reveal_strlit("0.0.0.0");
    reveal_strlit("/");
    assert("/"@ =~= seq!['/']);
    let prefix = whole + port;
    assert(whole =~= "http://"@ + host + seq![':']);
    let rest = host + seq![':'] + port;
    assert(prefix.subrange(0, 7) =~= "http://"@);
    assert(prefix.skip(7) =~= rest);
    assert forall|i: int| 0 <= i < rest.len() implies #[trigger] rest[i] != '/' by {
        if i > host.len() {
            assert(rest[i] == port[i - host.len() - 1]);
        }
    }
    t::lemma_find_char(rest, '/');
    assert(t::pieces(rest, "/"@) == seq![rest]);
    let k = host.len() as int;
    assert forall|j: int| k < j < rest.len() implies rest[j] != ':' by {
        assert(rest[j] == port[j - k - 1]);
    }
    lemma_last_cut(rest, rest.len() as int, k);
    assert(rest.take(k) =~= host);
    assert(rest.skip(k + 1) =~= port);
}

/// The report tells the address, whether the daemon can be reached, whether there
/// is a token, and what went wrong.
pub proof fn law_the_daemon_is_reported_as_it_is(s: HostdStatus<Seq<char>>)
    ensures
        s.lines()[0] == "hostd.url: "@ + s.url,
        s.reachable ==> s.lines()[1] == "hostd.reachable: "@ + "true"@,
        !s.reachable ==> s.lines()[1] == "hostd.reachable: "@ + "false"@,
        s.token_present ==> s.lines()[2] == "hostd.token_present: "@ + "true"@,
        !s.token_present ==> s.lines()[2] == "hostd.token_present: "@ + "false"@,
        s.error matches Some(e) ==> s.lines().len() == 4 && s.lines()[3] == "hostd.error: "@ + e,
        s.error is None ==> s.lines().len() == 3,
{
}

} // verus!
