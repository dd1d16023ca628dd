//! The small part of HTTP that the services speak.

use crate::text as t;
use vstd::prelude::*;
use vstd::string::*;
use vstd::utf8::*;

verus! {

/// What `String::from_utf8_lossy` makes of bytes.
pub uninterp spec fn lossy(bytes: Seq<u8>) -> Seq<char>;

/// `String::from_utf8_lossy`: the text depends on the bytes alone, and where they
/// are valid UTF-8 it is the text that they encode.
#[verifier::external_body]
pub(crate) fn lossy_text(bytes: &[u8]) -> (r: String)
    ensures
        r@ == lossy(bytes@),
        valid_utf8(bytes@) ==> r@ == decode_utf8(bytes@),
{
    String::from_utf8_lossy(bytes).into_owned()
}

// ---------------------------------------------------------------------------
// Bytes
// ---------------------------------------------------------------------------

pub open spec fn zero_from(a: Seq<u8>, b: Seq<u8>, i: int) -> bool {
    forall|k: int| 0 <= k < i ==> (#[trigger] a[k]) == b[k]
}

/// Whether two byte strings are equal. Every byte is looked at, whatever the first
/// ones are.
pub fn constant_time_eq(a: &[u8], b: &[u8]) -> (r: bool)
    ensures
        r == (a@ == b@),
{
    if a.len() != b.len() {
        return false;
    }
    let mut diff: u8 = 0;
    let mut i: usize = 0;
    while i < a.len()
        invariant
            i <= a@.len(),
            a@.len() == b@.len(),
            diff == 0 <==> zero_from(a@, b@, i as int),
        decreases a@.len() - i,
    {
        let x: u8 = a[i];
        let y: u8 = b[i];
        let before: u8 = diff;
        diff = before | (x ^ y);
        assert((before | (x ^ y)) == 0 <==> (before == 0 && x == y)) by (bit_vector);
        assert(zero_from(a@, b@, i as int + 1) <==> (zero_from(a@, b@, i as int) && a@[i as int] == b@[i as int]));
        i += 1;
    }
    assert(zero_from(a@, b@, a@.len() as int) <==> a@ =~= b@);
    diff == 0
}

/// Whether a line ends twice at `i`.
pub open spec fn blank_line_at(data: Seq<u8>, i: int) -> bool {
    &&& 0 <= i
    &&& i + 4 <= data.len()
    &&& data[i] == 13
    &&& data[i + 1] == 10
    &&& data[i + 2] == 13
    &&& data[i + 3] == 10
}

/// Where the headers of a request end, if they do.
pub fn find_header_end(data: &[u8]) -> (r: Option<usize>)
    ensures
        r is None <==> forall|k: int| !#[trigger] blank_line_at(data@, k),
        r matches Some(i) ==> blank_line_at(data@, i as int) && forall|k: int|
            0 <= k < i ==> !#[trigger] blank_line_at(data@, k),
{
    if data.len() < 4 {
        return None;
    }
    let mut i: usize = 0;
    while i <= data.len() - 4
        invariant
            data@.len() >= 4,
            i <= data@.len() - 3,
            forall|k: int| 0 <= k < i ==> !#[trigger] blank_line_at(data@, k),
        decreases data@.len() - i,
    {
        if data[i] == 13 && data[i + 1] == 10 && data[i + 2] == 13 && data[i + 3] == 10 {
            assert(blank_line_at(data@, i as int));
            return Some(i);
        }
        i += 1;
    }
    None
}

// ---------------------------------------------------------------------------
// Requests
// ---------------------------------------------------------------------------

/// The value of a header, where it is there; of several, the last one counts.
pub open spec fn header_value(headers: Seq<(Seq<char>, Seq<char>)>, name: Seq<char>) -> Option<Seq<char>>
    decreases headers.len(),
{
    if headers.len() == 0 {
        None
    } else if headers.last().0 == name {
        Some(headers.last().1)
    } else {
        header_value(headers.drop_last(), name)
    }
}

pub open spec fn pair_views(v: Seq<(String, String)>) -> Seq<(Seq<char>, Seq<char>)> {
    v.map_values(|p: (String, String)| (p.0@, p.1@))
}

pub open spec fn opt_text(o: Option<&String>) -> Option<Seq<char>> {
    match o {
        Some(s) => Some(s@),
        None => None,
    }
}

/// Looks a name up in a list of names and values; the last one counts.
pub fn lookup<'a>(pairs: &'a Vec<(String, String)>, name: &str) -> (r: Option<&'a String>)
    ensures
        opt_text(r) == header_value(pair_views(pairs@), name@),
{
    let ghost all = pair_views(pairs@);
    let mut i: usize = pairs.len();
    assert(all.take(all.len() as int) =~= all);
    while i > 0
        invariant
            i <= pairs@.len(),
            all == pair_views(pairs@),
            header_value(all, name@) == header_value(all.take(i as int), name@),
        decreases i,
    {
        assert(all.take(i as int).last() == (pairs@[i - 1].0@, pairs@[i - 1].1@));
        assert(all.take(i as int).drop_last() =~= all.take(i as int - 1));
        if t::same(pairs[i - 1].0.as_str(), name) {
            return Some(&pairs[i - 1].1);
        }
        i -= 1;
    }
    None
}

/// The name, in lower case, and the value of a header line.
pub open spec fn header_of(line: Seq<char>) -> Option<(Seq<char>, Seq<char>)> {
    match t::cut(line, ":"@) {
        Some((name, value)) => Some((t::lower(t::trimmed(name)), t::trimmed(value))),
        None => None,
    }
}

pub fn parse_header(line: &str) -> (r: Option<(String, String)>)
    ensures
        t::pair_view(r) == header_of(line@),
{
    match t::split_once(line, ":") {
        Some((name, value)) => Some(
            (t::to_lower(t::trim(name.as_str()).as_str()), t::trim(value.as_str())),
        ),
        None => None,
    }
}

/// The headers among the lines.
pub open spec fn headers_of(lines: Seq<Seq<char>>) -> Seq<(Seq<char>, Seq<char>)>
    decreases lines.len(),
{
    if lines.len() == 0 {
        Seq::empty()
    } else {
        match header_of(lines.last()) {
            Some(h) => headers_of(lines.drop_last()).push(h),
            None => headers_of(lines.drop_last()),
        }
    }
}

/// A word of a line; empty where there are fewer.
pub open spec fn word(line: Seq<char>, i: int) -> Seq<char> {
    if 0 <= i < t::words_of(line).len() {
        t::words_of(line)[i]
    } else {
        Seq::empty()
    }
}

/// The head of a request.
#[derive(Debug, PartialEq, Eq)]
pub struct RequestHead {
    pub method: String,
    pub path: String,
    pub headers: Vec<(String, String)>,
}

pub struct HeadView {
    pub method: Seq<char>,
    pub path: Seq<char>,
    pub headers: Seq<(Seq<char>, Seq<char>)>,
}

impl View for RequestHead {
    type V = HeadView;

    open spec fn view(&self) -> HeadView {
        HeadView { method: self.method@, path: self.path@, headers: pair_views(self.headers@) }
    }
}

/// The head that a text holds: the request line, then the headers.
pub open spec fn head_of(text: Seq<char>) -> HeadView {
    let lines = t::pieces(text, "\r\n"@);
    HeadView { method: word(lines[0], 0), path: word(lines[0], 1), headers: headers_of(lines.skip(1)) }
}

fn nth_word(words: &Vec<String>, i: usize) -> (r: String)
    ensures
        r@ == if i < words@.len() {
            words@[i as int]@
        } else {
            Seq::empty()
        },
{
    if i < words.len() {
        words[i].clone()
    } else {
        let none = String::new();
        assert(none@ =~= Seq::<char>::empty());
        none
    }
}

/// Reads the head of a request.
pub fn parse_head(text: &str) -> (r: RequestHead)
    ensures
        r@ == head_of(text@),
{
    proof {
        reveal_strlit("\r\n");
    }
    let lines = t::split(text, "\r\n");
    let ghost all = t::pieces(text@, "\r\n"@);
    assert(all == t::texts(lines@));
    assert(all.len() > 0);
    assert(lines@.len() == all.len());
    assert(all[0] == lines@[0]@);
    let words = t::words(lines[0].as_str());
    let ghost ws = t::words_of(all[0]);
    assert(ws == t::texts(words@));
    let method = nth_word(&words, 0);
    let path = nth_word(&words, 1);
    assert(method@ == word(all[0], 0)) by {
        if words@.len() > 0 {
            assert(ws[0] == words@[0]@);
        }
    }
    assert(path@ == word(all[0], 1)) by {
        if words@.len() > 1 {
            assert(ws[1] == words@[1]@);
        }
    }
    let ghost rest = all.skip(1);
    let mut headers: Vec<(String, String)> = Vec::new();
    let mut i: usize = 1;
    assert(rest.take(0) =~= Seq::<Seq<char>>::empty());
    assert(pair_views(headers@) =~= Seq::<(Seq<char>, Seq<char>)>::empty());
    while i < lines.len()
        invariant
            1 <= i <= lines@.len(),
            all == t::texts(lines@),
            rest == all.skip(1),
            pair_views(headers@) == headers_of(rest.take(i as int - 1)),
        decreases lines@.len() - i,
    {
        let ghost before = pair_views(headers@);
        assert(rest.take(i as int).drop_last() =~= rest.take(i as int - 1));
        assert(rest.take(i as int).last() == lines@[i as int]@);
        match parse_header(lines[i].as_str()) {
            Some(h) => {
                let ghost hv = (h.0@, h.1@);
                headers.push(h);
                assert(pair_views(headers@) =~= before.push(hv));
            },
            None => {},
        }
        i += 1;
    }
    assert(rest.take(rest.len() as int) =~= rest);
    RequestHead { method, path, headers }
}

/// The length of the body that the headers announce; none, or one that is no
/// number, is zero.
pub open spec fn announced(headers: Seq<(Seq<char>, Seq<char>)>) -> nat {
    match header_value(headers, "content-length"@) {
        Some(v) => match t::parsed_unsigned(v, usize::MAX as nat) {
            Some(n) => n,
            None => 0,
        },
        None => 0,
    }
}

pub fn content_length(headers: &Vec<(String, String)>) -> (r: usize)
    ensures
        r == announced(pair_views(headers@)),
{
    match lookup(headers, "content-length") {
        Some(v) => match t::parse_unsigned(v.as_str(), usize::MAX as u64) {
            Some(n) => n as usize,
            None => 0,
        },
        None => 0,
    }
}

/// The largest head and the largest body of a request, in bytes.
pub const MAX_HEAD_BYTES: usize = 1_048_576;

pub const MAX_BODY_BYTES: usize = 16_777_216;

/// What the bytes read so far hold.
#[derive(Debug, PartialEq, Eq)]
pub enum HeadStep {
    /// More bytes are needed.
    More,
    HeadTooLarge,
    BodyTooLarge,
    /// The head is there; the body starts at `body_start` and has `length` bytes.
    Found { head: RequestHead, body_start: usize, length: usize },
}

/// Looks for the head of a request in the bytes read so far.
pub fn read_head(data: &Vec<u8>) -> (r: HeadStep)
    requires
        data@.len() <= usize::MAX - 4,
    ensures
        match r {
            HeadStep::More => (forall|k: int| !#[trigger] blank_line_at(data@, k)) && data@.len() <= MAX_HEAD_BYTES,
            HeadStep::HeadTooLarge => (forall|k: int| !#[trigger] blank_line_at(data@, k)) && data@.len()
                > MAX_HEAD_BYTES,
            HeadStep::BodyTooLarge => exists|i: int|
                #[trigger] blank_line_at(data@, i) && (forall|k: int|
                    0 <= k < i ==> !#[trigger] blank_line_at(data@, k)) && announced(
                    head_of(lossy(data@.take(i))).headers,
                ) > MAX_BODY_BYTES,
            HeadStep::Found { head, body_start, length } => {
                &&& body_start >= 4
                &&& blank_line_at(data@, body_start - 4)
                &&& forall|k: int| 0 <= k < body_start - 4 ==> !#[trigger] blank_line_at(data@, k)
                &&& head@ == head_of(lossy(data@.take(body_start - 4)))
                &&& length == announced(head@.headers)
                &&& length <= MAX_BODY_BYTES
            },
        },
{
    match find_header_end(data.as_slice()) {
        None => if data.len() > MAX_HEAD_BYTES {
            HeadStep::HeadTooLarge
        } else {
            HeadStep::More
        },
        Some(i) => {
            let front = vstd::slice::slice_subrange(data.as_slice(), 0, i);
            assert(front@ =~= data@.take(i as int));
            let text = lossy_text(front);
            let head = parse_head(text.as_str());
            let length: usize = content_length(&head.headers);
            if length > MAX_BODY_BYTES {
                assert(blank_line_at(data@, i as int));
                HeadStep::BodyTooLarge
            } else {
                HeadStep::Found { head, body_start: i + 4, length }
            }
        },
    }
}

/// The body of a request: empty where fewer bytes came than were announced.
pub open spec fn body_of(data: Seq<u8>, start: int, length: int) -> Seq<u8> {
    if start + length <= data.len() {
        data.subrange(start, start + length)
    } else {
        Seq::empty()
    }
}

pub fn take_body(data: &Vec<u8>, start: usize, length: usize) -> (r: Vec<u8>)
    ensures
        r@ == body_of(data@, start as int, length as int),
{
    let mut r: Vec<u8> = Vec::new();
    let n: usize = data.len();
    if start <= n && length <= n - start {
        let part = vstd::slice::slice_subrange(data.as_slice(), start, start + length);
        r.extend_from_slice(part);
    }
    assert(r@ =~= body_of(data@, start as int, length as int));
    r
}

/// Whether more bytes of the body are awaited.
pub fn needs_more(have: usize, start: usize, length: usize) -> (r: bool)
    ensures
        r == (have < start + length),
{
    have < start || have - start < length
}

/// Whether the head of a request ends at a place: the first blank line is there.
pub open spec fn head_ends_at(data: Seq<u8>, i: int) -> bool {
    blank_line_at(data, i) && forall|k: int| 0 <= k < i ==> !#[trigger] blank_line_at(data, k)
}

/// The head of a request that was found, and where its body lies.
#[derive(Debug, PartialEq, Eq)]
pub struct FoundHead {
    pub head: RequestHead,
    pub body_start: usize,
    pub length: usize,
}

/// A request as far as it has come.
#[derive(Debug, PartialEq, Eq)]
pub struct RequestReader {
    pub data: Vec<u8>,
    pub found: Option<FoundHead>,
}

#[derive(Debug, PartialEq, Eq)]
pub enum ReadEvent {
    Bytes { chunk: Vec<u8> },
    /// No more bytes come.
    Closed,
}

#[derive(Debug, PartialEq, Eq)]
pub enum ReadStep {
    /// Wait for what comes next.
    More,
    Failed { error: &'static str },
    Ready { head: RequestHead, body: Vec<u8> },
}

impl FoundHead {
    /// Whether this is the head of the request that the bytes hold.
    pub open spec fn of(self, data: Seq<u8>) -> bool {
        &&& self.body_start >= 4
        &&& head_ends_at(data, self.body_start - 4)
        &&& self.head@ == head_of(lossy(data.take(self.body_start - 4)))
        &&& self.length == announced(self.head@.headers)
        &&& self.length <= MAX_BODY_BYTES
    }
}

/// Whether the bytes hold a whole request with this head and this body.
pub open spec fn is_request(data: Seq<u8>, head: HeadView, body: Seq<u8>) -> bool {
    exists|i: int|
        #![trigger head_ends_at(data, i)]
        head_ends_at(data, i) && head == head_of(lossy(data.take(i))) && announced(head.headers) <= MAX_BODY_BYTES
            && i + 4 + announced(head.headers) <= data.len() && body == data.subrange(
            i + 4,
            i + 4 + announced(head.headers) as int,
        )
}

/// Whether the bytes announce a body that is larger than one may be.
pub open spec fn body_too_large(data: Seq<u8>) -> bool {
    exists|i: int|
        #![trigger head_ends_at(data, i)]
        head_ends_at(data, i) && announced(head_of(lossy(data.take(i))).headers) > MAX_BODY_BYTES
}

impl RequestReader {
    /// What holds of every request that is being read.
    pub open spec fn wf(self) -> bool {
        match self.found {
            Some(f) => f.of(self.data@) && self.data@.len() < f.body_start + f.length,
            None => forall|k: int| !#[trigger] blank_line_at(self.data@, k),
        }
    }

    pub fn new() -> (r: RequestReader)
        ensures
            r.wf(),
            r.data@.len() == 0,
            r.found is None,
    {
        RequestReader { data: Vec::new(), found: None }
    }

    fn settle(data: Vec<u8>, f: FoundHead) -> (r: (RequestReader, ReadStep))
        requires
            f.of(data@),
        ensures
            match r.1 {
                ReadStep::More => r.0.wf() && r.0.data@ == data@ && r.0.found is Some,
                ReadStep::Ready { head, body } => is_request(data@, head@, body@),
                ReadStep::Failed { .. } => false,
            },
    {
        if needs_more(data.len(), f.body_start, f.length) {
            (RequestReader { data, found: Some(f) }, ReadStep::More)
        } else {
            let body = take_body(&data, f.body_start, f.length);
            assert(head_ends_at(data@, f.body_start - 4));
            (RequestReader { data: Vec::new(), found: None }, ReadStep::Ready { head: f.head, body })
        }
    }

    /// Goes on when bytes come, or when none come any more. A request is ready as
    /// soon as its whole body is there; where the bytes end before that, its body
    /// counts as empty.
    pub fn read_http_request(self, event: ReadEvent) -> (r: (RequestReader, ReadStep))
        requires
            self.wf(),
            event matches ReadEvent::Bytes { chunk } ==> self.data@.len() + chunk@.len() <= usize::MAX - 4,
        ensures
            match event {
                ReadEvent::Closed => match self.found {
                    Some(f) => r.1 matches ReadStep::Ready { head, body } && head@ == f.head@ && body@.len() == 0,
                    None => r.1 matches ReadStep::Failed { error } && error@
                        == "connection closed while reading request"@,
                },
                ReadEvent::Bytes { chunk } => {
                    let all = self.data@ + chunk@;
                    match r.1 {
                        ReadStep::More => r.0.wf() && r.0.data@ == all && (r.0.found is None ==> all.len()
                            <= MAX_HEAD_BYTES),
                        ReadStep::Ready { head, body } => is_request(all, head@, body@),
                        ReadStep::Failed { error } => if error@ == "request headers too large"@ {
                            all.len() > MAX_HEAD_BYTES && forall|k: int| !#[trigger] blank_line_at(all, k)
                        } else {
                            error@ == "request body too large"@ && body_too_large(all)
                        },
                    }
                },
            },
    {
        match event {
            ReadEvent::Closed => match self.found {
                Some(f) => {
                    let body = take_body(&self.data, f.body_start, f.length);
                    (RequestReader { data: Vec::new(), found: None }, ReadStep::Ready { head: f.head, body })
                },
                None => (self, ReadStep::Failed { error: "connection closed while reading request" }),
            },
            ReadEvent::Bytes { chunk } => {
                let mut data = self.data;
                let ghost before = data@;
                let mut more = chunk;
                data.append(&mut more);
                assert(data@ =~= before + chunk@);
                match self.found {
                    Some(f) => {
                        proof {
                            law_a_head_stays_what_it_is(before, chunk@, f.body_start - 4);
                        }
                        RequestReader::settle(data, f)
                    },
                    None => match read_head(&data) {
                        HeadStep::More => (RequestReader { data, found: None }, ReadStep::More),
                        HeadStep::HeadTooLarge => (
                            RequestReader { data, found: None },
                            ReadStep::Failed { error: "request headers too large" },
                        ),
                        HeadStep::BodyTooLarge => {
                            proof {
                                reveal_strlit("request headers too large");
                                reveal_strlit("request body too large");
                                assert("request headers too large"@.len() != "request body too large"@.len());
                                let i = choose|i: int|
                                    #[trigger] blank_line_at(data@, i) && (forall|k: int|
                                        0 <= k < i ==> !#[trigger] blank_line_at(data@, k)) && announced(
                                        head_of(lossy(data@.take(i))).headers,
                                    ) > MAX_BODY_BYTES;
                                assert(head_ends_at(data@, i));
                            }
                            (
                                RequestReader { data: Vec::new(), found: None },
                                ReadStep::Failed { error: "request body too large" },
                            )
                        },
                        HeadStep::Found { head, body_start, length } => {
                            let f = FoundHead { head, body_start, length };
                            assert(head_ends_at(data@, f.body_start - 4));
                            RequestReader::settle(data, f)
                        },
                    },
                }
            },
        }
    }
}

/// Where the head of a request was found, it stays what it is, whatever comes
/// behind it: what a request holds does not depend on the pieces it came in.
pub proof fn law_a_head_stays_what_it_is(data: Seq<u8>, more: Seq<u8>, i: int)
    requires
        head_ends_at(data, i),
    ensures
        head_ends_at(data + more, i),
        (data + more).take(i) == data.take(i),
        forall|j: int| #[trigger] head_ends_at(data + more, j) ==> j == i,
{
    let all = data + more;
    assert forall|k: int| 0 <= k <= i implies blank_line_at(all, k) == #[trigger] blank_line_at(data, k) by {
        assert(all.subrange(k, k + 4) =~= data.subrange(k, k + 4));
    }
    assert forall|k: int| 0 <= k < i implies !#[trigger] blank_line_at(all, k) by {
        assert(!blank_line_at(data, k));
    }
    assert(blank_line_at(data, i));
    assert(all.take(i) =~= data.take(i));
    assert forall|j: int| #[trigger] head_ends_at(all, j) implies j == i by {
        assert(blank_line_at(all, j));
        assert(blank_line_at(all, i));
    }
}

/// The words for a status.
pub open spec fn reason_words(status: u16) -> Seq<char> {
    match status {
        200 => "OK"@,
        400 => "Bad Request"@,
        401 => "Unauthorized"@,
        404 => "Not Found"@,
        _ => "Internal Server Error"@,
    }
}

pub fn reason(status: u16) -> (r: &'static str)
    ensures
        r@ == reason_words(status),
{
    match status {
        200 => "OK",
        400 => "Bad Request",
        401 => "Unauthorized",
        404 => "Not Found",
        _ => "Internal Server Error",
    }
}

/// The head of a response whose body is a JSON document.
pub fn json_response_head(status: u16, length: usize) -> (r: String)
    ensures
        r@ == "HTTP/1.1 "@ + t::decimal(status as nat) + " "@ + reason_words(status)
            + "\r\ncontent-type: application/json\r\ncontent-length: "@ + t::decimal(length as nat)
            + "\r\nconnection: close\r\n\r\n"@,
{
    "HTTP/1.1 ".to_owned().concat(t::u64_text(status as u64).as_str()).concat(" ").concat(reason(status)).concat(
        "\r\ncontent-type: application/json\r\ncontent-length: ",
    ).concat(t::usize_text(length).as_str()).concat("\r\nconnection: close\r\n\r\n")
}

/// The body that was announced is taken exactly where it came.
pub proof fn law_a_complete_body_is_taken(data: Seq<u8>, start: int, length: int)
    requires
        0 <= start,
        0 <= length,
        start + length <= data.len(),
    ensures
        body_of(data, start, length).len() == length,
        forall|k: int| 0 <= k < length ==> (#[trigger] body_of(data, start, length)[k]) == data[start + k],
{
}

/// The last header of a name counts; a name that is not there has no value.
pub proof fn law_the_last_header_of_a_name_counts(
    headers: Seq<(Seq<char>, Seq<char>)>,
    name: Seq<char>,
    other: Seq<char>,
    value: Seq<char>,
)
    ensures
        header_value(headers.push((name, value)), name) == Some(value),
        other != name ==> header_value(headers.push((other, value)), name) == header_value(headers, name),
        header_value(Seq::empty(), name) is None,
{
    assert(headers.push((name, value)).drop_last() =~= headers);
    assert(headers.push((other, value)).drop_last() =~= headers);
}

/// A header is cut at its first colon: its name in lower case, its value without
/// the blanks around it; a line without a colon is none.
pub proof fn law_a_header_is_cut_at_its_colon(name: Seq<char>, value: Seq<char>, lines: Seq<Seq<char>>)
    requires
        forall|i: int| 0 <= i < name.len() ==> #[trigger] name[i] != ':',
    ensures
        header_of(name + seq![':'] + value) == Some((t::lower(t::trimmed(name)), t::trimmed(value))),
        header_of(name) is None,
        headers_of(lines.push(name + seq![':'] + value)) == headers_of(lines).push(
            (t::lower(t::trimmed(name)), t::trimmed(value)),
        ),
        headers_of(lines.push(name)) == headers_of(lines),
{
    reveal_strlit(":");
    assert(":"@ =~= seq![':']);
    t::lemma_cut_char(name, ':', value);
    t::lemma_find_char(name, ':');
    assert(lines.push(name).drop_last() =~= lines);
    assert(lines.push(name + seq![':'] + value).drop_last() =~= lines);
}

/// A request is announced with the length that its header gives.
pub proof fn law_a_body_is_announced_by_its_header(headers: Seq<(Seq<char>, Seq<char>)>, n: nat)
    requires
        n <= usize::MAX,
    ensures
        announced(headers.push(("content-length"@, t::decimal(n)))) == n,
        announced(Seq::empty()) == 0,
{
    let all = headers.push(("content-length"@, t::decimal(n)));
    assert(all.last().0 == "content-length"@);
    t::law_a_number_is_read_back(n, usize::MAX as nat);
}

/// The first line of a request names its method and its path; the lines behind it
/// are its headers.
pub proof fn law_the_first_line_names_method_and_path(
    method: Seq<char>,
    path: Seq<char>,
    version: Seq<char>,
    rest: Seq<char>,
)
    requires
        method.len() > 0,
        path.len() > 0,
        forall|i: int| 0 <= i < method.len() ==> !t::space(#[trigger] method[i]),
        forall|i: int| 0 <= i < path.len() ==> !t::space(#[trigger] path[i]),
        forall|j: int|
            0 <= j < (method + seq![' '] + (path + seq![' '] + version)).len() ==> !t::occurs_at(
                method + seq![' '] + (path + seq![' '] + version) + "\r\n"@ + rest,
                "\r\n"@,
                j,
            ),
    ensures
        ({
            let h = head_of(method + seq![' '] + (path + seq![' '] + version) + "\r\n"@ + rest);
            h.method == method && h.path == path && h.headers == headers_of(t::pieces(rest, "\r\n"@))
        }),
{
    reveal_strlit("\r\n");
    let line = method + seq![' '] + (path + seq![' '] + version);
    let all = line + "\r\n"@ + rest;
    t::law_a_text_is_cut_at_its_separator(line, "\r\n"@, rest);
    t::lemma_find_from(all, "\r\n"@, 0);
    let k = t::find(all, "\r\n"@)->0;
    assert(all.take(k) == line);
    let ps = t::pieces(all, "\r\n"@);
    assert(ps == seq![line] + t::pieces(rest, "\r\n"@));
    assert(ps.skip(1) =~= t::pieces(rest, "\r\n"@));
    t::law_words_stand_between_blanks(method, ' ', path + seq![' '] + version);
    t::law_words_stand_between_blanks(path, ' ', version);
    assert(t::words_of(line)[0] == method && t::words_of(line)[1] == path);
}

} // verus!
