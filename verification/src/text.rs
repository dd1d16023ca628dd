//! Operations on text, stated over the sequence of characters that a string
//! holds.

use vstd::prelude::*;
use vstd::string::*;

verus! {

/// `std::string::String::push` appends one character.
pub assume_specification[ String::push ](s: &mut String, c: char)
    ensures
        final(s)@ == old(s)@.push(c),
;

/// The characters of a string, in order.
pub fn chars_of(s: &str) -> (v: Vec<char>)
    ensures
        v@ == s@,
{
    let mut v: Vec<char> = Vec::new();
    for c in it: s.chars()
        invariant
            it.seq() == s@,
            v@ == s@.take(it.index() as int),
    {
        assert(s@.take(it.index() as int + 1) =~= s@.take(it.index() as int).push(c));
        v.push(c);
    }
    assert(s@.take(s@.len() as int) =~= s@);
    v
}

/// The string that holds the characters of `v` from `a` up to `b`.
pub fn string_of(v: &Vec<char>, a: usize, b: usize) -> (s: String)
    requires
        a <= b <= v.len(),
    ensures
        s@ == v@.subrange(a as int, b as int),
{
    let mut s = String::new();
    let mut i: usize = a;
    while i < b
        invariant
            a <= i <= b <= v.len(),
            s@ == v@.subrange(a as int, i as int),
        decreases b - i,
    {
        assert(v@.subrange(a as int, i as int + 1) =~= v@.subrange(a as int, i as int).push(v@[i as int]));
        s.push(v[i]);
        i += 1;
    }
    s
}

/// Whether two texts hold the same characters.
pub fn same(a: &str, b: &str) -> (r: bool)
    ensures
        r == (a@ == b@),
{
    let x = chars_of(a);
    let y = chars_of(b);
    if x.len() != y.len() {
        return false;
    }
    let mut i: usize = 0;
    while i < x.len()
        invariant
            i <= x.len() == y.len(),
            x@ == a@,
            y@ == b@,
            forall|k: int| 0 <= k < i ==> x@[k] == y@[k],
        decreases x.len() - i,
    {
        if x[i] != y[i] {
            return false;
        }
        i += 1;
    }
    assert(x@ =~= y@);
    true
}


// ---------------------------------------------------------------------------
// Characters
// ---------------------------------------------------------------------------

/// The characters with the Unicode property `White_Space`.
pub open spec fn space(c: char) -> bool {
    ||| '\u{9}' <= c <= '\u{d}'
    ||| c == ' '
    ||| c == '\u{85}'
    ||| c == '\u{a0}'
    ||| c == '\u{1680}'
    ||| '\u{2000}' <= c <= '\u{200a}'
    ||| c == '\u{2028}'
    ||| c == '\u{2029}'
    ||| c == '\u{202f}'
    ||| c == '\u{205f}'
    ||| c == '\u{3000}'
}

pub fn is_space(c: char) -> (r: bool)
    ensures
        r == space(c),
{
    (c >= '\u{9}' && c <= '\u{d}') || c == ' ' || c == '\u{85}' || c == '\u{a0}' || c == '\u{1680}'
        || (c >= '\u{2000}' && c <= '\u{200a}') || c == '\u{2028}' || c == '\u{2029}' || c == '\u{202f}'
        || c == '\u{205f}' || c == '\u{3000}'
}

pub open spec fn digit(c: char) -> bool {
    '0' <= c <= '9'
}

pub open spec fn ascii_upper(c: char) -> bool {
    'A' <= c <= 'Z'
}

pub open spec fn ascii_lower(c: char) -> bool {
    'a' <= c <= 'z'
}

pub open spec fn ascii_alnum(c: char) -> bool {
    digit(c) || ascii_upper(c) || ascii_lower(c)
}

pub fn is_digit(c: char) -> (r: bool)
    ensures
        r == digit(c),
{
    c >= '0' && c <= '9'
}

pub fn is_ascii_lower(c: char) -> (r: bool)
    ensures
        r == ascii_lower(c),
{
    c >= 'a' && c <= 'z'
}

pub fn is_ascii_alnum(c: char) -> (r: bool)
    ensures
        r == ascii_alnum(c),
{
    (c >= '0' && c <= '9') || (c >= 'A' && c <= 'Z') || (c >= 'a' && c <= 'z')
}

/// The lower-case form of an ASCII letter; every other character is itself.
pub open spec fn lower_char(c: char) -> char {
    if ascii_upper(c) {
        (c as u8 + 32) as u8 as char
    } else {
        c
    }
}

pub fn to_lower_char(c: char) -> (r: char)
    ensures
        r == lower_char(c),
{
    if c >= 'A' && c <= 'Z' {
        (c as u8 + 32) as char
    } else {
        c
    }
}

/// The text with every ASCII letter in lower case.
pub open spec fn lower(s: Seq<char>) -> Seq<char> {
    s.map_values(|c: char| lower_char(c))
}

pub fn to_lower(s: &str) -> (r: String)
    ensures
        r@ == lower(s@),
{
    let v = chars_of(s);
    let mut r = String::new();
    let mut i: usize = 0;
    while i < v.len()
        invariant
            i <= v.len(),
            v@ == s@,
            r@ == lower(s@.take(i as int)),
        decreases v.len() - i,
    {
        assert(lower(s@.take(i as int + 1)) =~= lower(s@.take(i as int)).push(lower_char(s@[i as int])));
        r.push(to_lower_char(v[i]));
        i += 1;
    }
    assert(s@.take(s@.len() as int) =~= s@);
    r
}

/// Whether every character of the text satisfies `p`.
pub open spec fn every(s: Seq<char>, p: spec_fn(char) -> bool) -> bool {
    forall|i: int| 0 <= i < s.len() ==> p(#[trigger] s[i])
}

// ---------------------------------------------------------------------------
// Prefixes, suffixes and occurrences
// ---------------------------------------------------------------------------

/// Whether `pat` stands in `s` at position `i`.
pub open spec fn occurs_at(s: Seq<char>, pat: Seq<char>, i: int) -> bool {
    &&& 0 <= i <= s.len() - pat.len()
    &&& s.subrange(i, i + pat.len()) == pat
}

/// Whether `pat` stands anywhere in `s`.
pub open spec fn has(s: Seq<char>, pat: Seq<char>) -> bool {
    exists|i: int| occurs_at(s, pat, i)
}

pub open spec fn starts(s: Seq<char>, pat: Seq<char>) -> bool {
    occurs_at(s, pat, 0)
}

pub open spec fn ends(s: Seq<char>, pat: Seq<char>) -> bool {
    occurs_at(s, pat, s.len() - pat.len())
}

/// The first position at or after `i` where `pat` stands.
pub open spec fn find_from(s: Seq<char>, pat: Seq<char>, i: int) -> Option<int>
    decreases s.len() + 1 - i,
{
    if i < 0 || i + pat.len() > s.len() {
        None
    } else if occurs_at(s, pat, i) {
        Some(i)
    } else {
        find_from(s, pat, i + 1)
    }
}

/// The first position where `pat` stands.
pub open spec fn find(s: Seq<char>, pat: Seq<char>) -> Option<int> {
    find_from(s, pat, 0)
}

/// A found position is the first one, and nothing is found exactly where
/// nothing occurs.
pub proof fn lemma_find_from(s: Seq<char>, pat: Seq<char>, i: int)
    requires
        0 <= i,
    ensures
        find_from(s, pat, i) matches Some(k) ==> i <= k && occurs_at(s, pat, k) && forall|j: int|
            i <= j < k ==> !occurs_at(s, pat, j),
        find_from(s, pat, i) is None ==> forall|j: int| i <= j ==> !occurs_at(s, pat, j),
    decreases s.len() + 1 - i,
{
    if i + pat.len() > s.len() {
    } else if occurs_at(s, pat, i) {
    } else {
        lemma_find_from(s, pat, i + 1);
    }
}

/// `find` answers exactly where `has` holds.
pub proof fn lemma_find_has(s: Seq<char>, pat: Seq<char>)
    ensures
        find(s, pat) is Some <==> has(s, pat),
        find(s, pat) matches Some(k) ==> occurs_at(s, pat, k),
{
    lemma_find_from(s, pat, 0);
}

pub fn occurs(v: &Vec<char>, pat: &Vec<char>, i: usize) -> (r: bool)
    ensures
        r == occurs_at(v@, pat@, i as int),
{
    if pat.len() > v.len() || i > v.len() - pat.len() {
        return false;
    }
    let mut k: usize = 0;
    while k < pat.len()
        invariant
            k <= pat.len() <= v.len(),
            i <= v.len() - pat.len(),
            forall|j: int| 0 <= j < k ==> v@[i + j] == pat@[j],
        decreases pat.len() - k,
    {
        if v[i + k] != pat[k] {
            assert(v@.subrange(i as int, i + pat@.len())[k as int] != pat@[k as int]);
            return false;
        }
        k += 1;
    }
    assert(v@.subrange(i as int, i + pat@.len()) =~= pat@);
    true
}

pub fn position(v: &Vec<char>, pat: &Vec<char>, from: usize) -> (r: Option<usize>)
    ensures
        r is Some <==> find_from(v@, pat@, from as int) is Some,
        r matches Some(k) ==> find_from(v@, pat@, from as int) == Some(k as int) && k + pat.len()
            <= v.len(),
{
    if pat.len() > v.len() {
        return None;
    }
    let last: usize = v.len() - pat.len();
    let mut i: usize = from;
    while i <= last
        invariant
            pat.len() <= v.len(),
            last == v.len() - pat.len(),
            from <= i,
            i <= last + 1 || i == from,
            find_from(v@, pat@, from as int) == find_from(v@, pat@, i as int),
        decreases last + 1 - i,
    {
        if occurs(v, pat, i) {
            return Some(i);
        }
        if i == last {
            assert(find_from(v@, pat@, i as int + 1) is None);
            return None;
        }
        i += 1;
    }
    None
}

pub fn find_index(s: &str, pat: &str) -> (r: Option<usize>)
    ensures
        r is Some <==> find(s@, pat@) is Some,
        r matches Some(k) ==> find(s@, pat@) == Some(k as int) && k + pat@.len() <= s@.len(),
{
    let v = chars_of(s);
    let p = chars_of(pat);
    position(&v, &p, 0)
}

pub fn contains(s: &str, pat: &str) -> (r: bool)
    ensures
        r == has(s@, pat@),
{
    proof {
        lemma_find_has(s@, pat@);
    }
    find_index(s, pat).is_some()
}

pub fn starts_with(s: &str, pat: &str) -> (r: bool)
    ensures
        r == starts(s@, pat@),
{
    let v = chars_of(s);
    let p = chars_of(pat);
    occurs(&v, &p, 0)
}

pub fn ends_with(s: &str, pat: &str) -> (r: bool)
    ensures
        r == ends(s@, pat@),
{
    let v = chars_of(s);
    let p = chars_of(pat);
    if p.len() > v.len() {
        return false;
    }
    occurs(&v, &p, v.len() - p.len())
}

/// What follows the prefix, where the text has it.
pub open spec fn after_prefix(s: Seq<char>, pat: Seq<char>) -> Option<Seq<char>> {
    if starts(s, pat) {
        Some(s.skip(pat.len() as int))
    } else {
        None
    }
}

/// What precedes the suffix, where the text has it.
pub open spec fn before_suffix(s: Seq<char>, pat: Seq<char>) -> Option<Seq<char>> {
    if ends(s, pat) {
        Some(s.take(s.len() - pat.len()))
    } else {
        None
    }
}

/// The characters that an optional text holds.
pub open spec fn opt_view(o: Option<String>) -> Option<Seq<char>> {
    match o {
        Some(s) => Some(s@),
        None => None,
    }
}

/// The characters that an optional borrowed text holds.
pub open spec fn opt_str(o: Option<&str>) -> Option<Seq<char>> {
    match o {
        Some(s) => Some(s@),
        None => None,
    }
}

pub fn strip_prefix(s: &str, pat: &str) -> (r: Option<String>)
    ensures
        opt_view(r) == after_prefix(s@, pat@),
{
    let v = chars_of(s);
    let p = chars_of(pat);
    if occurs(&v, &p, 0) {
        let r = string_of(&v, p.len(), v.len());
        assert(r@ =~= s@.skip(pat@.len() as int));
        Some(r)
    } else {
        None
    }
}

pub fn strip_suffix(s: &str, pat: &str) -> (r: Option<String>)
    ensures
        opt_view(r) == before_suffix(s@, pat@),
{
    let v = chars_of(s);
    let p = chars_of(pat);
    if p.len() <= v.len() && occurs(&v, &p, v.len() - p.len()) {
        let r = string_of(&v, 0, v.len() - p.len());
        assert(r@ =~= s@.take(s@.len() - pat@.len()));
        Some(r)
    } else {
        None
    }
}

/// The first `n` characters, or the whole text where it is shorter.
pub open spec fn head(s: Seq<char>, n: nat) -> Seq<char> {
    if n < s.len() {
        s.take(n as int)
    } else {
        s
    }
}

pub fn take_chars(s: &str, n: usize) -> (r: String)
    ensures
        r@ == head(s@, n as nat),
{
    let v = chars_of(s);
    let k: usize = if n < v.len() {
        n
    } else {
        v.len()
    };
    let r = string_of(&v, 0, k);
    assert(r@ =~= head(s@, n as nat));
    r
}

// ---------------------------------------------------------------------------
// Trimming
// ---------------------------------------------------------------------------

/// The text without the leading characters that satisfy `p`.
pub open spec fn trim_start_by(s: Seq<char>, p: spec_fn(char) -> bool) -> Seq<char>
    decreases s.len(),
{
    if s.len() > 0 && p(s[0]) {
        trim_start_by(s.skip(1), p)
    } else {
        s
    }
}

/// The text without the trailing characters that satisfy `p`.
pub open spec fn trim_end_by(s: Seq<char>, p: spec_fn(char) -> bool) -> Seq<char>
    decreases s.len(),
{
    if s.len() > 0 && p(s.last()) {
        trim_end_by(s.drop_last(), p)
    } else {
        s
    }
}

pub open spec fn trim_by(s: Seq<char>, p: spec_fn(char) -> bool) -> Seq<char> {
    trim_end_by(trim_start_by(s, p), p)
}

pub open spec fn spaces() -> spec_fn(char) -> bool {
    |c: char| space(c)
}

pub open spec fn trimmed_start(s: Seq<char>) -> Seq<char> {
    trim_start_by(s, spaces())
}

pub open spec fn trimmed_end(s: Seq<char>) -> Seq<char> {
    trim_end_by(s, spaces())
}

/// The text without leading and trailing white space.
pub open spec fn trimmed(s: Seq<char>) -> Seq<char> {
    trim_by(s, spaces())
}

/// One way to say which characters a trim removes.
pub enum Trim {
    Space,
    One { c: char },
    Two { a: char, b: char },
}

impl Trim {
    pub open spec fn pred(self) -> spec_fn(char) -> bool {
        match self {
            Trim::Space => spaces(),
            Trim::One { c } => |x: char| x == c,
            Trim::Two { a, b } => |x: char| x == a || x == b,
        }
    }

    pub fn holds(&self, x: char) -> (r: bool)
        ensures
            r == (self.pred())(x),
    {
        match self {
            Trim::Space => is_space(x),
            Trim::One { c } => x == *c,
            Trim::Two { a, b } => x == *a || x == *b,
        }
    }
}

pub fn trim_start_at(v: &Vec<char>, t: &Trim) -> (a: usize)
    ensures
        a <= v.len(),
        v@.skip(a as int) == trim_start_by(v@, t.pred()),
{
    let mut a: usize = 0;
    assert(v@.skip(0) =~= v@);
    while a < v.len() && t.holds(v[a])
        invariant
            a <= v.len(),
            trim_start_by(v@, t.pred()) == trim_start_by(v@.skip(a as int), t.pred()),
        decreases v.len() - a,
    {
        assert(v@.skip(a as int).skip(1) =~= v@.skip(a as int + 1));
        a += 1;
    }
    a
}

pub fn trim_end_at(v: &Vec<char>, from: usize, t: &Trim) -> (b: usize)
    requires
        from <= v.len(),
    ensures
        from <= b <= v.len(),
        v@.subrange(from as int, b as int) == trim_end_by(v@.skip(from as int), t.pred()),
{
    let mut b: usize = v.len();
    assert(v@.subrange(from as int, b as int) =~= v@.skip(from as int));
    while b > from && t.holds(v[b - 1])
        invariant
            from <= b <= v.len(),
            trim_end_by(v@.skip(from as int), t.pred()) == trim_end_by(
                v@.subrange(from as int, b as int),
                t.pred(),
            ),
        decreases b,
    {
        assert(v@.subrange(from as int, b as int).drop_last() =~= v@.subrange(from as int, b - 1));
        b -= 1;
    }
    b
}

pub fn trim_matches(s: &str, t: &Trim) -> (r: String)
    ensures
        r@ == trim_by(s@, t.pred()),
{
    let v = chars_of(s);
    let a = trim_start_at(&v, t);
    let b = trim_end_at(&v, a, t);
    string_of(&v, a, b)
}

pub fn trim_start_matches(s: &str, t: &Trim) -> (r: String)
    ensures
        r@ == trim_start_by(s@, t.pred()),
{
    let v = chars_of(s);
    let a = trim_start_at(&v, t);
    let r = string_of(&v, a, v.len());
    assert(r@ =~= v@.skip(a as int));
    r
}

pub fn trim_end_matches(s: &str, t: &Trim) -> (r: String)
    ensures
        r@ == trim_end_by(s@, t.pred()),
{
    let v = chars_of(s);
    let b = trim_end_at(&v, 0, t);
    assert(v@.skip(0) =~= v@);
    string_of(&v, 0, b)
}

pub fn trim(s: &str) -> (r: String)
    ensures
        r@ == trimmed(s@),
{
    trim_matches(s, &Trim::Space)
}

pub fn trim_start(s: &str) -> (r: String)
    ensures
        r@ == trimmed_start(s@),
{
    trim_start_matches(s, &Trim::Space)
}

pub fn trim_end(s: &str) -> (r: String)
    ensures
        r@ == trimmed_end(s@),
{
    trim_end_matches(s, &Trim::Space)
}

// ---------------------------------------------------------------------------
// Splitting and joining
// ---------------------------------------------------------------------------

/// The texts that a list of strings holds.
pub open spec fn texts(v: Seq<String>) -> Seq<Seq<char>> {
    v.map_values(|s: String| s@)
}

/// What stands before and after the first `pat`.
pub open spec fn cut(s: Seq<char>, pat: Seq<char>) -> Option<(Seq<char>, Seq<char>)> {
    match find(s, pat) {
        Some(i) => Some((s.take(i), s.skip(i + pat.len()))),
        None => None,
    }
}

pub open spec fn pair_view(o: Option<(String, String)>) -> Option<(Seq<char>, Seq<char>)> {
    match o {
        Some((a, b)) => Some((a@, b@)),
        None => None,
    }
}

pub fn split_once(s: &str, pat: &str) -> (r: Option<(String, String)>)
    ensures
        pair_view(r) == cut(s@, pat@),
{
    let v = chars_of(s);
    let p = chars_of(pat);
    match position(&v, &p, 0) {
        Some(i) => {
            let a = string_of(&v, 0, i);
            let b = string_of(&v, i + p.len(), v.len());
            assert(a@ =~= s@.take(i as int));
            assert(b@ =~= s@.skip(i + pat@.len()));
            Some((a, b))
        },
        None => None,
    }
}

/// The position of the first character that satisfies `p`.
pub open spec fn first_by(s: Seq<char>, p: spec_fn(char) -> bool) -> Option<int>
    decreases s.len(),
{
    if s.len() == 0 {
        None
    } else if p(s[0]) {
        Some(0)
    } else {
        match first_by(s.skip(1), p) {
            Some(i) => Some(i + 1),
            None => None,
        }
    }
}

/// What stands before and after the first white space character.
pub open spec fn cut_space(s: Seq<char>) -> Option<(Seq<char>, Seq<char>)> {
    match first_by(s, spaces()) {
        Some(i) => Some((s.take(i), s.skip(i + 1))),
        None => None,
    }
}

pub fn first_space(v: &Vec<char>, from: usize) -> (r: Option<usize>)
    requires
        from <= v.len(),
    ensures
        r is Some <==> first_by(v@.skip(from as int), spaces()) is Some,
        r matches Some(k) ==> from <= k < v.len() && first_by(v@.skip(from as int), spaces())
            == Some(k - from),
{
    let mut i: usize = from;
    while i < v.len()
        invariant
            from <= i <= v.len(),
            first_by(v@.skip(from as int), spaces()) == match first_by(v@.skip(i as int), spaces()) {
                Some(k) => Some(k + i - from),
                None => None,
            },
        decreases v.len() - i,
    {
        if is_space(v[i]) {
            return Some(i);
        }
        assert(v@.skip(i as int).skip(1) =~= v@.skip(i as int + 1));
        i += 1;
    }
    None
}

pub fn split_once_space(s: &str) -> (r: Option<(String, String)>)
    ensures
        pair_view(r) == cut_space(s@),
{
    let v = chars_of(s);
    assert(v@.skip(0) =~= v@);
    match first_space(&v, 0) {
        Some(i) => {
            let a = string_of(&v, 0, i);
            let b = string_of(&v, i + 1, v.len());
            assert(a@ =~= s@.take(i as int));
            assert(b@ =~= s@.skip(i as int + 1));
            Some((a, b))
        },
        None => None,
    }
}

pub proof fn lemma_first_by_bound(s: Seq<char>, p: spec_fn(char) -> bool)
    ensures
        first_by(s, p) matches Some(i) ==> 0 <= i < s.len() && p(s[i]),
        first_by(s, p) matches Some(i) ==> forall|j: int| 0 <= j < i ==> !p(#[trigger] s[j]),
        first_by(s, p) is None ==> forall|j: int| 0 <= j < s.len() ==> !p(#[trigger] s[j]),
    decreases s.len(),
{
    if s.len() > 0 && !p(s[0]) {
        let t = s.skip(1);
        lemma_first_by_bound(t, p);
        assert forall|j: int| 0 < j < s.len() implies s[j] == t[j - 1] by {}
    }
}

/// The pieces of the text between the occurrences of `pat`, read from the
/// left.
pub open spec fn pieces(s: Seq<char>, pat: Seq<char>) -> Seq<Seq<char>>
    decreases s.len(),
{
    match find(s, pat) {
        Some(i) => if pat.len() == 0 || i < 0 || i + pat.len() > s.len() {
            seq![s]
        } else {
            seq![s.take(i)] + pieces(s.skip(i + pat.len()), pat)
        },
        None => seq![s],
    }
}

/// Searching from a later position is searching what is left.
pub proof fn lemma_find_skip(s: Seq<char>, pat: Seq<char>, a: int, i: int)
    requires
        0 <= a <= s.len(),
        0 <= i,
    ensures
        find_from(s, pat, a + i) == match find_from(s.skip(a), pat, i) {
            Some(k) => Some(k + a),
            None => None,
        },
    decreases s.len() + 1 - a - i,
{
    let t = s.skip(a);
    if a + i + pat.len() > s.len() {
    } else {
        assert(s.subrange(a + i, a + i + pat.len()) =~= t.subrange(i, i + pat.len()));
        if !occurs_at(t, pat, i) {
            assert(!occurs_at(s, pat, a + i));
            lemma_find_skip(s, pat, a, i + 1);
        } else {
            assert(occurs_at(s, pat, a + i));
        }
    }
}

pub fn split(s: &str, pat: &str) -> (r: Vec<String>)
    requires
        pat@.len() > 0,
    ensures
        texts(r@) == pieces(s@, pat@),
        r.len() > 0,
{
    let v = chars_of(s);
    let p = chars_of(pat);
    let mut r: Vec<String> = Vec::new();
    let mut a: usize = 0;
    assert(s@.skip(0) =~= s@);
    assert(texts(r@) + pieces(s@, pat@) =~= pieces(s@, pat@));
    loop
        invariant
            v@ == s@,
            p@ == pat@,
            p.len() > 0,
            a <= v.len(),
            texts(r@) + pieces(s@.skip(a as int), pat@) == pieces(s@, pat@),
        decreases v.len() - a,
    {
        let ghost rest = s@.skip(a as int);
        proof {
            lemma_find_skip(s@, pat@, a as int, 0);
            lemma_find_from(rest, pat@, 0);
        }
        match position(&v, &p, a) {
            Some(i) => {
                let piece = string_of(&v, a, i);
                let ghost before = r@;
                r.push(piece);
                proof {
                    assert(piece@ =~= rest.take(i - a));
                    assert(rest.skip(i - a + pat@.len()) =~= s@.skip(i + pat@.len()));
                    assert(texts(r@) =~= texts(before).push(piece@));
                    assert(texts(r@) + pieces(s@.skip(i + pat@.len()), pat@) =~= texts(before) + (seq![
                        piece@,
                    ] + pieces(s@.skip(i + pat@.len()), pat@)));
                }
                a = i + p.len();
            },
            None => {
                let piece = string_of(&v, a, v.len());
                let ghost before = r@;
                r.push(piece);
                proof {
                    assert(piece@ =~= rest);
                    assert(texts(r@) =~= texts(before).push(piece@));
                    assert(texts(r@) =~= texts(before) + seq![piece@]);
                }
                return r;
            },
        }
    }
}

/// The pieces with `sep` between them.
pub open spec fn joined(parts: Seq<Seq<char>>, sep: Seq<char>) -> Seq<char>
    decreases parts.len(),
{
    if parts.len() == 0 {
        Seq::empty()
    } else if parts.len() == 1 {
        parts[0]
    } else {
        joined(parts.drop_last(), sep) + sep + parts.last()
    }
}

/// What is joined starts with its first part.
pub proof fn lemma_joined_start(parts: Seq<Seq<char>>, sep: Seq<char>)
    requires
        parts.len() > 0,
    ensures
        joined(parts, sep).len() >= parts[0].len(),
        joined(parts, sep).take(parts[0].len() as int) == parts[0],
    decreases parts.len(),
{
    if parts.len() > 1 {
        lemma_joined_start(parts.drop_last(), sep);
        assert(joined(parts, sep).take(parts[0].len() as int) =~= joined(parts.drop_last(), sep).take(
            parts[0].len() as int,
        ));
    } else {
        assert(joined(parts, sep).take(parts[0].len() as int) =~= parts[0]);
    }
}

pub fn join(parts: &Vec<String>, sep: &str) -> (r: String)
    ensures
        r@ == joined(texts(parts@), sep@),
{
    let mut r = String::new();
    let mut i: usize = 0;
    while i < parts.len()
        invariant
            i <= parts.len(),
            r@ == joined(texts(parts@).take(i as int), sep@),
        decreases parts.len() - i,
    {
        let ghost all = texts(parts@);
        proof {
            assert(all.take(i as int + 1).drop_last() =~= all.take(i as int));
            assert(all.take(i as int + 1).last() == parts@[i as int]@);
        }
        if i > 0 {
            r.append(sep);
        }
        r.append(parts[i].as_str());
        assert(i == 0 ==> r@ =~= parts@[0]@);
        i += 1;
    }
    assert(texts(parts@).take(parts@.len() as int) =~= texts(parts@));
    r
}

/// The text with every `from`, read from the left, replaced by `to`.
pub open spec fn replaced(s: Seq<char>, from: Seq<char>, to: Seq<char>) -> Seq<char> {
    joined(pieces(s, from), to)
}

pub fn replace(s: &str, from: &str, to: &str) -> (r: String)
    requires
        from@.len() > 0,
    ensures
        r@ == replaced(s@, from@, to@),
{
    let parts = split(s, from);
    join(&parts, to)
}

/// A line without the carriage return that stood before its line break.
pub open spec fn without_cr(s: Seq<char>) -> Seq<char> {
    if s.len() > 0 && s.last() == '\r' {
        s.drop_last()
    } else {
        s
    }
}

/// The position of the first character `c` at or after `i`.
pub open spec fn next_char(s: Seq<char>, c: char, i: int) -> Option<int>
    decreases s.len() - i,
{
    if i < 0 || i >= s.len() {
        None
    } else if s[i] == c {
        Some(i)
    } else {
        next_char(s, c, i + 1)
    }
}

/// The lines from position `a` on. A line ends at a line feed, which may
/// follow a carriage return; the last line need not end so, and nothing
/// follows a final line feed.
pub open spec fn lines_from(s: Seq<char>, a: int) -> Seq<Seq<char>>
    decreases s.len() - a,
{
    if a < 0 || a >= s.len() {
        Seq::empty()
    } else {
        match next_char(s, '\n', a) {
            Some(i) => if i < a || i >= s.len() {
                Seq::empty()
            } else {
                seq![without_cr(s.subrange(a, i))] + lines_from(s, i + 1)
            },
            None => seq![s.skip(a)],
        }
    }
}

/// The lines of the text.
pub open spec fn lines_of(s: Seq<char>) -> Seq<Seq<char>> {
    lines_from(s, 0)
}

pub fn next_newline(v: &Vec<char>, a: usize) -> (r: Option<usize>)
    ensures
        r is Some <==> next_char(v@, '\n', a as int) is Some,
        r matches Some(i) ==> a <= i < v.len() && next_char(v@, '\n', a as int) == Some(i as int),
{
    let mut i: usize = a;
    while i < v.len()
        invariant
            a <= i,
            i <= v.len() || i == a,
            next_char(v@, '\n', a as int) == next_char(v@, '\n', i as int),
        decreases v.len() - i,
    {
        if v[i] == '\n' {
            return Some(i);
        }
        i += 1;
    }
    None
}

pub fn lines(s: &str) -> (r: Vec<String>)
    ensures
        texts(r@) == lines_of(s@),
{
    let v = chars_of(s);
    let mut r: Vec<String> = Vec::new();
    let mut a: usize = 0;
    assert(texts(r@) + lines_from(s@, 0) =~= lines_of(s@));
    while a < v.len()
        invariant
            v@ == s@,
            a <= v.len(),
            texts(r@) + lines_from(s@, a as int) == lines_of(s@),
        decreases v.len() - a,
    {
        let ghost before = r@;
        match next_newline(&v, a) {
            Some(i) => {
                let b: usize = if i > a && v[i - 1] == '\r' {
                    i - 1
                } else {
                    i
                };
                let line = string_of(&v, a, b);
                r.push(line);
                proof {
                    assert(line@ =~= without_cr(s@.subrange(a as int, i as int)));
                    assert(texts(r@) =~= texts(before).push(line@));
                    assert(texts(r@) + lines_from(s@, i + 1) =~= texts(before) + (seq![line@] + lines_from(
                        s@,
                        i + 1,
                    )));
                }
                a = i + 1;
            },
            None => {
                let line = string_of(&v, a, v.len());
                r.push(line);
                proof {
                    assert(line@ =~= s@.skip(a as int));
                    assert(texts(r@) =~= texts(before).push(line@));
                    assert(texts(r@) =~= texts(before) + seq![line@]);
                }
                return r;
            },
        }
    }
    assert(texts(r@) + lines_from(s@, a as int) =~= texts(r@));
    r
}

/// The words of the text: its longest runs without white space.
pub open spec fn words_of(s: Seq<char>) -> Seq<Seq<char>>
    decreases s.len(),
{
    if s.len() == 0 {
        Seq::empty()
    } else if space(s[0]) {
        words_of(s.skip(1))
    } else {
        match first_by(s, spaces()) {
            Some(i) => if i < 0 || i >= s.len() {
                Seq::empty()
            } else {
                seq![s.take(i)] + words_of(s.skip(i + 1))
            },
            None => seq![s],
        }
    }
}

pub fn words(s: &str) -> (r: Vec<String>)
    ensures
        texts(r@) == words_of(s@),
{
    let v = chars_of(s);
    let mut r: Vec<String> = Vec::new();
    let mut a: usize = 0;
    assert(s@.skip(0) =~= s@);
    assert(texts(r@) + words_of(s@) =~= words_of(s@));
    while a < v.len()
        invariant
            v@ == s@,
            a <= v.len(),
            texts(r@) + words_of(s@.skip(a as int)) == words_of(s@),
        decreases v.len() - a,
    {
        let ghost rest = s@.skip(a as int);
        if is_space(v[a]) {
            assert(rest.skip(1) =~= s@.skip(a as int + 1));
            a += 1;
        } else {
            let ghost before = r@;
            proof {
                lemma_first_by_bound(rest, spaces());
            }
            match first_space(&v, a) {
                Some(i) => {
                    let word = string_of(&v, a, i);
                    r.push(word);
                    proof {
                        assert(word@ =~= rest.take(i - a));
                        assert(rest.skip(i - a + 1) =~= s@.skip(i as int + 1));
                        assert(texts(r@) =~= texts(before).push(word@));
                        assert(texts(r@) + words_of(s@.skip(i as int + 1)) =~= texts(before) + (seq![word@]
                            + words_of(s@.skip(i as int + 1))));
                    }
                    a = i + 1;
                },
                None => {
                    let word = string_of(&v, a, v.len());
                    r.push(word);
                    proof {
                        assert(word@ =~= rest);
                        assert(texts(r@) =~= texts(before).push(word@));
                        assert(texts(r@) =~= texts(before) + seq![word@]);
                    }
                    return r;
                },
            }
        }
    }
    assert(texts(r@) + words_of(s@.skip(a as int)) =~= texts(r@));
    r
}

// ---------------------------------------------------------------------------
// Numbers
// ---------------------------------------------------------------------------

/// The character for a digit.
pub open spec fn digit_char(d: nat) -> char {
    (48 + d) as u8 as char
}

/// A number in decimal notation, without leading zeros.
pub open spec fn decimal(n: nat) -> Seq<char>
    decreases n,
{
    if n < 10 {
        seq![digit_char(n)]
    } else {
        decimal(n / 10).push(digit_char(n % 10))
    }
}

/// A number in decimal notation, with a minus sign where it is negative.
pub open spec fn signed_decimal(n: int) -> Seq<char> {
    if n < 0 {
        seq!['-'] + decimal((-n) as nat)
    } else {
        decimal(n as nat)
    }
}

pub fn push_decimal(out: &mut String, n: u64)
    ensures
        final(out)@ == old(out)@ + decimal(n as nat),
    decreases n,
{
    let d: u8 = 48 + (n % 10) as u8;
    if n >= 10 {
        push_decimal(out, n / 10);
    }
    let ghost mid = out@;
    out.push(d as char);
    assert(digit_char((n % 10) as nat) == d as char);
    assert(n < 10 ==> out@ =~= old(out)@ + seq![d as char]);
    assert(n >= 10 ==> out@ =~= old(out)@ + decimal(n as nat / 10).push(d as char));
}

pub fn u64_text(n: u64) -> (r: String)
    ensures
        r@ == decimal(n as nat),
{
    let mut r = String::new();
    push_decimal(&mut r, n);
    assert(r@ =~= decimal(n as nat));
    r
}

pub fn usize_text(n: usize) -> (r: String)
    ensures
        r@ == decimal(n as nat),
{
    u64_text(n as u64)
}

pub fn i64_text(n: i64) -> (r: String)
    ensures
        r@ == signed_decimal(n as int),
{
    if n < 0 {
        let magnitude: u64 = (-(n + 1)) as u64 + 1;
        let mut r = String::new();
        r.push('-');
        push_decimal(&mut r, magnitude);
        assert(r@ =~= seq!['-'] + decimal(magnitude as nat));
        r
    } else {
        u64_text(n as u64)
    }
}

/// The number that a sequence of digits denotes.
pub open spec fn value_of(s: Seq<char>) -> nat
    decreases s.len(),
{
    if s.len() == 0 {
        0
    } else {
        value_of(s.drop_last()) * 10 + (s.last() as nat - 48) as nat
    }
}

/// The number that a text denotes: at least one digit and nothing else.
pub open spec fn parsed_digits(s: Seq<char>) -> Option<nat> {
    if s.len() > 0 && forall|i: int| 0 <= i < s.len() ==> digit(#[trigger] s[i]) {
        Some(value_of(s))
    } else {
        None
    }
}

/// A number up to `max`, written in digits that a plus sign may precede.
pub open spec fn parsed_unsigned(s: Seq<char>, max: nat) -> Option<nat> {
    let digits = if s.len() > 0 && s[0] == '+' {
        s.skip(1)
    } else {
        s
    };
    match parsed_digits(digits) {
        Some(n) => if n <= max {
            Some(n)
        } else {
            None
        },
        None => None,
    }
}

/// A number between `-max - 1` and `max`, written in digits that a sign may
/// precede.
pub open spec fn parsed_signed(s: Seq<char>, max: nat) -> Option<int> {
    if s.len() > 0 && s[0] == '-' {
        match parsed_digits(s.skip(1)) {
            Some(n) => if n <= max + 1 {
                Some(-n)
            } else {
                None
            },
            None => None,
        }
    } else {
        match parsed_unsigned(s, max) {
            Some(n) => Some(n as int),
            None => None,
        }
    }
}

/// A longer number of digits is no smaller.
pub proof fn lemma_value_grows(s: Seq<char>, i: int)
    requires
        0 <= i <= s.len(),
    ensures
        value_of(s.take(i)) <= value_of(s),
    decreases s.len() - i,
{
    if i < s.len() {
        assert(s.take(i + 1).drop_last() =~= s.take(i));
        lemma_value_grows(s, i + 1);
    } else {
        assert(s.take(i) =~= s);
    }
}

fn parse_digits(v: &Vec<char>, from: usize, max: u64) -> (r: Option<u64>)
    requires
        from <= v.len(),
    ensures
        r is Some <==> (parsed_digits(v@.skip(from as int)) matches Some(n) && n <= max),
        r matches Some(n) ==> parsed_digits(v@.skip(from as int)) == Some(n as nat) && n <= max,
{
    let ghost s = v@.skip(from as int);
    if from == v.len() {
        return None;
    }
    let mut n: u64 = 0;
    let mut i: usize = from;
    assert(s.take(0).len() == 0);
    while i < v.len()
        invariant
            from <= i <= v.len(),
            from < v.len(),
            s == v@.skip(from as int),
            forall|k: int| 0 <= k < i - from ==> digit(#[trigger] s[k]),
            n == value_of(s.take(i - from)),
            n <= max,
        decreases v.len() - i,
    {
        let c = v[i];
        assert(s[i - from] == c);
        if !is_digit(c) {
            return None;
        }
        let d: u64 = (c as u8 - 48) as u64;
        proof {
            assert(s.take(i - from + 1).drop_last() =~= s.take(i - from));
            assert(s.take(i - from + 1).last() == c);
            assert(value_of(s.take(i - from + 1)) == n * 10 + d);
            lemma_value_grows(s, i - from + 1);
        }
        let wide: u128 = (n as u128) * 10 + d as u128;
        if wide > max as u128 {
            return None;
        }
        n = wide as u64;
        i += 1;
    }
    assert(s.take(v.len() - from) =~= s);
    Some(n)
}

pub fn parse_unsigned(s: &str, max: u64) -> (r: Option<u64>)
    ensures
        r is Some <==> parsed_unsigned(s@, max as nat) is Some,
        r matches Some(n) ==> parsed_unsigned(s@, max as nat) == Some(n as nat),
{
    let v = chars_of(s);
    assert(v@.skip(0) =~= v@);
    if v.len() > 0 && v[0] == '+' {
        parse_digits(&v, 1, max)
    } else {
        parse_digits(&v, 0, max)
    }
}

pub fn parse_u64(s: &str) -> (r: Option<u64>)
    ensures
        r is Some <==> parsed_unsigned(s@, u64::MAX as nat) is Some,
        r matches Some(n) ==> parsed_unsigned(s@, u64::MAX as nat) == Some(n as nat),
{
    parse_unsigned(s, u64::MAX)
}

pub fn parse_i64(s: &str) -> (r: Option<i64>)
    ensures
        r is Some <==> parsed_signed(s@, i64::MAX as nat) is Some,
        r matches Some(n) ==> parsed_signed(s@, i64::MAX as nat) == Some(n as int),
{
    let v = chars_of(s);
    if v.len() > 0 && v[0] == '-' {
        match parse_digits(&v, 1, i64::MAX as u64 + 1) {
            Some(n) => if n == i64::MAX as u64 + 1 {
                Some(i64::MIN)
            } else {
                Some(-(n as i64))
            },
            None => None,
        }
    } else {
        match parse_unsigned(s, i64::MAX as u64) {
            Some(n) => Some(n as i64),
            None => None,
        }
    }
}

/// Whether the list holds the text.
pub fn list_has(list: &Vec<String>, s: &str) -> (r: bool)
    ensures
        r == texts(list@).contains(s@),
{
    let mut i: usize = 0;
    while i < list.len()
        invariant
            i <= list.len(),
            forall|k: int| 0 <= k < i ==> #[trigger] texts(list@)[k] != s@,
        decreases list.len() - i,
    {
        if same(list[i].as_str(), s) {
            assert(texts(list@)[i as int] == s@);
            return true;
        }
        i += 1;
    }
    false
}

/// `n` spaces.
pub open spec fn blanks(n: nat) -> Seq<char> {
    Seq::new(n, |i: int| ' ')
}

/// The text, filled up with spaces on the right to `width` characters.
pub open spec fn padded(s: Seq<char>, width: nat) -> Seq<char> {
    if s.len() < width {
        s + blanks((width - s.len()) as nat)
    } else {
        s
    }
}

pub fn pad_right(s: &str, width: usize) -> (r: String)
    ensures
        r@ == padded(s@, width as nat),
{
    let mut r = s.to_owned();
    let mut n: usize = s.unicode_len();
    assert(r@ =~= s@ + blanks(0));
    while n < width
        invariant
            s@.len() <= n,
            n <= width || n == s@.len(),
            r@ == s@ + blanks((n - s@.len()) as nat),
        decreases width - n,
    {
        r.push(' ');
        assert(r@ =~= s@ + blanks((n + 1 - s@.len()) as nat));
        n += 1;
    }
    assert(s@.len() >= width ==> r@ =~= s@);
    r
}

/// A number is read back from its decimal notation.
pub proof fn law_decimal_is_read_back(n: nat)
    ensures
        parsed_digits(decimal(n)) == Some(n),
    decreases n,
{
    let s = decimal(n);
    if n < 10 {
        assert(s.drop_last().len() == 0);
        assert(value_of(s.drop_last()) == 0);
        assert(s[0] as nat == 48 + n);
    } else {
        law_decimal_is_read_back(n / 10);
        let front = decimal(n / 10);
        assert(s.drop_last() =~= front);
        assert(s.last() as nat == 48 + n % 10);
        assert forall|i: int| 0 <= i < s.len() implies digit(#[trigger] s[i]) by {
            if i < front.len() {
                assert(digit(front[i]));
            }
        }
    }
}

// ---------------------------------------------------------------------------
// Order
// ---------------------------------------------------------------------------

/// Whether `a` comes no later than `b` in the order of their characters.
pub open spec fn no_later(a: Seq<char>, b: Seq<char>) -> bool
    decreases a.len(),
{
    if a.len() == 0 {
        true
    } else if b.len() == 0 {
        false
    } else if a[0] != b[0] {
        a[0] < b[0]
    } else {
        no_later(a.skip(1), b.skip(1))
    }
}

pub fn comes_no_later(a: &str, b: &str) -> (r: bool)
    ensures
        r == no_later(a@, b@),
{
    let x = chars_of(a);
    let y = chars_of(b);
    let mut i: usize = 0;
    assert(a@.skip(0) =~= a@);
    assert(b@.skip(0) =~= b@);
    while i < x.len() && i < y.len()
        invariant
            x@ == a@,
            y@ == b@,
            i <= x.len(),
            i <= y.len(),
            no_later(a@, b@) == no_later(a@.skip(i as int), b@.skip(i as int)),
        decreases x.len() - i,
    {
        if x[i] != y[i] {
            return x[i] < y[i];
        }
        assert(a@.skip(i as int).skip(1) =~= a@.skip(i as int + 1));
        assert(b@.skip(i as int).skip(1) =~= b@.skip(i as int + 1));
        i += 1;
    }
    i == x.len()
}

/// The list with `x` put behind everything that comes no later.
pub open spec fn put_in_order(list: Seq<Seq<char>>, x: Seq<char>) -> Seq<Seq<char>>
    decreases list.len(),
{
    if list.len() == 0 {
        seq![x]
    } else if no_later(list.last(), x) {
        list.push(x)
    } else {
        put_in_order(list.drop_last(), x).push(list.last())
    }
}

/// The list in the order of its texts; equal ones keep their order.
pub open spec fn in_order(list: Seq<Seq<char>>) -> Seq<Seq<char>>
    decreases list.len(),
{
    if list.len() == 0 {
        Seq::empty()
    } else {
        put_in_order(in_order(list.drop_last()), list.last())
    }
}

fn put_text(list: &mut Vec<String>, x: String)
    ensures
        texts(final(list)@) == put_in_order(texts(old(list)@), x@),
    decreases old(list)@.len(),
{
    let ghost all = texts(list@);
    let n: usize = list.len();
    if n == 0 {
        list.push(x);
        assert(texts(list@) =~= seq![x@]);
        return;
    }
    assert(all.last() == list@[n - 1]@);
    if comes_no_later(list[n - 1].as_str(), x.as_str()) {
        list.push(x);
        assert(texts(list@) =~= all.push(x@));
    } else {
        let last = list.pop();
        assert(texts(list@) =~= all.drop_last());
        put_text(list, x);
        let ghost inner = texts(list@);
        match last {
            Some(s) => {
                list.push(s);
                assert(texts(list@) =~= inner.push(all.last()));
            },
            None => {},
        }
    }
}

/// Sorts a list of texts.
pub fn sort_texts(list: &Vec<String>) -> (r: Vec<String>)
    ensures
        texts(r@) == in_order(texts(list@)),
{
    let mut r: Vec<String> = Vec::new();
    let mut i: usize = 0;
    assert(texts(r@) =~= Seq::empty());
    while i < list.len()
        invariant
            i <= list.len(),
            texts(r@) == in_order(texts(list@).take(i as int)),
        decreases list.len() - i,
    {
        let ghost all = texts(list@);
        assert(all.take(i as int + 1).drop_last() =~= all.take(i as int));
        assert(all.take(i as int + 1).last() == list@[i as int]@);
        put_text(&mut r, list[i].clone());
        i += 1;
    }
    assert(texts(list@).take(list@.len() as int) =~= texts(list@));
    r
}

/// Of two texts, one comes no later than the other.
pub proof fn lemma_no_later_total(a: Seq<char>, b: Seq<char>)
    ensures
        no_later(a, b) || no_later(b, a),
    decreases a.len(),
{
    if a.len() > 0 && b.len() > 0 && a[0] == b[0] {
        lemma_no_later_total(a.skip(1), b.skip(1));
    }
}

pub proof fn lemma_no_later_transitive(a: Seq<char>, b: Seq<char>, c: Seq<char>)
    requires
        no_later(a, b),
        no_later(b, c),
    ensures
        no_later(a, c),
    decreases a.len(),
{
    if a.len() > 0 && b.len() > 0 && c.len() > 0 && a[0] == b[0] && b[0] == c[0] {
        lemma_no_later_transitive(a.skip(1), b.skip(1), c.skip(1));
    }
}

pub open spec fn ordered(list: Seq<Seq<char>>) -> bool {
    forall|i: int, j: int| 0 <= i < j < list.len() ==> no_later(#[trigger] list[i], #[trigger] list[j])
}

proof fn lemma_put_in_order(list: Seq<Seq<char>>, x: Seq<char>)
    requires
        ordered(list),
    ensures
        ordered(put_in_order(list, x)),
        put_in_order(list, x).to_multiset() == list.to_multiset().insert(x),
        put_in_order(list, x).len() == list.len() + 1,
        forall|y: Seq<char>|
            (forall|k: int| 0 <= k < list.len() ==> no_later(#[trigger] list[k], y)) && no_later(x, y)
                ==> forall|k: int|
                0 <= k < put_in_order(list, x).len() ==> no_later(#[trigger] put_in_order(list, x)[k], y),
    decreases list.len(),
{
    broadcast use vstd::seq_lib::group_to_multiset_ensures;

    let r = put_in_order(list, x);
    if list.len() == 0 {
        assert(r =~= list.push(x));
    } else if no_later(list.last(), x) {
        assert forall|i: int, j: int| 0 <= i < j < r.len() implies no_later(
            #[trigger] r[i],
            #[trigger] r[j],
        ) by {
            if j == list.len() && i < list.len() - 1 {
                lemma_no_later_transitive(list[i], list[list.len() - 1], x);
            }
        }
    } else {
        let rest = list.drop_last();
        lemma_no_later_total(list.last(), x);
        lemma_put_in_order(rest, x);
        let inner = put_in_order(rest, x);
        assert forall|k: int| 0 <= k < inner.len() implies no_later(#[trigger] inner[k], list.last()) by {
            assert forall|m: int| 0 <= m < rest.len() implies no_later(#[trigger] rest[m], list.last()) by {
                assert(no_later(list[m], list[list.len() - 1]));
            }
        }
        assert forall|i: int, j: int| 0 <= i < j < r.len() implies no_later(
            #[trigger] r[i],
            #[trigger] r[j],
        ) by {
            if j < inner.len() {
                assert(no_later(inner[i], inner[j]));
            } else {
                assert(no_later(inner[i], list.last()));
            }
        }
        assert(list =~= rest.push(list.last()));
        assert(r.to_multiset() =~= list.to_multiset().insert(x));
        assert forall|y: Seq<char>|
            (forall|k: int| 0 <= k < list.len() ==> no_later(#[trigger] list[k], y)) && no_later(x, y) implies forall|
            k: int,
        |
            0 <= k < r.len() ==> no_later(#[trigger] r[k], y) by {
            assert forall|m: int| 0 <= m < rest.len() implies no_later(#[trigger] rest[m], y) by {
                assert(no_later(list[m], y));
            }
            assert(no_later(list[list.len() - 1], y));
            assert forall|k: int| 0 <= k < r.len() implies no_later(#[trigger] r[k], y) by {
                if k < inner.len() {
                    assert(no_later(inner[k], y));
                }
            }
        }
    }
}

/// Sorting puts a list in order and keeps each of its texts as often as it
/// stood there.
pub proof fn law_sorting_orders_and_keeps_the_texts(list: Seq<Seq<char>>)
    ensures
        ordered(in_order(list)),
        in_order(list).to_multiset() == list.to_multiset(),
    decreases list.len(),
{
    broadcast use vstd::seq_lib::group_to_multiset_ensures;

    if list.len() > 0 {
        law_sorting_orders_and_keeps_the_texts(list.drop_last());
        lemma_put_in_order(in_order(list.drop_last()), list.last());
        assert(list =~= list.drop_last().push(list.last()));
    } else {
        assert(in_order(list) =~= list);
    }
}

pub open spec fn nonempty(list: Seq<Seq<char>>) -> Seq<Seq<char>> {
    list.filter(|p: Seq<char>| p.len() > 0)
}

/// The texts of the list that are not empty.
pub fn keep_nonempty(list: &Vec<String>) -> (r: Vec<String>)
    ensures
        texts(r@) == nonempty(texts(list@)),
{
    let ghost all = texts(list@);
    let ghost keep = |p: Seq<char>| p.len() > 0;
    let mut r: Vec<String> = Vec::new();
    let mut i: usize = 0;
    assert(all.take(0).filter(keep) =~= Seq::<Seq<char>>::empty()) by {
        reveal(Seq::filter);
    }
    assert(texts(r@) =~= Seq::<Seq<char>>::empty());
    while i < list.len()
        invariant
            i <= list.len(),
            all == texts(list@),
            keep == (|p: Seq<char>| p.len() > 0),
            texts(r@) == all.take(i as int).filter(keep),
        decreases list.len() - i,
    {
        let ghost before = r@;
        proof {
            assert(all.take(i as int + 1).drop_last() =~= all.take(i as int));
            assert(all.take(i as int + 1).last() == list@[i as int]@);
            reveal(Seq::filter);
        }
        if !list[i].as_str().is_empty() {
            r.push(list[i].clone());
            assert(texts(r@) =~= texts(before).push(list@[i as int]@));
        }
        i += 1;
    }
    assert(all.take(all.len() as int) =~= all);
    r
}

// ---------------------------------------------------------------------------
// Letter case beyond ASCII, and shortening
// ---------------------------------------------------------------------------

/// The lower-case form of a text by the rules of Unicode.
pub uninterp spec fn lowercased(s: Seq<char>) -> Seq<char>;

/// `str::to_lowercase`: the result depends on the text alone, and on ASCII
/// letters it is the ASCII one.
#[verifier::external_body]
pub(crate) fn lowercase(s: &str) -> (r: String)
    ensures
        r@ == lowercased(s@),
        (forall|i: int| 0 <= i < s@.len() ==> (#[trigger] s@[i]) < '\u{80}') ==> r@ == lower(s@),
{
    s.to_lowercase()
}

pub open spec fn upper_char(c: char) -> char {
    if ascii_lower(c) {
        ((c as u32 - 32) as u32) as char
    } else {
        c
    }
}

/// A text with its ASCII letters in upper case.
pub open spec fn upper(s: Seq<char>) -> Seq<char> {
    s.map_values(|c: char| upper_char(c))
}

/// What `str::to_uppercase` makes of a text.
pub uninterp spec fn uppercased(s: Seq<char>) -> Seq<char>;

/// `str::to_uppercase`: the result depends on the text alone, and on ASCII
/// letters it is the ASCII one.
#[verifier::external_body]
pub(crate) fn uppercase(s: &str) -> (r: String)
    ensures
        r@ == uppercased(s@),
        (forall|i: int| 0 <= i < s@.len() ==> (#[trigger] s@[i]) < '\u{80}') ==> r@ == upper(s@),
{
    s.to_uppercase()
}

/// A text without the white space around it, cut after `limit` characters
/// with an ellipsis.
pub open spec fn shortened(s: Seq<char>, limit: nat) -> Seq<char> {
    let v = trimmed(s);
    if v.len() <= limit {
        v
    } else {
        v.take(limit as int) + "…"@
    }
}

pub fn shorten(s: &str, limit: usize) -> (r: String)
    ensures
        r@ == shortened(s@, limit as nat),
{
    let v = trim(s);
    if v.as_str().unicode_len() <= limit {
        v
    } else {
        take_chars(v.as_str(), limit).concat("…")
    }
}

/// A text, cut after `limit` characters with a note that it was.
pub open spec fn truncated(s: Seq<char>, limit: nat) -> Seq<char> {
    if s.len() <= limit {
        s
    } else {
        s.take(limit as int) + "\n...[truncated]"@
    }
}

pub fn truncate(s: &str, limit: usize) -> (r: String)
    ensures
        r@ == truncated(s@, limit as nat),
{
    if s.unicode_len() <= limit {
        s.to_owned()
    } else {
        take_chars(s, limit).concat("\n...[truncated]")
    }
}

// ---------------------------------------------------------------------------
// Lists of lines
// ---------------------------------------------------------------------------

/// The list with one more line, where the condition holds.
pub open spec fn added(v: Seq<Seq<char>>, b: bool, s: Seq<char>) -> Seq<Seq<char>> {
    if b {
        v.push(s)
    } else {
        v
    }
}

pub fn add_if(v: &mut Vec<String>, b: bool, s: &str)
    ensures
        texts(final(v)@) == added(texts(old(v)@), b, s@),
{
    if b {
        let ghost before = texts(v@);
        v.push(s.to_owned());
        assert(texts(v@) =~= before.push(s@));
    }
}

pub fn add_line(v: &mut Vec<String>, s: String)
    ensures
        texts(final(v)@) == texts(old(v)@).push(s@),
{
    let ghost before = texts(v@);
    v.push(s);
    assert(texts(v@) =~= before.push(s@));
}

/// Puts lines behind others.
pub fn append_lines(lines: &mut Vec<String>, more: &Vec<String>)
    ensures
        texts(final(lines)@) == texts(old(lines)@) + texts(more@),
{
    let ghost before = texts(lines@);
    let ghost all = texts(more@);
    let mut i: usize = 0;
    assert(before + all.take(0) =~= before);
    while i < more.len()
        invariant
            i <= more@.len(),
            all == texts(more@),
            texts(lines@) == before + all.take(i as int),
        decreases more@.len() - i,
    {
        add_line(lines, more[i].clone());
        assert(before + all.take(i + 1) =~= (before + all.take(i as int)).push(more@[i as int]@));
        i += 1;
    }
    assert(all.take(all.len() as int) =~= all);
}

/// Each text behind the same label.
pub open spec fn labelled(label: Seq<char>, list: Seq<Seq<char>>) -> Seq<Seq<char>> {
    list.map_values(|s: Seq<char>| label + s)
}

pub fn label_each(label: &str, list: &Vec<String>) -> (r: Vec<String>)
    ensures
        texts(r@) == labelled(label@, texts(list@)),
{
    let mut r: Vec<String> = Vec::new();
    let mut i: usize = 0;
    while i < list.len()
        invariant
            i <= list@.len(),
            r@.len() == i,
            forall|k: int| 0 <= k < i ==> (#[trigger] r@[k])@ == label@ + list@[k]@,
        decreases list@.len() - i,
    {
        r.push(label.to_owned().concat(list[i].as_str()));
        i += 1;
    }
    assert(texts(r@) =~= labelled(label@, texts(list@)));
    r
}

pub fn no_lines() -> (r: Vec<String>)
    ensures
        texts(r@) == Seq::<Seq<char>>::empty(),
{
    let r: Vec<String> = Vec::new();
    assert(texts(r@) =~= Seq::<Seq<char>>::empty());
    r
}

pub fn one_line(a: String) -> (r: Vec<String>)
    ensures
        texts(r@) == seq![a@],
{
    let mut r: Vec<String> = Vec::new();
    r.push(a);
    assert(texts(r@) =~= seq![a@]);
    r
}

pub fn two_lines(a: String, b: String) -> (r: Vec<String>)
    ensures
        texts(r@) == seq![a@, b@],
{
    let mut r: Vec<String> = Vec::new();
    r.push(a);
    r.push(b);
    assert(texts(r@) =~= seq![a@, b@]);
    r
}

pub fn empty_text() -> (r: String)
    ensures
        r@ == Seq::<char>::empty(),
{
    let r = String::new();
    assert(r@ =~= Seq::<char>::empty());
    r
}

/// `true` or `false`.
pub open spec fn truth_word(b: bool) -> Seq<char> {
    if b {
        "true"@
    } else {
        "false"@
    }
}

pub fn truth_text(b: bool) -> (r: &'static str)
    ensures
        r@ == truth_word(b),
{
    if b {
        "true"
    } else {
        "false"
    }
}

// ---------------------------------------------------------------------------
// Replacing single characters
// ---------------------------------------------------------------------------

/// The text with every `c` replaced, character by character.
pub open spec fn subst(s: Seq<char>, c: char, to: Seq<char>) -> Seq<char>
    decreases s.len(),
{
    if s.len() == 0 {
        Seq::empty()
    } else {
        (if s[0] == c {
            to
        } else {
            seq![s[0]]
        }) + subst(s.skip(1), c, to)
    }
}

/// What is joined starts with the first part and the separator behind it.
pub proof fn lemma_joined_front(a: Seq<char>, rest: Seq<Seq<char>>, sep: Seq<char>)
    requires
        rest.len() > 0,
    ensures
        joined(seq![a] + rest, sep) == a + sep + joined(rest, sep),
    decreases rest.len(),
{
    let all = seq![a] + rest;
    assert(all.drop_last() =~= seq![a] + rest.drop_last());
    if rest.len() == 1 {
        assert(all.drop_last() =~= seq![a]);
        assert(joined(all.drop_last(), sep) == a);
        assert(joined(all, sep) =~= a + sep + rest[0]);
    } else {
        lemma_joined_front(a, rest.drop_last(), sep);
        assert(joined(all, sep) =~= a + sep + joined(rest, sep));
    }
}

/// Searching one character finds its first place.
pub proof fn lemma_find_char(s: Seq<char>, c: char)
    ensures
        match find(s, seq![c]) {
            Some(k) => 0 <= k < s.len() && s[k] == c && forall|j: int| 0 <= j < k ==> (#[trigger] s[j]) != c,
            None => forall|j: int| 0 <= j < s.len() ==> (#[trigger] s[j]) != c,
        },
{
    let pat = seq![c];
    lemma_find_from(s, pat, 0);
    match find(s, pat) {
        Some(k) => {
            assert(s.subrange(k, k + 1)[0] == s[k]);
            assert forall|j: int| 0 <= j < k implies (#[trigger] s[j]) != c by {
                if s[j] == c {
                    assert(s.subrange(j, j + 1) =~= pat);
                    assert(occurs_at(s, pat, j));
                }
            }
        },
        None => {
            assert forall|j: int| 0 <= j < s.len() implies (#[trigger] s[j]) != c by {
                if s[j] == c {
                    assert(s.subrange(j, j + 1) =~= pat);
                    assert(occurs_at(s, pat, j));
                }
            }
        },
    }
}

/// Replacing a single character goes character by character.
pub proof fn lemma_replaced_char(s: Seq<char>, c: char, to: Seq<char>)
    ensures
        replaced(s, seq![c], to) == subst(s, c, to),
    decreases s.len(),
{
    let pat = seq![c];
    lemma_find_char(s, c);
    if s.len() == 0 {
        assert(pieces(s, pat) =~= seq![s]);
        assert(joined(seq![s], to) == s);
    } else {
        let rest = s.skip(1);
        lemma_replaced_char(rest, c, to);
        lemma_find_char(rest, c);
        if s[0] == c {
            assert(find(s, pat) == Some(0int)) by {
                let k = find(s, pat)->0;
                if k > 0 {
                    assert(s[0] != c);
                }
            }
            assert(s.skip(0int + 1) =~= rest);
            assert(pieces(s, pat) =~= seq![s.take(0)] + pieces(rest, pat));
            lemma_pieces_nonempty(rest, pat);
            lemma_joined_front(s.take(0), pieces(rest, pat), to);
            assert(s.take(0) + to + joined(pieces(rest, pat), to) =~= to + subst(rest, c, to));
        } else {
            match find(s, pat) {
                None => {
                    assert(find(rest, pat) is None) by {
                        if find(rest, pat) is Some {
                            let k = find(rest, pat)->0;
                            assert(rest[k] == s[k + 1]);
                        }
                    }
                    assert(pieces(s, pat) =~= seq![s]);
                    assert(pieces(rest, pat) =~= seq![rest]);
                    assert(joined(seq![s], to) == s);
                    assert(joined(seq![rest], to) == rest);
                    assert(seq![s[0]] + rest =~= s);
                },
                Some(k) => {
                    assert(k > 0);
                    assert(rest[k - 1] == s[k]);
                    assert(find(rest, pat) == Some(k - 1)) by {
                        let m = find(rest, pat)->0;
                        if m < k - 1 {
                            assert(rest[m] == s[m + 1]);
                        } else if m > k - 1 {
                            assert(rest[k - 1] != c);
                        }
                    }
                    let tail = pieces(s.skip(k + 1), pat);
                    assert(rest.skip(k - 1 + 1) =~= s.skip(k + 1));
                    lemma_pieces_nonempty(s.skip(k + 1), pat);
                    lemma_joined_front(s.take(k), tail, to);
                    lemma_joined_front(rest.take(k - 1), tail, to);
                    assert(s.take(k) =~= seq![s[0]] + rest.take(k - 1));
                    assert(s.take(k) + to + joined(tail, to) =~= seq![s[0]] + (rest.take(k - 1) + to + joined(
                        tail,
                        to,
                    )));
                },
            }
        }
    }
}

proof fn lemma_pieces_nonempty(s: Seq<char>, pat: Seq<char>)
    ensures
        pieces(s, pat).len() > 0,
{
}

/// Whether the character stands in none of the parts.
pub open spec fn free_of(parts: Seq<Seq<char>>, c: char) -> bool {
    forall|k: int, j: int| 0 <= k < parts.len() && 0 <= j < parts[k].len() ==> (#[trigger] parts[k][j]) != c
}

/// The pieces between the places of a character do not hold it, and are made
/// of the text's own characters.
pub proof fn lemma_pieces_chars(s: Seq<char>, c: char)
    ensures
        free_of(pieces(s, seq![c]), c),
        forall|k: int, j: int|
            0 <= k < pieces(s, seq![c]).len() && 0 <= j < pieces(s, seq![c])[k].len() ==> s.contains(
                #[trigger] pieces(s, seq![c])[k][j],
            ),
    decreases s.len(),
{
    let pat = seq![c];
    lemma_find_char(s, c);
    let all = pieces(s, pat);
    match find(s, pat) {
        Some(i) => {
            let rest = s.skip(i + 1);
            lemma_pieces_chars(rest, c);
            assert(s.skip(i + pat.len()) =~= rest);
            assert(all =~= seq![s.take(i)] + pieces(rest, pat));
            assert forall|k: int, j: int| 0 <= k < all.len() && 0 <= j < all[k].len() implies (
            #[trigger] all[k][j]) != c && s.contains(all[k][j]) by {
                if k == 0 {
                    assert(all[k][j] == s[j]);
                } else {
                    assert(all[k] == pieces(rest, pat)[k - 1]);
                    assert(pieces(rest, pat)[k - 1][j] != c);
                    assert(rest.contains(pieces(rest, pat)[k - 1][j]));
                    let x = choose|x: int| 0 <= x < rest.len() && rest[x] == all[k][j];
                    assert(s[x + i + 1] == all[k][j]);
                }
            }
        },
        None => {
            assert(all =~= seq![s]);
            assert forall|k: int, j: int| 0 <= k < all.len() && 0 <= j < all[k].len() implies (
            #[trigger] all[k][j]) != c && s.contains(all[k][j]) by {
                assert(all[k][j] == s[j]);
            }
        },
    }
}

/// What was joined by a character comes apart into the same parts, where none of
/// them holds it.
pub proof fn lemma_pieces_of_joined(parts: Seq<Seq<char>>, c: char)
    requires
        parts.len() > 0,
        free_of(parts, c),
    ensures
        pieces(joined(parts, seq![c]), seq![c]) == parts,
    decreases parts.len(),
{
    let pat = seq![c];
    let a = parts[0];
    let whole = joined(parts, pat);
    lemma_find_char(whole, c);
    if parts.len() == 1 {
        assert(whole == a);
        if find(whole, pat) is Some {
            assert(parts[0][find(whole, pat)->0] != c);
        }
        assert(pieces(whole, pat) =~= parts);
    } else {
        let rest = parts.skip(1);
        assert(parts =~= seq![a] + rest);
        assert forall|k: int, j: int| 0 <= k < rest.len() && 0 <= j < rest[k].len() implies (
        #[trigger] rest[k][j]) != c by {
            assert(parts[k + 1][j] != c);
        }
        lemma_joined_front(a, rest, pat);
        lemma_pieces_of_joined(rest, c);
        let n = a.len() as int;
        assert(whole[n] == c);
        assert(find(whole, pat) == Some(n)) by {
            if find(whole, pat) is None {
                assert(whole[n] != c);
            } else {
                let k = find(whole, pat)->0;
                if k < n {
                    assert(whole[k] == a[k]);
                    assert(parts[0][k] != c);
                } else if k > n {
                    assert(whole[n] != c);
                }
            }
        }
        assert(whole.take(n) =~= a);
        assert(whole.skip(n + 1) =~= joined(rest, pat));
        assert(pieces(whole, pat) =~= parts);
    }
}

/// Where every part counts, filtering keeps them all.
pub proof fn lemma_filter_keeps_all<A>(list: Seq<A>, p: spec_fn(A) -> bool)
    requires
        forall|k: int| 0 <= k < list.len() ==> p(#[trigger] list[k]),
    ensures
        list.filter(p) == list,
    decreases list.len(),
{
    reveal(Seq::filter);
    if list.len() > 0 {
        assert forall|k: int| 0 <= k < list.drop_last().len() implies p(#[trigger] list.drop_last()[k]) by {
            assert(p(list[k]));
        }
        lemma_filter_keeps_all(list.drop_last(), p);
        assert(p(list[list.len() - 1]));
        assert(list =~= list.drop_last().push(list.last()));
    }
}

/// Trimming from the start leaves a text that begins with no such character, and
/// a part of what was there.
proof fn lemma_trim_start(s: Seq<char>)
    ensures
        ({
            let r = trim_start_by(s, spaces());
            r.len() > 0 ==> !space(r[0])
        }),
    decreases s.len(),
{
    if s.len() > 0 && space(s[0]) {
        lemma_trim_start(s.skip(1));
    }
}

proof fn lemma_trim_end(s: Seq<char>)
    ensures
        ({
            let r = trim_end_by(s, spaces());
            r.len() <= s.len() && r == s.take(r.len() as int) && (r.len() > 0 ==> !space(r.last()))
        }),
    decreases s.len(),
{
    if s.len() > 0 && space(s.last()) {
        lemma_trim_end(s.drop_last());
        let r = trim_end_by(s, spaces());
        assert(s.drop_last().take(r.len() as int) =~= s.take(r.len() as int));
    } else {
        assert(s.take(s.len() as int) =~= s);
    }
}

/// A trimmed text has no white space at its ends, so trimming it again changes
/// nothing.
pub proof fn lemma_trimmed_twice(s: Seq<char>)
    ensures
        trimmed(trimmed(s)) == trimmed(s),
        trimmed(s).len() > 0 ==> !space(trimmed(s)[0]) && !space(trimmed(s).last()),
{
    let a = trim_start_by(s, spaces());
    let r = trim_end_by(a, spaces());
    lemma_trim_start(s);
    lemma_trim_end(a);
    if r.len() > 0 {
        assert(r[0] == a[0]);
    }
    reveal_with_fuel(trim_start_by, 2);
    reveal_with_fuel(trim_end_by, 2);
}

/// A text is cut at the first place where the separator stands.
pub proof fn law_a_text_is_cut_at_its_separator(a: Seq<char>, pat: Seq<char>, b: Seq<char>)
    requires
        forall|j: int| 0 <= j < a.len() ==> !occurs_at(a + pat + b, pat, j),
    ensures
        cut(a + pat + b, pat) == Some((a, b)),
{
    let s = a + pat + b;
    let n = a.len() as int;
    assert(s.subrange(n, n + pat.len()) =~= pat);
    assert(occurs_at(s, pat, n));
    lemma_find_from(s, pat, 0);
    assert(find(s, pat) == Some(n));
    assert(s.take(n) =~= a);
    assert(s.skip(n + pat.len()) =~= b);
}

/// A text holds each of the parts that it is put together from.
pub proof fn lemma_has_part(a: Seq<char>, x: Seq<char>, b: Seq<char>)
    ensures
        has(a + x + b, x),
{
    let s = a + x + b;
    assert(s.subrange(a.len() as int, (a.len() + x.len()) as int) =~= x);
    assert(occurs_at(s, x, a.len() as int));
}

/// What a part holds, the whole holds.
pub proof fn lemma_has_inside(a: Seq<char>, x: Seq<char>, b: Seq<char>, pat: Seq<char>)
    requires
        has(x, pat),
    ensures
        has(a + x + b, pat),
{
    let s = a + x + b;
    let i = choose|i: int| occurs_at(x, pat, i);
    assert(s.subrange(a.len() + i, a.len() + i + pat.len()) =~= x.subrange(i, i + pat.len()));
    assert(occurs_at(s, pat, a.len() + i));
}

/// One character that no part in front holds is found behind it.
pub proof fn lemma_cut_char(a: Seq<char>, c: char, b: Seq<char>)
    requires
        forall|i: int| 0 <= i < a.len() ==> a[i] != c,
    ensures
        cut(a + seq![c] + b, seq![c]) == Some((a, b)),
{
    let s = a + seq![c] + b;
    assert forall|j: int| 0 <= j < a.len() implies !occurs_at(s, seq![c], j) by {
        if occurs_at(s, seq![c], j) {
            assert(s.subrange(j, j + 1)[0] == s[j]);
            assert(s[j] == a[j]);
        }
    }
    law_a_text_is_cut_at_its_separator(a, seq![c], b);
}

/// Trimming takes the white space off both ends, and nothing else.
pub proof fn law_trimming_takes_white_space_off(a: Seq<char>, core: Seq<char>, b: Seq<char>)
    requires
        forall|i: int| 0 <= i < a.len() ==> space(#[trigger] a[i]),
        forall|i: int| 0 <= i < b.len() ==> space(#[trigger] b[i]),
        core.len() > 0,
        !space(core[0]),
        !space(core.last()),
    ensures
        trimmed(a + core + b) == core,
        trimmed_start(a + core) == core,
        trimmed(a).len() == 0,
    decreases a.len() + b.len(),
{
    let s = a + core + b;
    let p = spaces();
    reveal_with_fuel(trim_start_by, 2);
    reveal_with_fuel(trim_end_by, 2);
    if a.len() > 0 {
        let less = a.skip(1);
        assert forall|i: int| 0 <= i < less.len() implies space(#[trigger] less[i]) by {
            assert(less[i] == a[i + 1]);
        }
        law_trimming_takes_white_space_off(less, core, b);
        assert(space(a[0]));
        assert(s[0] == a[0] && (a + core)[0] == a[0]);
        assert(s.skip(1) =~= less + core + b);
        assert((a + core).skip(1) =~= less + core);
    } else {
        assert(s[0] == core[0]);
        assert(s =~= core + b);
        assert(a + core =~= core);
        assert(trim_start_by(s, p) == s);
        if b.len() > 0 {
            let less = b.drop_last();
            assert forall|i: int| 0 <= i < less.len() implies space(#[trigger] less[i]) by {
                assert(less[i] == b[i]);
            }
            law_trimming_takes_white_space_off(a, core, less);
            assert(space(b[b.len() - 1]));
            assert(s.last() == b.last());
            assert(s.drop_last() =~= a + core + less);
            assert((a + core + less)[0] == core[0]);
            assert(trim_start_by(a + core + less, p) == a + core + less);
        } else {
            assert(s =~= core);
        }
    }
}

/// A text in lower case differs from the text in nothing but its capitals.
pub proof fn law_lower_case_changes_capitals_only(s: Seq<char>, i: int)
    requires
        0 <= i < s.len(),
    ensures
        lower(s).len() == s.len(),
        'A' <= s[i] <= 'Z' ==> lower(s)[i] as u32 == s[i] as u32 + 32,
        !('A' <= s[i] <= 'Z') ==> lower(s)[i] == s[i],
        lower(lower(s)) == lower(s),
{
    assert(lower(lower(s)) =~= lower(s));
}

/// Joining the pieces of a text with its separator gives the text again.
pub proof fn law_pieces_join_to_the_text(s: Seq<char>, pat: Seq<char>)
    requires
        pat.len() > 0,
    ensures
        joined(pieces(s, pat), pat) == s,
        pieces(s, pat).len() > 0,
        !self::has(s, pat) ==> pieces(s, pat) == seq![s],
    decreases s.len(),
{
    lemma_find_from(s, pat, 0);
    match find(s, pat) {
        Some(i) => {
            let rest = s.skip(i + pat.len());
            law_pieces_join_to_the_text(rest, pat);
            lemma_joined_front(s.take(i), pieces(rest, pat), pat);
            assert(s.subrange(i, i + pat.len()) == pat);
            assert(s.take(i) + pat + rest =~= s);
            assert(occurs_at(s, pat, i));
        },
        None => {},
    }
}

/// A text in which nothing is to be replaced stays as it is.
pub proof fn law_only_what_occurs_is_replaced(s: Seq<char>, from: Seq<char>, to: Seq<char>)
    requires
        from.len() > 0,
        !self::has(s, from),
    ensures
        replaced(s, from, to) == s,
{
    law_pieces_join_to_the_text(s, from);
}

proof fn lemma_lines_skip(s: Seq<char>, a: int, k: int)
    requires
        0 <= a <= k <= s.len(),
    ensures
        lines_from(s, k) == lines_from(s.skip(a), k - a),
    decreases s.len() - k,
{
    let r = s.skip(a);
    if k < s.len() {
        lemma_next_skip(s, a, k);
        lemma_next_bound(s, k);
        match next_char(s, '\n', k) {
            Some(i) => {
                lemma_lines_skip(s, a, i + 1);
                assert(s.subrange(k, i) =~= r.subrange(k - a, i - a));
            },
            None => {
                assert(s.skip(k) =~= r.skip(k - a));
            },
        }
    }
}

proof fn lemma_next_bound(s: Seq<char>, k: int)
    requires
        0 <= k,
    ensures
        next_char(s, '\n', k) matches Some(i) ==> k <= i < s.len(),
    decreases s.len() - k,
{
    if k < s.len() && s[k] != '\n' {
        lemma_next_bound(s, k + 1);
    }
}

proof fn lemma_next_skip(s: Seq<char>, a: int, k: int)
    requires
        0 <= a <= k <= s.len(),
    ensures
        next_char(s.skip(a), '\n', k - a) == match next_char(s, '\n', k) {
            Some(i) => Some(i - a),
            None => None,
        },
    decreases s.len() - k,
{
    if k < s.len() && s[k] != '\n' {
        lemma_next_skip(s, a, k + 1);
    }
}

proof fn lemma_next_newline_at(s: Seq<char>, i: int, n: int)
    requires
        0 <= i <= n < s.len(),
        s[n] == '\n',
        forall|k: int| i <= k < n ==> s[k] != '\n',
    ensures
        next_char(s, '\n', i) == Some(n),
    decreases n - i,
{
    if i < n {
        lemma_next_newline_at(s, i + 1, n);
    }
}

/// The first line of a text is what stands before its first line break, without
/// a carriage return; the others are the lines of what stands behind it.
pub proof fn law_a_line_ends_at_its_break(line: Seq<char>, rest: Seq<char>)
    requires
        forall|i: int| 0 <= i < line.len() ==> #[trigger] line[i] != '\n',
    ensures
        line.len() == 0 || line.last() != '\r' ==> lines_of(line + seq!['\n'] + rest) == seq![line] + lines_of(rest),
        line.len() > 0 && line.last() == '\r' ==> lines_of(line + seq!['\n'] + rest) == seq![line.drop_last()] + lines_of(
            rest,
        ),
        line.len() > 0 ==> lines_of(line) == seq![line],
        lines_of(Seq::empty()).len() == 0,
{
    let s = line + seq!['\n'] + rest;
    let n = line.len() as int;
    assert(s[n] == '\n');
    assert forall|k: int| 0 <= k < n implies s[k] != '\n' by {
        assert(s[k] == line[k]);
    }
    lemma_next_newline_at(s, 0, n);
    assert(s.subrange(0, n) =~= line);
    assert(s.skip(n + 1) =~= rest);
    lemma_lines_skip(s, n + 1, n + 1);
    if line.len() > 0 {
        lemma_no_newline(line, 0);
        assert(line.skip(0) =~= line);
    }
}

proof fn lemma_no_newline(s: Seq<char>, i: int)
    requires
        0 <= i,
        forall|k: int| 0 <= k < s.len() ==> #[trigger] s[k] != '\n',
    ensures
        next_char(s, '\n', i) is None,
    decreases s.len() - i,
{
    if i < s.len() {
        lemma_no_newline(s, i + 1);
    }
}

proof fn lemma_first_space_at(s: Seq<char>, n: int)
    requires
        0 <= n < s.len(),
        space(s[n]),
        forall|i: int| 0 <= i < n ==> !space(#[trigger] s[i]),
    ensures
        first_by(s, spaces()) == Some(n),
    decreases n,
{
    if n > 0 {
        assert(!space(s[0]));
        let r = s.skip(1);
        assert forall|i: int| 0 <= i < n - 1 implies !space(#[trigger] r[i]) by {
            assert(r[i] == s[i + 1]);
        }
        assert(r[n - 1] == s[n]);
        lemma_first_space_at(r, n - 1);
    }
}

proof fn lemma_spaceless(s: Seq<char>)
    requires
        forall|i: int| 0 <= i < s.len() ==> !space(#[trigger] s[i]),
    ensures
        first_by(s, spaces()) is None,
    decreases s.len(),
{
    if s.len() > 0 {
        assert(!space(s[0]));
        let r = s.skip(1);
        assert forall|i: int| 0 <= i < r.len() implies !space(#[trigger] r[i]) by {
            assert(r[i] == s[i + 1]);
        }
        lemma_spaceless(r);
    }
}

/// The words of a text are what stands between its blanks, in their order.
pub proof fn law_words_stand_between_blanks(word: Seq<char>, blank: char, rest: Seq<char>)
    requires
        word.len() > 0,
        forall|i: int| 0 <= i < word.len() ==> !space(#[trigger] word[i]),
        space(blank),
    ensures
        words_of(word + seq![blank] + rest) == seq![word] + words_of(rest),
        words_of(word) == seq![word],
        words_of(seq![blank] + rest) == words_of(rest),
        words_of(Seq::empty()).len() == 0,
{
    let s = word + seq![blank] + rest;
    let n = word.len() as int;
    assert(s[0] == word[0]);
    assert(s[n] == blank);
    assert forall|i: int| 0 <= i < n implies !space(#[trigger] s[i]) by {
        assert(s[i] == word[i]);
    }
    lemma_first_space_at(s, n);
    assert(s.take(n) =~= word);
    assert(s.skip(n + 1) =~= rest);
    lemma_spaceless(word);
    assert((seq![blank] + rest).skip(1) =~= rest);
}

/// A joined list ends with its last part, and the separator stands between any
/// two.
pub proof fn law_parts_are_joined_in_order(parts: Seq<Seq<char>>, sep: Seq<char>, x: Seq<char>)
    ensures
        parts.len() > 0 ==> joined(parts.push(x), sep) == joined(parts, sep) + sep + x,
        joined(seq![x], sep) == x,
        joined(Seq::empty(), sep).len() == 0,
{
    assert(parts.push(x).drop_last() =~= parts);
    assert(parts.push(x).last() == x);
}

/// A number is read back from its decimal form, with its sign.
pub proof fn law_a_number_is_read_back(n: nat, max: nat)
    ensures
        n <= max ==> parsed_unsigned(decimal(n), max) == Some(n),
        n > max ==> parsed_unsigned(decimal(n), max) is None,
        n <= max ==> parsed_signed(signed_decimal(n as int), max) == Some(n as int),
        0 < n <= max ==> parsed_signed(signed_decimal(-n), max) == Some(-n),
{
    law_decimal_is_read_back(n);
    let s = decimal(n);
    assert(digit(s[0]));
    let m = seq!['-'] + s;
    assert(m.skip(1) =~= s);
}

/// A text is cut to a length by keeping its beginning; one that is short enough
/// is kept whole.
pub proof fn law_a_long_text_keeps_its_beginning(s: Seq<char>, n: nat)
    ensures
        s.len() <= n ==> head(s, n) == s && truncated(s, n) == s,
        s.len() > n ==> head(s, n) == s.take(n as int) && starts(truncated(s, n), s.take(n as int)) && truncated(s, n)
            == s.take(n as int) + "\n...[truncated]"@,
        trimmed(s).len() <= n ==> shortened(s, n) == trimmed(s),
        trimmed(s).len() > n ==> shortened(s, n) == trimmed(s).take(n as int) + "…"@,
{
    if s.len() > n {
        let r = truncated(s, n);
        assert(r.subrange(0, n as int) =~= s.take(n as int));
    }
}

/// A padded text begins with the text and is as wide as asked for.
pub proof fn law_a_padded_text_is_as_wide_as_asked(s: Seq<char>, width: nat)
    ensures
        s.len() <= width ==> padded(s, width).len() == width,
        s.len() > width ==> padded(s, width) == s,
        starts(padded(s, width), s),
        forall|i: int| s.len() <= i < padded(s, width).len() ==> #[trigger] padded(s, width)[i] == ' ',
{
    assert(padded(s, width).subrange(0, s.len() as int) =~= s);
}

} // verus!
