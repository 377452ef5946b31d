//! The origins that a CORS rule allows.
//!
//! An origin is `*`, which stands for every origin; a scheme alone, `http` or
//! `https`, which stands for every host and port under that scheme; or
//! `scheme://host` with an optional `:port`, where the host may hold one `*`
//! in place of any run of characters. No origin holds more than one `*`.
//!
//! A list of origins is checked as a whole as well: `*` stands alone, no
//! scheme stands alone twice, a scheme that stands alone excludes every entry
//! with a host under that scheme, and no two hosts under one scheme may match
//! the same host name.

use vstd::prelude::*;
use crate::error::Subject;
use crate::error::ValidationError;
use crate::text::chars_of;
use crate::text::ends_with;
use crate::text::is_prefix;
use crate::text::is_suffix;
use crate::text::same_chars;
use crate::text::starts_with;
use crate::text::views;

verus! {

/// A scheme that an origin may name.
#[derive(Clone, Copy, Debug, PartialEq, Eq, Structural)]
pub enum Scheme {
    Http,
    Https,
}

impl Scheme {
    /// The scheme as it is written.
    pub open spec fn text(self) -> Seq<char> {
        match self {
            Scheme::Http => seq!['h', 't', 't', 'p'],
            Scheme::Https => seq!['h', 't', 't', 'p', 's'],
        }
    }
}

/// What an origin stands for.
#[derive(Clone, Debug, PartialEq, Eq)]
pub enum OriginClass {
    /// `*`: every origin.
    Universal,
    /// A scheme alone: every host and port under it.
    SchemeOnly(Scheme),
    /// A scheme, a host that may hold one `*`, and possibly a port.
    Full { scheme: Scheme, host: String, port: Option<u16> },
}

/// What an origin stands for, with the host as a character sequence.
pub enum OriginClassView {
    Universal,
    SchemeOnly(Scheme),
    Full { scheme: Scheme, host: Seq<char>, port: Option<u16> },
}

impl View for OriginClass {
    type V = OriginClassView;

    open spec fn view(&self) -> OriginClassView {
        match self {
            OriginClass::Universal => OriginClassView::Universal,
            OriginClass::SchemeOnly(scheme) => OriginClassView::SchemeOnly(*scheme),
            OriginClass::Full { scheme, host, port } => OriginClassView::Full {
                scheme: *scheme,
                host: host@,
                port: *port,
            },
        }
    }
}

/// `s` holds `*` at two places.
pub open spec fn many_stars(s: Seq<char>) -> bool {
    exists|i: int, j: int| 0 <= i < j < s.len() && s[i] == '*' && s[j] == '*'
}

/// `s` holds `://` from position `i` on.
pub open spec fn separator_at(s: Seq<char>, i: int) -> bool {
    &&& 0 <= i
    &&& i + 2 < s.len()
    &&& s[i] == ':'
    &&& s[i + 1] == '/'
    &&& s[i + 2] == '/'
}

/// `s` holds `://` from position `i` on and nowhere before.
pub open spec fn first_separator_at(s: Seq<char>, i: int) -> bool {
    separator_at(s, i) && forall|j: int| 0 <= j < i ==> !separator_at(s, j)
}

/// `s` holds `://`.
pub open spec fn has_separator(s: Seq<char>) -> bool {
    exists|i: int| separator_at(s, i)
}

/// The position of the first `://` in a sequence that holds one.
pub open spec fn first_separator(s: Seq<char>) -> int {
    choose|i: int| first_separator_at(s, i)
}

/// The scheme that `text` names, if it names one: only `http` and `https`
/// are accepted, in lower case.
pub open spec fn scheme_named(text: Seq<char>) -> Option<Scheme> {
    if text == Scheme::Http.text() {
        Some(Scheme::Http)
    } else if text == Scheme::Https.text() {
        Some(Scheme::Https)
    } else {
        None
    }
}

/// Whether `c` may stand in the host of an origin: an ASCII letter or digit,
/// `-`, `.`, or the wildcard `*`.
pub open spec fn is_host_char(c: char) -> bool {
    ||| 'a' <= c <= 'z'
    ||| 'A' <= c <= 'Z'
    ||| '0' <= c <= '9'
    ||| c == '-'
    ||| c == '.'
    ||| c == '*'
}

/// Whether `host` can be the host of an origin: not empty, and of host
/// characters only.
pub open spec fn is_host(host: Seq<char>) -> bool {
    host.len() > 0 && forall|i: int| 0 <= i < host.len() ==> is_host_char(#[trigger] host[i])
}

/// `rest` holds no `:` before position `c`, and one at `c` unless it ends
/// there.
pub open spec fn host_ends_at(rest: Seq<char>, c: int) -> bool {
    &&& 0 <= c <= rest.len()
    &&& forall|i: int| 0 <= i < c ==> #[trigger] rest[i] != ':'
    &&& c < rest.len() ==> rest[c] == ':'
}

/// The position of the first `:` of `rest`, or its length if it has none.
pub open spec fn host_end(rest: Seq<char>) -> int {
    choose|c: int| host_ends_at(rest, c)
}

/// Whether `c` is a decimal digit.
pub open spec fn is_digit(c: char) -> bool {
    '0' <= c <= '9'
}

/// The number that the decimal digits `digits` write.
pub open spec fn decimal_value(digits: Seq<char>) -> int
    decreases digits.len(),
{
    if digits.len() == 0 {
        0
    } else {
        decimal_value(digits.drop_last()) * 10 + (digits.last() as int - '0' as int)
    }
}

/// The port that `digits` writes, if they write one: at least one decimal
/// digit, and a number up to 65,535.
pub open spec fn port_written(digits: Seq<char>) -> Option<u16> {
    if digits.len() > 0 && (forall|i: int| 0 <= i < digits.len() ==> is_digit(#[trigger] digits[i]))
        && decimal_value(digits) <= 65_535 {
        Some(decimal_value(digits) as u16)
    } else {
        None
    }
}

/// What `rest`, the part of an origin after `://`, stands for under `scheme`:
/// a host up to the first `:` or the end, and after a `:` a port.
pub open spec fn authority(scheme: Scheme, rest: Seq<char>) -> Option<OriginClassView> {
    let c = host_end(rest);
    let host = rest.subrange(0, c);
    if !is_host(host) {
        None
    } else if c == rest.len() {
        Some(OriginClassView::Full { scheme, host, port: None })
    } else {
        match port_written(rest.subrange(c + 1, rest.len() as int)) {
            Some(port) => Some(OriginClassView::Full { scheme, host, port: Some(port) }),
            None => None,
        }
    }
}

/// What the origin `s` stands for, or `None` if it is no origin.
pub open spec fn class_of(s: Seq<char>) -> Option<OriginClassView> {
    if many_stars(s) {
        None
    } else if s == seq!['*'] {
        Some(OriginClassView::Universal)
    } else if !has_separator(s) {
        match scheme_named(s) {
            Some(scheme) => Some(OriginClassView::SchemeOnly(scheme)),
            None => None,
        }
    } else {
        let i = first_separator(s);
        match scheme_named(s.subrange(0, i)) {
            Some(scheme) => authority(scheme, s.subrange(i + 3, s.len() as int)),
            None => None,
        }
    }
}

/// The first `://` stands where one stands with none before it.
proof fn lemma_first_separator(s: Seq<char>, i: int)
    requires
        first_separator_at(s, i),
    ensures
        has_separator(s),
        first_separator(s) == i,
{
    let k = first_separator(s);
    assert(first_separator_at(s, k));
    if k < i {
        assert(!separator_at(s, k));
    } else if i < k {
        assert(!separator_at(s, i));
    }
}

/// The host ends where a `:` stands, or the sequence ends, with no `:` before.
proof fn lemma_host_end(rest: Seq<char>, c: int)
    requires
        host_ends_at(rest, c),
    ensures
        host_end(rest) == c,
{
    let k = host_end(rest);
    assert(host_ends_at(rest, k));
    if k < c {
        assert(rest[k] != ':');
    } else if c < k {
        assert(rest[c] != ':');
    }
}

/// A run of digits writes no smaller number than any beginning of it.
proof fn lemma_decimal_grows(digits: Seq<char>, n: int)
    requires
        0 <= n <= digits.len(),
        forall|i: int| 0 <= i < digits.len() ==> is_digit(#[trigger] digits[i]),
    ensures
        0 <= decimal_value(digits.subrange(0, n)) <= decimal_value(digits),
    decreases digits.len(),
{
    if digits.len() == 0 {
        assert(digits.subrange(0, n) =~= digits);
    } else if n == digits.len() {
        assert(digits.subrange(0, n) =~= digits);
        lemma_decimal_grows(digits.drop_last(), n - 1);
        assert(digits.drop_last().subrange(0, n - 1) =~= digits.drop_last());
    } else {
        lemma_decimal_grows(digits.drop_last(), n);
        assert(digits.drop_last().subrange(0, n) =~= digits.subrange(0, n));
    }
}

/// The scheme that the first `to` characters of `chars` name, if they name
/// one.
fn scheme_in(chars: &Vec<char>, to: usize) -> (r: Option<Scheme>)
    requires
        to <= chars.len(),
    ensures
        r == scheme_named(chars@.subrange(0, to as int)),
{
    let ghost text = chars@.subrange(0, to as int);
    if to == 4 && chars[0] == 'h' && chars[1] == 't' && chars[2] == 't' && chars[3] == 'p' {
        assert(text =~= Scheme::Http.text());
        Some(Scheme::Http)
    } else if to == 5 && chars[0] == 'h' && chars[1] == 't' && chars[2] == 't' && chars[3] == 'p'
        && chars[4] == 's' {
        assert(text =~= Scheme::Https.text());
        Some(Scheme::Https)
    } else {
        proof {
            if text == Scheme::Http.text() {
                assert(text.len() == 4);
                assert(text[0] == 'h' && text[1] == 't' && text[2] == 't' && text[3] == 'p');
            }
            if text == Scheme::Https.text() {
                assert(text.len() == 5);
                assert(text[0] == 'h' && text[1] == 't' && text[2] == 't' && text[3] == 'p'
                    && text[4] == 's');
            }
        }
        None
    }
}

/// Whether `chars` holds `*` at two places.
fn has_many_stars(chars: &Vec<char>) -> (r: bool)
    ensures
        r == many_stars(chars@),
{
    let mut seen: bool = false;
    let ghost mut at: int = 0;
    let mut i: usize = 0;
    while i < chars.len()
        invariant
            i <= chars.len(),
            seen ==> 0 <= at < i && chars@[at] == '*',
            !seen ==> forall|j: int| 0 <= j < i ==> chars@[j] != '*',
            forall|j: int, k: int| 0 <= j < k < i ==> !(chars@[j] == '*' && chars@[k] == '*'),
        decreases chars.len() - i,
    {
        if chars[i] == '*' {
            if seen {
                assert(chars@[at] == '*' && chars@[i as int] == '*');
                return true;
            }
            seen = true;
            proof {
                at = i as int;
            }
        }
        i += 1;
    }
    false
}

/// The position of the first `://` in `chars`, if there is one.
fn find_separator(chars: &Vec<char>) -> (r: Option<usize>)
    ensures
        match r {
            Some(i) => first_separator_at(chars@, i as int),
            None => !has_separator(chars@),
        },
{
    if chars.len() < 3 {
        return None;
    }
    let mut i: usize = 0;
    while i + 2 < chars.len()
        invariant
            i + 2 <= chars.len(),
            forall|j: int| 0 <= j < i ==> !separator_at(chars@, j),
        decreases chars.len() - i,
    {
        if chars[i] == ':' && chars[i + 1] == '/' && chars[i + 2] == '/' {
            return Some(i);
        }
        i += 1;
    }
    None
}

/// Whether `c` may stand in the host of an origin.
fn host_char(c: char) -> (r: bool)
    ensures
        r == is_host_char(c),
{
    (c >= 'a' && c <= 'z') || (c >= 'A' && c <= 'Z') || (c >= '0' && c <= '9') || c == '-' || c
        == '.' || c == '*'
}

/// The port that the characters of `chars` from `from` on write, if they
/// write one.
fn port_in(chars: &Vec<char>, from: usize) -> (r: Option<u16>)
    requires
        from <= chars.len(),
    ensures
        r == port_written(chars@.subrange(from as int, chars.len() as int)),
{
    let ghost digits = chars@.subrange(from as int, chars.len() as int);
    if from == chars.len() {
        return None;
    }
    let mut value: u32 = 0;
    let mut i: usize = from;
    while i < chars.len()
        invariant
            from <= i <= chars.len(),
            digits == chars@.subrange(from as int, chars.len() as int),
            forall|j: int| 0 <= j < i - from ==> is_digit(#[trigger] digits[j]),
            value == decimal_value(digits.subrange(0, i - from)),
            value <= 65_535,
        decreases chars.len() - i,
    {
        let c = chars[i];
        if !(c >= '0' && c <= '9') {
            assert(!is_digit(digits[i - from]));
            return None;
        }
        let digit: u32 = match c {
            '0' => 0,
            '1' => 1,
            '2' => 2,
            '3' => 3,
            '4' => 4,
            '5' => 5,
            '6' => 6,
            '7' => 7,
            '8' => 8,
            _ => 9,
        };
        let next: u32 = value * 10 + digit;
        proof {
            let longer = digits.subrange(0, i - from + 1);
            assert(longer.drop_last() =~= digits.subrange(0, i - from));
            assert(longer.last() == c);
            assert(next == decimal_value(longer));
        }
        if next > 65_535 {
            proof {
                if forall|j: int| 0 <= j < digits.len() ==> is_digit(#[trigger] digits[j]) {
                    lemma_decimal_grows(digits, i - from + 1);
                }
            }
            return None;
        }
        value = next;
        i += 1;
    }
    assert(digits.subrange(0, i - from) =~= digits);
    Some(value as u16)
}

/// Whether the characters of `chars` from `from` to `to` can be the host of
/// an origin.
fn host_in(chars: &Vec<char>, from: usize, to: usize) -> (r: bool)
    requires
        from <= to <= chars.len(),
    ensures
        r == is_host(chars@.subrange(from as int, to as int)),
{
    let ghost host = chars@.subrange(from as int, to as int);
    if from == to {
        return false;
    }
    let mut i: usize = from;
    while i < to
        invariant
            from <= i <= to <= chars.len(),
            host == chars@.subrange(from as int, to as int),
            forall|j: int| 0 <= j < i - from ==> is_host_char(#[trigger] host[j]),
        decreases to - i,
    {
        if !host_char(chars[i]) {
            assert(!is_host_char(host[i - from]));
            return false;
        }
        i += 1;
    }
    true
}

/// The position of the first `:` of `chars` from `from` on, or the length of
/// `chars` if there is none.
fn host_end_in(chars: &Vec<char>, from: usize) -> (end: usize)
    requires
        from <= chars.len(),
    ensures
        from <= end <= chars.len(),
        host_end(chars@.subrange(from as int, chars.len() as int)) == end - from,
{
    let ghost rest = chars@.subrange(from as int, chars.len() as int);
    let mut end: usize = from;
    while end < chars.len() && chars[end] != ':'
        invariant
            from <= end <= chars.len(),
            rest == chars@.subrange(from as int, chars.len() as int),
            forall|i: int| 0 <= i < end - from ==> #[trigger] rest[i] != ':',
        decreases chars.len() - end,
    {
        end += 1;
    }
    proof {
        lemma_host_end(rest, end - from);
    }
    end
}

/// What the part of `origin` from `start` on stands for under `scheme`.
fn authority_in(origin: &str, chars: &Vec<char>, scheme: Scheme, start: usize) -> (r: Option<
    OriginClass,
>)
    requires
        chars@ == origin@,
        start <= chars.len(),
    ensures
        match r {
            Some(class) => authority(scheme, chars@.subrange(start as int, chars.len() as int))
                == Some(class@),
            None => authority(scheme, chars@.subrange(start as int, chars.len() as int)) is None,
        },
{
    let ghost rest = chars@.subrange(start as int, chars.len() as int);
    let end = host_end_in(chars, start);
    assert(rest.subrange(0, end - start) =~= chars@.subrange(start as int, end as int));
    if !host_in(chars, start, end) {
        return None;
    }
    let port = if end == chars.len() {
        None
    } else {
        assert(rest.subrange(end - start + 1, rest.len() as int) =~= chars@.subrange(
            end + 1,
            chars.len() as int,
        ));
        match port_in(chars, end + 1) {
            None => {
                return None;
            },
            Some(port) => Some(port),
        }
    };
    let host = origin.substring_char(start, end).to_owned();
    Some(OriginClass::Full { scheme, host, port })
}

/// What an origin stands for.
///
/// `*` stands for every origin, and `http` or `https` alone for the scheme.
/// Every other origin is `http://` or `https://`, then a host of letters,
/// digits, `-`, `.` and at most one `*`, then possibly `:` and a port up to
/// 65,535. Anything else is refused, as is an origin with more than one `*`.
pub fn classify(origin: &str) -> (r: Result<OriginClass, ValidationError>)
    ensures
        match r {
            Ok(class) => class_of(origin@) == Some(class@),
            Err(e) => class_of(origin@) is None && e == ValidationError::BadFormat(
                Subject::AllowedOrigins,
            ),
        },
{
    let refused = Err(ValidationError::BadFormat(Subject::AllowedOrigins));
    let chars = chars_of(origin);
    if has_many_stars(&chars) {
        return refused;
    }
    if chars.len() == 1 && chars[0] == '*' {
        assert(chars@ =~= seq!['*']);
        return Ok(OriginClass::Universal);
    }
    assert(chars@ != seq!['*']) by {
        if chars@ == seq!['*'] {
            assert(chars@.len() == 1);
            assert(chars@[0] == '*');
        }
    }
    match find_separator(&chars) {
        None => {
            assert(chars@.subrange(0, chars.len() as int) =~= chars@);
            match scheme_in(&chars, chars.len()) {
                Some(scheme) => Ok(OriginClass::SchemeOnly(scheme)),
                None => refused,
            }
        },
        Some(at) => {
            proof {
                lemma_first_separator(chars@, at as int);
            }
            match scheme_in(&chars, at) {
                None => refused,
                Some(scheme) => match authority_in(origin, &chars, scheme, at + 3) {
                    Some(class) => Ok(class),
                    None => refused,
                },
            }
        },
    }
}

/// `pattern` holds `*` at position `k`.
pub open spec fn star_at(pattern: Seq<char>, k: int) -> bool {
    0 <= k < pattern.len() && pattern[k] == '*'
}

/// `name` begins with what `pattern` holds before position `k`, ends with
/// what it holds after `k`, and is long enough for both.
pub open spec fn fits_around(pattern: Seq<char>, k: int, name: Seq<char>) -> bool {
    &&& pattern.len() - 1 <= name.len()
    &&& is_prefix(pattern.subrange(0, k), name)
    &&& is_suffix(pattern.subrange(k + 1, pattern.len() as int), name)
}

/// The host pattern `pattern` matches the host name `name`: a `*` of the
/// pattern stands for any run of characters, also the empty one, and a
/// pattern without `*` matches itself alone.
pub open spec fn matches_host(pattern: Seq<char>, name: Seq<char>) -> bool {
    if exists|k: int| star_at(pattern, k) {
        exists|k: int| star_at(pattern, k) && fits_around(pattern, k, name)
    } else {
        name == pattern
    }
}

/// Some host name is matched by both host patterns.
pub open spec fn hosts_overlap(p: Seq<char>, q: Seq<char>) -> bool {
    exists|name: Seq<char>| matches_host(p, name) && matches_host(q, name)
}

/// Whether two entries of a list of origins exclude each other.
///
/// `*` excludes every other entry. A scheme alone excludes itself and every
/// entry with a host under that scheme, which it covers already. Two entries
/// with hosts exclude each other if they have the same scheme and their hosts
/// overlap, whatever their ports.
pub open spec fn excludes(a: OriginClassView, b: OriginClassView) -> bool {
    match (a, b) {
        (OriginClassView::Universal, _) => true,
        (_, OriginClassView::Universal) => true,
        (OriginClassView::SchemeOnly(s), OriginClassView::SchemeOnly(t)) => s == t,
        (OriginClassView::SchemeOnly(s), OriginClassView::Full { scheme, host: _, port: _ }) => s
            == scheme,
        (OriginClassView::Full { scheme, host: _, port: _ }, OriginClassView::SchemeOnly(s)) => s
            == scheme,
        (
            OriginClassView::Full { scheme: s, host: g, port: _ },
            OriginClassView::Full { scheme: t, host: h, port: _ },
        ) => s == t && hosts_overlap(g, h),
    }
}

/// Every item is an origin.
pub open spec fn all_origins(items: Seq<Seq<char>>) -> bool {
    forall|i: int| 0 <= i < items.len() ==> class_of(#[trigger] items[i]) is Some
}

/// The origins at `i` and `j` exclude each other.
pub open spec fn clash(items: Seq<Seq<char>>, i: int, j: int) -> bool {
    excludes(class_of(items[i]).unwrap(), class_of(items[j]).unwrap())
}

/// Two of the origins exclude each other.
pub open spec fn has_clash(items: Seq<Seq<char>>) -> bool {
    exists|i: int, j: int| 0 <= i < j < items.len() && #[trigger] clash(items, i, j)
}

/// What is wrong with a list of origins, if anything: it is empty, or else one
/// of its items is no origin, or else two of them exclude each other.
pub open spec fn origins_fault(items: Seq<Seq<char>>) -> Option<ValidationError> {
    if items.len() == 0 {
        Some(ValidationError::MissingData(Subject::AllowedOrigins))
    } else if !all_origins(items) {
        Some(ValidationError::BadFormat(Subject::AllowedOrigins))
    } else if has_clash(items) {
        Some(ValidationError::Incompatible(Subject::AllowedOrigins))
    } else {
        None
    }
}

/// What is wrong with a list of origins, and where.
#[derive(Clone, Copy, Debug, PartialEq, Eq, Structural)]
pub enum OriginListFault {
    /// The list is empty.
    Empty,
    /// The item at this position is no origin.
    NotAnOrigin(usize),
    /// The entries at these two positions exclude each other.
    Exclusive(usize, usize),
}

impl OriginListFault {
    /// The fault as a validation error.
    pub open spec fn error(self) -> ValidationError {
        match self {
            OriginListFault::Empty => ValidationError::MissingData(Subject::AllowedOrigins),
            OriginListFault::NotAnOrigin(_) => ValidationError::BadFormat(Subject::AllowedOrigins),
            OriginListFault::Exclusive(_, _) => ValidationError::Incompatible(
                Subject::AllowedOrigins,
            ),
        }
    }

    /// The fault as a validation error.
    pub fn to_error(&self) -> (e: ValidationError)
        ensures
            e == self.error(),
    {
        match self {
            OriginListFault::Empty => ValidationError::MissingData(Subject::AllowedOrigins),
            OriginListFault::NotAnOrigin(_) => ValidationError::BadFormat(Subject::AllowedOrigins),
            OriginListFault::Exclusive(_, _) => ValidationError::Incompatible(
                Subject::AllowedOrigins,
            ),
        }
    }
}

/// The item at `i` is no origin, and every item before it is one.
pub open spec fn first_non_origin_at(items: Seq<Seq<char>>, i: int) -> bool {
    &&& 0 <= i < items.len()
    &&& class_of(items[i]) is None
    &&& forall|k: int| 0 <= k < i ==> class_of(#[trigger] items[k]) is Some
}

/// The pair of positions `k` and `m` comes before the pair `i` and `j`.
pub open spec fn pair_before(k: int, m: int, i: int, j: int) -> bool {
    k < i || (k == i && m < j)
}

/// The origins at `i` and `j` exclude each other, and no pair of positions
/// before them does.
pub open spec fn first_clash_at(items: Seq<Seq<char>>, i: int, j: int) -> bool {
    &&& 0 <= i < j < items.len()
    &&& clash(items, i, j)
    &&& forall|k: int, m: int|
        0 <= k < m < items.len() && pair_before(k, m, i, j) ==> !#[trigger] clash(items, k, m)
}

/// What is wrong with a list of origins and where, if anything: it is empty;
/// or else the first item that is no origin; or else the first two entries
/// that exclude each other.
pub open spec fn origin_list_fault(items: Seq<Seq<char>>) -> Option<OriginListFault> {
    if items.len() == 0 {
        Some(OriginListFault::Empty)
    } else if exists|i: int| first_non_origin_at(items, i) {
        Some(OriginListFault::NotAnOrigin((choose|i: int| first_non_origin_at(items, i)) as usize))
    } else if exists|i: int, j: int| first_clash_at(items, i, j) {
        let pair = choose|i: int, j: int| first_clash_at(items, i, j);
        Some(OriginListFault::Exclusive(pair.0 as usize, pair.1 as usize))
    } else {
        None
    }
}

/// A list with an item that is no origin has a first such item.
proof fn lemma_some_first_non_origin(items: Seq<Seq<char>>, n: int)
    requires
        0 <= n < items.len(),
        class_of(items[n]) is None,
    ensures
        exists|i: int| first_non_origin_at(items, i),
    decreases n,
{
    if exists|k: int| 0 <= k < n && class_of(#[trigger] items[k]) is None {
        let k = choose|k: int| 0 <= k < n && class_of(#[trigger] items[k]) is None;
        lemma_some_first_non_origin(items, k);
    } else {
        assert(first_non_origin_at(items, n));
    }
}

/// A list with two entries that exclude each other has a first such pair.
proof fn lemma_some_first_clash(items: Seq<Seq<char>>, i: int, j: int)
    requires
        0 <= i < j < items.len(),
        clash(items, i, j),
    ensures
        exists|k: int, m: int| first_clash_at(items, k, m),
    decreases i, j,
{
    if exists|k: int, m: int|
        0 <= k < m < items.len() && pair_before(k, m, i, j) && #[trigger] clash(items, k, m) {
        let (k, m) = choose|k: int, m: int|
            0 <= k < m < items.len() && pair_before(k, m, i, j) && #[trigger] clash(items, k, m);
        lemma_some_first_clash(items, k, m);
    } else {
        assert(first_clash_at(items, i, j));
    }
}

/// The first item that is no origin is at one position only.
proof fn lemma_first_non_origin(items: Seq<Seq<char>>, i: int)
    requires
        first_non_origin_at(items, i),
    ensures
        (choose|k: int| first_non_origin_at(items, k)) == i,
{
    let k = choose|k: int| first_non_origin_at(items, k);
    if k < i {
        assert(class_of(items[k]) is Some);
    } else if i < k {
        assert(class_of(items[i]) is Some);
    }
}

/// The first pair of entries that exclude each other is one pair only.
proof fn lemma_first_clash(items: Seq<Seq<char>>, i: int, j: int)
    requires
        first_clash_at(items, i, j),
    ensures
        (choose|k: int, m: int| first_clash_at(items, k, m)) == (i, j),
{
    let (k, m) = choose|k: int, m: int| first_clash_at(items, k, m);
    if pair_before(k, m, i, j) {
        assert(!clash(items, k, m));
    } else if pair_before(i, j, k, m) {
        assert(!clash(items, i, j));
    }
}

/// The error of a list of origins is the error of what is wrong with it.
pub proof fn lemma_fault_of_list(items: Seq<Seq<char>>)
    ensures
        origins_fault(items) == match origin_list_fault(items) {
            Some(fault) => Some(fault.error()),
            None => None,
        },
{
    if items.len() > 0 {
        if !all_origins(items) {
            let n = choose|n: int| 0 <= n < items.len() && class_of(#[trigger] items[n]) is None;
            lemma_some_first_non_origin(items, n);
        } else {
            if exists|i: int| first_non_origin_at(items, i) {
                let i = choose|i: int| first_non_origin_at(items, i);
                assert(class_of(items[i]) is Some);
            }
            if has_clash(items) {
                let (i, j) = choose|i: int, j: int|
                    0 <= i < j < items.len() && #[trigger] clash(items, i, j);
                lemma_some_first_clash(items, i, j);
            } else if exists|i: int, j: int| first_clash_at(items, i, j) {
                let (i, j) = choose|i: int, j: int| first_clash_at(items, i, j);
                assert(clash(items, i, j));
            }
        }
    }
}

/// Which of two entries comes first does not matter.
pub proof fn lemma_excludes_symmetric(a: OriginClassView, b: OriginClassView)
    ensures
        excludes(a, b) == excludes(b, a),
{
    match (a, b) {
        (
            OriginClassView::Full { scheme: s, host: g, port: _ },
            OriginClassView::Full { scheme: t, host: h, port: _ },
        ) => {
            if hosts_overlap(g, h) {
                let name = choose|name: Seq<char>| matches_host(g, name) && matches_host(h, name);
                assert(matches_host(h, name) && matches_host(g, name));
            }
            if hosts_overlap(h, g) {
                let name = choose|name: Seq<char>| matches_host(h, name) && matches_host(g, name);
                assert(matches_host(g, name) && matches_host(h, name));
            }
        },
        _ => {},
    }
}

/// The host `*` overlaps every host: `scheme://*`, with a port or without,
/// excludes every other entry with a host under its scheme, as it excludes
/// the scheme alone.
pub proof fn lemma_wildcard_host_overlaps(host: Seq<char>)
    ensures
        hosts_overlap(seq!['*'], host),
        hosts_overlap(host, seq!['*']),
{
    let star = seq!['*'];
    assert(star_at(star, 0));
    let name = if exists|k: int| star_at(host, k) {
        let k = choose|k: int| star_at(host, k);
        host.subrange(0, k) + host.subrange(k + 1, host.len() as int)
    } else {
        host
    };
    assert(fits_around(star, 0, name));
    assert(matches_host(star, name));
    if exists|k: int| star_at(host, k) {
        let k = choose|k: int| star_at(host, k);
        let before = host.subrange(0, k);
        let after = host.subrange(k + 1, host.len() as int);
        assert(is_prefix(before, name));
        assert(is_suffix(after, name)) by {
            assert forall|i: int| 0 <= i < after.len() implies after[i] == name[name.len()
                - after.len() + i] by {
                assert(name[before.len() + i] == after[i]);
            }
        }
        assert(fits_around(host, k, name));
    }
    assert(matches_host(host, name));
}

/// A list that holds `*` and another entry is refused.
pub proof fn lemma_universal_stands_alone(items: Seq<Seq<char>>, i: int)
    requires
        0 <= i < items.len(),
        items[i] == seq!['*'],
        items.len() >= 2,
    ensures
        origins_fault(items) is Some,
{
    if all_origins(items) {
        assert(!many_stars(items[i]));
        assert(class_of(items[i]) == Some(OriginClassView::Universal));
        if i == 0 {
            assert(class_of(items[1]) is Some);
            assert(clash(items, 0, 1));
        } else {
            assert(class_of(items[0]) is Some);
            assert(clash(items, 0, i));
        }
    }
}

/// A list in which one scheme stands alone twice is refused.
pub proof fn lemma_scheme_stands_alone_once(items: Seq<Seq<char>>, i: int, j: int, scheme: Scheme)
    requires
        0 <= i < j < items.len(),
        class_of(items[i]) == Some(OriginClassView::SchemeOnly(scheme)),
        class_of(items[j]) == Some(OriginClassView::SchemeOnly(scheme)),
    ensures
        origins_fault(items) is Some,
{
    assert(clash(items, i, j));
}

/// A list in which a scheme stands alone beside an entry with a host under
/// that scheme is refused, whichever of the two comes first.
pub proof fn lemma_scheme_alone_excludes_hosts(
    items: Seq<Seq<char>>,
    i: int,
    j: int,
    scheme: Scheme,
)
    requires
        0 <= i < items.len(),
        0 <= j < items.len(),
        class_of(items[i]) == Some(OriginClassView::SchemeOnly(scheme)),
        class_of(items[j]) matches Some(OriginClassView::Full { scheme: other, .. }) && other
            == scheme,
    ensures
        origins_fault(items) is Some,
{
    if i < j {
        assert(clash(items, i, j));
    } else {
        assert(clash(items, j, i));
    }
}

/// A pattern with a single `*` has it at one place only.
proof fn lemma_one_star(pattern: Seq<char>, k: int, m: int)
    requires
        !many_stars(pattern),
        star_at(pattern, k),
        star_at(pattern, m),
    ensures
        k == m,
{
    if k < m {
        assert(pattern[k] == '*' && pattern[m] == '*');
    } else if m < k {
        assert(pattern[m] == '*' && pattern[k] == '*');
    }
}

/// Two patterns without `*` overlap when they are the same.
proof fn lemma_overlap_plain(p: Seq<char>, q: Seq<char>)
    requires
        forall|k: int| !star_at(p, k),
        forall|k: int| !star_at(q, k),
    ensures
        hosts_overlap(p, q) <==> p == q,
{
    if p == q {
        assert(matches_host(p, p) && matches_host(q, p));
    }
}

/// A pattern with a `*` overlaps a pattern without when it matches it.
proof fn lemma_overlap_one_star(p: Seq<char>, k: int, q: Seq<char>)
    requires
        !many_stars(p),
        star_at(p, k),
        forall|m: int| !star_at(q, m),
    ensures
        hosts_overlap(p, q) <==> fits_around(p, k, q),
        hosts_overlap(q, p) <==> fits_around(p, k, q),
{
    if fits_around(p, k, q) {
        assert(matches_host(p, q) && matches_host(q, q));
    }
    if hosts_overlap(p, q) {
        let name = choose|name: Seq<char>| matches_host(p, name) && matches_host(q, name);
        let m = choose|m: int| star_at(p, m) && fits_around(p, m, name);
        lemma_one_star(p, k, m);
    }
    if hosts_overlap(q, p) {
        let name = choose|name: Seq<char>| matches_host(q, name) && matches_host(p, name);
        let m = choose|m: int| star_at(p, m) && fits_around(p, m, name);
        lemma_one_star(p, k, m);
    }
}

/// One of `a` and `b` is a beginning of the other.
pub open spec fn beginnings_agree(a: Seq<char>, b: Seq<char>) -> bool {
    is_prefix(a, b) || is_prefix(b, a)
}

/// One of `a` and `b` is an end of the other.
pub open spec fn ends_agree(a: Seq<char>, b: Seq<char>) -> bool {
    is_suffix(a, b) || is_suffix(b, a)
}

/// Two patterns with a `*` each overlap when what stands before the `*`
/// agrees and what stands after it agrees.
proof fn lemma_overlap_two_stars(p: Seq<char>, k: int, q: Seq<char>, m: int)
    requires
        !many_stars(p),
        !many_stars(q),
        star_at(p, k),
        star_at(q, m),
    ensures
        hosts_overlap(p, q) <==> beginnings_agree(p.subrange(0, k), q.subrange(0, m))
            && ends_agree(
            p.subrange(k + 1, p.len() as int),
            q.subrange(m + 1, q.len() as int),
        ),
{
    let a = p.subrange(0, k);
    let b = p.subrange(k + 1, p.len() as int);
    let c = q.subrange(0, m);
    let d = q.subrange(m + 1, q.len() as int);
    if hosts_overlap(p, q) {
        let name = choose|name: Seq<char>| matches_host(p, name) && matches_host(q, name);
        let k1 = choose|k1: int| star_at(p, k1) && fits_around(p, k1, name);
        let m1 = choose|m1: int| star_at(q, m1) && fits_around(q, m1, name);
        lemma_one_star(p, k, k1);
        lemma_one_star(q, m, m1);
        if a.len() <= c.len() {
            assert forall|i: int| 0 <= i < a.len() implies a[i] == c[i] by {
                assert(a[i] == name[i]);
                assert(c[i] == name[i]);
            }
            assert(is_prefix(a, c));
        } else {
            assert forall|i: int| 0 <= i < c.len() implies c[i] == a[i] by {
                assert(a[i] == name[i]);
                assert(c[i] == name[i]);
            }
            assert(is_prefix(c, a));
        }
        if b.len() <= d.len() {
            assert forall|i: int| 0 <= i < b.len() implies b[i] == d[d.len() - b.len() + i] by {
                assert(b[i] == name[name.len() - b.len() + i]);
                assert(d[d.len() - b.len() + i] == name[name.len() - d.len() + (d.len() - b.len()
                    + i)]);
            }
            assert(is_suffix(b, d));
        } else {
            assert forall|i: int| 0 <= i < d.len() implies d[i] == b[b.len() - d.len() + i] by {
                assert(d[i] == name[name.len() - d.len() + i]);
                assert(b[b.len() - d.len() + i] == name[name.len() - b.len() + (b.len() - d.len()
                    + i)]);
            }
            assert(is_suffix(d, b));
        }
    }
    if beginnings_agree(a, c) && ends_agree(b, d) {
        let front = if a.len() >= c.len() {
            a
        } else {
            c
        };
        let back = if b.len() >= d.len() {
            b
        } else {
            d
        };
        let name = front + back;
        assert(is_prefix(a, name)) by {
            assert forall|i: int| 0 <= i < a.len() implies a[i] == name[i] by {
                assert(name[i] == front[i]);
            }
        }
        assert(is_prefix(c, name)) by {
            assert forall|i: int| 0 <= i < c.len() implies c[i] == name[i] by {
                assert(name[i] == front[i]);
            }
        }
        assert(is_suffix(b, name)) by {
            assert forall|i: int| 0 <= i < b.len() implies b[i] == name[name.len() - b.len()
                + i] by {
                assert(name[name.len() - b.len() + i] == back[back.len() - b.len() + i]);
            }
        }
        assert(is_suffix(d, name)) by {
            assert forall|i: int| 0 <= i < d.len() implies d[i] == name[name.len() - d.len()
                + i] by {
                assert(name[name.len() - d.len() + i] == back[back.len() - d.len() + i]);
            }
        }
        assert(fits_around(p, k, name));
        assert(fits_around(q, m, name));
        assert(matches_host(p, name) && matches_host(q, name));
    }
}

/// The place of the `*` in `pattern`, if it holds one.
fn find_star(pattern: &Vec<char>) -> (r: Option<usize>)
    ensures
        match r {
            Some(k) => star_at(pattern@, k as int),
            None => forall|k: int| !star_at(pattern@, k),
        },
{
    let mut i: usize = 0;
    while i < pattern.len()
        invariant
            i <= pattern.len(),
            forall|k: int| 0 <= k < i ==> !star_at(pattern@, k),
        decreases pattern.len() - i,
    {
        if pattern[i] == '*' {
            return Some(i);
        }
        i += 1;
    }
    None
}

/// The characters of `chars` from `from` to `to`.
fn part_of(chars: &Vec<char>, from: usize, to: usize) -> (r: Vec<char>)
    requires
        from <= to <= chars.len(),
    ensures
        r@ == chars@.subrange(from as int, to as int),
{
    let mut r: Vec<char> = Vec::new();
    let mut i: usize = from;
    while i < to
        invariant
            from <= i <= to <= chars.len(),
            r@ == chars@.subrange(from as int, i as int),
        decreases to - i,
    {
        r.push(chars[i]);
        assert(r@ =~= chars@.subrange(from as int, i + 1));
        i += 1;
    }
    r
}

/// Whether `name` fits around the `*` that `pattern` holds at `k`.
fn fits(pattern: &Vec<char>, k: usize, name: &Vec<char>) -> (r: bool)
    requires
        star_at(pattern@, k as int),
    ensures
        r == fits_around(pattern@, k as int, name@),
{
    if pattern.len() - 1 > name.len() {
        return false;
    }
    let before = part_of(pattern, 0, k);
    let after = part_of(pattern, k + 1, pattern.len());
    starts_with(name, &before) && ends_with(name, &after)
}

/// Whether some host name is matched by both host patterns, neither of which
/// holds more than one `*`.
fn overlap(p: &Vec<char>, q: &Vec<char>) -> (r: bool)
    requires
        !many_stars(p@),
        !many_stars(q@),
    ensures
        r == hosts_overlap(p@, q@),
{
    match (find_star(p), find_star(q)) {
        (None, None) => {
            proof {
                lemma_overlap_plain(p@, q@);
            }
            same_chars(p, q)
        },
        (Some(k), None) => {
            proof {
                lemma_overlap_one_star(p@, k as int, q@);
            }
            fits(p, k, q)
        },
        (None, Some(m)) => {
            proof {
                lemma_overlap_one_star(q@, m as int, p@);
            }
            fits(q, m, p)
        },
        (Some(k), Some(m)) => {
            proof {
                lemma_overlap_two_stars(p@, k as int, q@, m as int);
            }
            assert(k < p.len() && m < q.len());
            let a = part_of(p, 0, k);
            let b = part_of(p, k + 1, p.len());
            let c = part_of(q, 0, m);
            let d = part_of(q, m + 1, q.len());
            (starts_with(&c, &a) || starts_with(&a, &c)) && (ends_with(&d, &b) || ends_with(
                &b,
                &d,
            ))
        },
    }
}

/// A sequence that holds `://` holds it at a first place.
proof fn lemma_some_first_separator(s: Seq<char>, n: int)
    requires
        separator_at(s, n),
    ensures
        first_separator_at(s, first_separator(s)),
    decreases n,
{
    if exists|j: int| 0 <= j < n && separator_at(s, j) {
        let j = choose|j: int| 0 <= j < n && separator_at(s, j);
        lemma_some_first_separator(s, j);
    } else {
        assert(first_separator_at(s, n));
    }
}

/// Every sequence has a first `:` or none.
proof fn lemma_some_host_end(rest: Seq<char>, n: int)
    requires
        0 <= n <= rest.len(),
        forall|i: int| 0 <= i < n ==> #[trigger] rest[i] != ':',
    ensures
        host_ends_at(rest, host_end(rest)),
    decreases rest.len() - n,
{
    if n < rest.len() && rest[n] != ':' {
        lemma_some_host_end(rest, n + 1);
    } else {
        assert(host_ends_at(rest, n));
    }
}

/// The host of an origin holds at most one `*`.
proof fn lemma_host_of_origin(s: Seq<char>)
    requires
        class_of(s) is Some,
    ensures
        class_of(s) matches Some(OriginClassView::Full { host, .. }) ==> !many_stars(host),
{
    if let Some(OriginClassView::Full { host, .. }) = class_of(s) {
        if many_stars(host) {
            let (i, j) = choose|i: int, j: int|
                0 <= i < j < host.len() && host[i] == '*' && host[j] == '*';
            let n = choose|n: int| separator_at(s, n);
            lemma_some_first_separator(s, n);
            let at = first_separator(s);
            let rest = s.subrange(at + 3, s.len() as int);
            lemma_some_host_end(rest, 0);
            let c = host_end(rest);
            assert(host == rest.subrange(0, c));
            assert(s[at + 3 + i] == host[i]);
            assert(s[at + 3 + j] == host[j]);
            assert(many_stars(s));
        }
    }
}

/// What each of the origins stands for, or the position of the first item
/// that is no origin.
fn classes_of(origins: &Vec<String>) -> (r: Result<Vec<OriginClass>, usize>)
    ensures
        match r {
            Ok(classes) => {
                &&& classes.len() == origins.len()
                &&& forall|i: int|
                    0 <= i < classes.len() ==> class_of(#[trigger] views(origins@)[i]) == Some(
                        classes@[i]@,
                    )
            },
            Err(at) => first_non_origin_at(views(origins@), at as int),
        },
{
    let ghost items = views(origins@);
    let mut classes: Vec<OriginClass> = Vec::new();
    let mut i: usize = 0;
    while i < origins.len()
        invariant
            i <= origins.len(),
            items == views(origins@),
            classes.len() == i,
            forall|j: int| 0 <= j < i ==> class_of(#[trigger] items[j]) == Some(classes@[j]@),
        decreases origins.len() - i,
    {
        assert(items[i as int] == origins@[i as int]@);
        match classify(origins[i].as_str()) {
            Ok(class) => {
                classes.push(class);
            },
            Err(_) => {
                assert(class_of(items[i as int]) is None);
                return Err(i);
            },
        }
        i += 1;
    }
    Ok(classes)
}

/// Whether the host of `class`, if it has one, holds at most one `*`.
spec fn one_star_at_most(class: OriginClassView) -> bool {
    class matches OriginClassView::Full { host, .. } ==> !many_stars(host)
}

/// Whether two entries of a list of origins exclude each other.
fn excluding(a: &OriginClass, b: &OriginClass) -> (r: bool)
    requires
        one_star_at_most(a@),
        one_star_at_most(b@),
    ensures
        r == excludes(a@, b@),
{
    match (a, b) {
        (OriginClass::Universal, _) => true,
        (_, OriginClass::Universal) => true,
        (OriginClass::SchemeOnly(s), OriginClass::SchemeOnly(t)) => *s == *t,
        (OriginClass::SchemeOnly(s), OriginClass::Full { scheme, host: _, port: _ }) => {
            *s == *scheme
        },
        (OriginClass::Full { scheme, host: _, port: _ }, OriginClass::SchemeOnly(s)) => {
            *s == *scheme
        },
        (
            OriginClass::Full { scheme: s, host: g, port: _ },
            OriginClass::Full { scheme: t, host: h, port: _ },
        ) => {
            if *s == *t {
                let g = chars_of(g.as_str());
                let h = chars_of(h.as_str());
                overlap(&g, &h)
            } else {
                false
            }
        },
    }
}

/// The first two of the classes that exclude each other, if any do.
fn first_excluding(classes: &Vec<OriginClass>) -> (r: Option<(usize, usize)>)
    requires
        forall|i: int| 0 <= i < classes.len() ==> one_star_at_most((#[trigger] classes@[i])@),
    ensures
        match r {
            Some((a, b)) => {
                &&& a < b < classes.len()
                &&& excludes(classes@[a as int]@, classes@[b as int]@)
                &&& forall|i: int, j: int|
                    0 <= i < j < classes.len() && pair_before(i, j, a as int, b as int)
                        ==> !excludes((#[trigger] classes@[i])@, (#[trigger] classes@[j])@)
            },
            None => forall|i: int, j: int|
                0 <= i < j < classes.len() ==> !excludes(
                    (#[trigger] classes@[i])@,
                    (#[trigger] classes@[j])@,
                ),
        },
{
    let mut a: usize = 0;
    while a < classes.len()
        invariant
            a <= classes.len(),
            forall|i: int| 0 <= i < classes.len() ==> one_star_at_most((#[trigger] classes@[i])@),
            forall|i: int, j: int|
                0 <= i < j < classes.len() && i < a ==> !excludes(
                    (#[trigger] classes@[i])@,
                    (#[trigger] classes@[j])@,
                ),
        decreases classes.len() - a,
    {
        let mut b: usize = a + 1;
        while b < classes.len()
            invariant
                a < b <= classes.len(),
                forall|i: int|
                    0 <= i < classes.len() ==> one_star_at_most((#[trigger] classes@[i])@),
                forall|i: int, j: int|
                    0 <= i < j < classes.len() && i < a ==> !excludes(
                        (#[trigger] classes@[i])@,
                        (#[trigger] classes@[j])@,
                    ),
                forall|j: int|
                    a < j < b ==> !excludes(classes@[a as int]@, (#[trigger] classes@[j])@),
            decreases classes.len() - b,
        {
            if excluding(&classes[a], &classes[b]) {
                return Some((a, b));
            }
            b += 1;
        }
        a += 1;
    }
    None
}

/// What is wrong with a list of origins and where, if anything.
pub fn find_origin_fault(origins: &Vec<String>) -> (r: Option<OriginListFault>)
    ensures
        r == origin_list_fault(views(origins@)),
{
    let ghost items = views(origins@);
    if origins.len() == 0 {
        return Some(OriginListFault::Empty);
    }
    let classes = match classes_of(origins) {
        Err(at) => {
            proof {
                lemma_first_non_origin(items, at as int);
            }
            return Some(OriginListFault::NotAnOrigin(at));
        },
        Ok(classes) => classes,
    };
    proof {
        assert forall|i: int| 0 <= i < classes.len() implies one_star_at_most(
            (#[trigger] classes@[i])@,
        ) by {
            assert(class_of(items[i]) == Some(classes@[i]@));
            lemma_host_of_origin(items[i]);
        }
        if exists|i: int| first_non_origin_at(items, i) {
            let i = choose|i: int| first_non_origin_at(items, i);
            assert(class_of(items[i]) == Some(classes@[i]@));
        }
        assert forall|i: int, j: int| 0 <= i < j < items.len() implies #[trigger] clash(
            items,
            i,
            j,
        ) == excludes(classes@[i]@, classes@[j]@) by {
            assert(class_of(items[i]) == Some(classes@[i]@));
            assert(class_of(items[j]) == Some(classes@[j]@));
        }
    }
    match first_excluding(&classes) {
        Some((a, b)) => {
            proof {
                assert(first_clash_at(items, a as int, b as int));
                lemma_first_clash(items, a as int, b as int);
            }
            Some(OriginListFault::Exclusive(a, b))
        },
        None => {
            proof {
                if exists|i: int, j: int| first_clash_at(items, i, j) {
                    let (i, j) = choose|i: int, j: int| first_clash_at(items, i, j);
                    assert(clash(items, i, j));
                }
            }
            None
        },
    }
}

/// Checks the origins of a CORS rule, each by itself and then the list as a
/// whole. A list that passes comes back as it is.
///
/// An empty list is refused as missing data. A list with an item that is no
/// origin is refused for its format. Else the list is refused as incompatible
/// if two entries exclude each other: `*` and any other entry; a scheme that
/// stands alone twice; a scheme alone and an entry with a host under that
/// scheme; and two entries of one scheme whose hosts match the same host
/// name. [`find_origin_fault`] tells which items are at fault.
pub fn validated_origins(origins: Vec<String>) -> (r: Result<Vec<String>, ValidationError>)
    ensures
        match r {
            Ok(checked) => checked == origins && origins_fault(views(origins@)) is None,
            Err(e) => origins_fault(views(origins@)) == Some(e),
        },
{
    proof {
        lemma_fault_of_list(views(origins@));
    }
    match find_origin_fault(&origins) {
        Some(fault) => Err(fault.to_error()),
        None => Ok(origins),
    }
}

} // verus!
