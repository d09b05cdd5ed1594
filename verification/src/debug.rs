//! The trace viewer's request handling: routing, query-string decoding and
//! the trace query built from it, plus the `--since`, `--today` and `--ago`
//! filters.

use vstd::prelude::*;
use vstd::string::*;
use vstd::utf8::{decode_utf8, encode_utf8, valid_utf8};
use crate::text::{chars_of, find_char, matches_at, rfind_char, string_of_range};

verus! {

broadcast use vstd::string::group_string_axioms;

/// The extension of `path`: what follows its last `.`, if it has one.
pub open spec fn extension(path: Seq<char>) -> Option<Seq<char>> {
    if exists|i: int| 0 <= i < path.len() && path[i] == '.' {
        let i = choose|i: int| 0 <= i < path.len() && path[i] == '.' && forall|j: int| i < j < path.len() ==> path[j] != '.';
        Some(path.skip(i + 1))
    } else {
        None
    }
}

/// The content type served for a file with extension `ext`.
pub open spec fn content_type_of(ext: Option<Seq<char>>) -> Seq<char> {
    match ext {
        Some(e) => if e == "css"@ {
            "text/css; charset=utf-8"@
        } else if e == "html"@ {
            "text/html; charset=utf-8"@
        } else if e == "js"@ {
            "text/javascript; charset=utf-8"@
        } else if e == "json"@ {
            "application/json"@
        } else if e == "svg"@ {
            "image/svg+xml"@
        } else {
            "application/octet-stream"@
        },
        None => "application/octet-stream"@,
    }
}

/// Whether `v[from..]` is exactly `lit`.
fn tail_is(v: &Vec<char>, from: usize, lit: &str) -> (r: bool)
    requires
        from <= v@.len(),
    ensures
        r == (v@.skip(from as int) == lit@),
{
    let l = chars_of(lit);
    if v.len() - from != l.len() {
        return false;
    }
    let r = matches_at(v.as_slice(), from, l.as_slice());
    assert(v@.subrange(from as int, from + l@.len()) == v@.skip(from as int));
    r
}

/// The content type for a served path, by its extension.
pub fn content_type(path: &str) -> (t: &'static str)
    ensures
        t@ == content_type_of(extension(path@)),
{
    let v = chars_of(path);
    match rfind_char(v.as_slice(), 0, v.len(), '.') {
        None => "application/octet-stream",
        Some(i) => {
            proof {
                let j = choose|j: int| 0 <= j < path@.len() && path@[j] == '.' && forall|k: int| j < k < path@.len() ==> path@[k] != '.';
                assert(j == i);
            }
            let from = i + 1;
            if tail_is(&v, from, "css") {
                "text/css; charset=utf-8"
            } else if tail_is(&v, from, "html") {
                "text/html; charset=utf-8"
            } else if tail_is(&v, from, "js") {
                "text/javascript; charset=utf-8"
            } else if tail_is(&v, from, "json") {
                "application/json"
            } else if tail_is(&v, from, "svg") {
                "image/svg+xml"
            } else {
                "application/octet-stream"
            }
        },
    }
}

/// The value of an ASCII hexadecimal digit.
pub open spec fn hex_value(b: u8) -> Option<int> {
    if 48 <= b <= 57 {
        Some(b - 48)
    } else if 97 <= b <= 102 {
        Some(b - 87)
    } else if 65 <= b <= 70 {
        Some(b - 55)
    } else {
        None
    }
}

/// The byte written by the two characters after a `%` (`u8::from_str_radix`
/// on them with radix 16: an optional `+`, then hex digits).
pub open spec fn hex_pair(b1: u8, b2: u8) -> Option<u8> {
    if b1 == 43 {
        match hex_value(b2) {
            Some(l) => Some(l as u8),
            None => None,
        }
    } else {
        match (hex_value(b1), hex_value(b2)) {
            (Some(h), Some(l)) => Some((h * 16 + l) as u8),
            _ => None,
        }
    }
}

/// Decoding `bytes` from position `i`: `+` is a space, `%` with two more
/// bytes after it is the byte they write in hex (or a failure), and every
/// other byte stands for itself.
pub open spec fn decode_from(bytes: Seq<u8>, i: int) -> Option<Seq<u8>>
    decreases bytes.len() - i,
{
    if i < 0 || i >= bytes.len() {
        Some(Seq::empty())
    } else if bytes[i] == 43 {
        match decode_from(bytes, i + 1) {
            Some(r) => Some(seq![32u8] + r),
            None => None,
        }
    } else if bytes[i] == 37 && bytes.len() - i > 2 {
        match hex_pair(bytes[i + 1], bytes[i + 2]) {
            Some(b) => match decode_from(bytes, i + 3) {
                Some(r) => Some(seq![b] + r),
                None => None,
            },
            None => None,
        }
    } else {
        match decode_from(bytes, i + 1) {
            Some(r) => Some(seq![bytes[i]] + r),
            None => None,
        }
    }
}

/// The percent-decoded text of `s`, when its escapes are well formed and the
/// decoded bytes are UTF-8.
pub open spec fn percent_decoded(s: Seq<char>) -> Option<Seq<char>> {
    match decode_from(encode_utf8(s), 0) {
        Some(b) => if valid_utf8(b) {
            Some(decode_utf8(b))
        } else {
            None
        },
        None => None,
    }
}

/// The text that UTF-8 `bytes` encode, if they are valid UTF-8
/// (`String::from_utf8(bytes).ok()`).
#[verifier::external_body]
fn string_from_utf8(bytes: Vec<u8>) -> (r: Option<String>)
    ensures
        r is Some <==> valid_utf8(bytes@),
        r matches Some(s) ==> s@ == decode_utf8(bytes@),
{
    String::from_utf8(bytes).ok()
}

fn hex_digit(b: u8) -> (r: Option<u8>)
    ensures
        match r {
            Some(d) => hex_value(b) == Some(d as int) && d < 16,
            None => hex_value(b) is None,
        },
{
    if 48 <= b && b <= 57 {
        Some(b - 48)
    } else if 97 <= b && b <= 102 {
        Some(b - 87)
    } else if 65 <= b && b <= 70 {
        Some(b - 55)
    } else {
        None
    }
}

fn hex_byte(b1: u8, b2: u8) -> (r: Option<u8>)
    ensures
        r == hex_pair(b1, b2),
{
    if b1 == 43 {
        hex_digit(b2)
    } else {
        match (hex_digit(b1), hex_digit(b2)) {
            (Some(h), Some(l)) => Some(h * 16 + l),
            _ => None,
        }
    }
}

/// Percent-decode `value` (`+` is a space, `%XX` a byte).
pub fn percent_decode(value: &str) -> (r: Option<String>)
    ensures
        match r {
            Some(s) => percent_decoded(value@) == Some(s@),
            None => percent_decoded(value@) is None,
        },
{
    let bytes = value.as_bytes();
    let ghost b = bytes@;
    let mut out: Vec<u8> = Vec::new();
    let mut i: usize = 0;
    while i < bytes.len()
        invariant
            i <= bytes@.len(),
            b == bytes@,
            b == encode_utf8(value@),
            decode_from(b, 0) == match decode_from(b, i as int) {
                Some(r) => Some(out@ + r),
                None => None::<Seq<u8>>,
            },
        decreases bytes@.len() - i,
    {
        let ghost before = out@;
        if bytes[i] == 43 {
            out.push(32);
            proof {
                match decode_from(b, i + 1) {
                    Some(r) => assert(before + (seq![32u8] + r) == out@ + r),
                    None => {},
                }
            }
            i = i + 1;
        } else if bytes[i] == 37 && bytes.len() - i > 2 {
            match hex_byte(bytes[i + 1], bytes[i + 2]) {
                Some(x) => {
                    out.push(x);
                    proof {
                        match decode_from(b, i + 3) {
                            Some(r) => assert(before + (seq![x] + r) == out@ + r),
                            None => {},
                        }
                    }
                    i = i + 3;
                },
                None => {
                    assert(decode_from(b, i as int) is None);
                    return None;
                },
            }
        } else {
            let x = bytes[i];
            out.push(x);
            proof {
                match decode_from(b, i + 1) {
                    Some(r) => assert(before + (seq![x] + r) == out@ + r),
                    None => {},
                }
            }
            i = i + 1;
        }
    }
    assert(out@ + Seq::<u8>::empty() == out@);
    string_from_utf8(out)
}

} // verus!

verus! {

/// Splitting on `sep`, with `cur` the piece read so far (`str::split`: every
/// separator ends a piece, empty pieces included).
pub open spec fn split_from(s: Seq<char>, sep: char, cur: Seq<char>) -> Seq<Seq<char>>
    decreases s.len(),
{
    if s.len() == 0 {
        seq![cur]
    } else if s[0] == sep {
        seq![cur] + split_from(s.drop_first(), sep, Seq::empty())
    } else {
        split_from(s.drop_first(), sep, cur.push(s[0]))
    }
}

/// The pieces of `s` between occurrences of `sep`.
pub open spec fn split_on(s: Seq<char>, sep: char) -> Seq<Seq<char>> {
    split_from(s, sep, Seq::empty())
}

/// Reading a run without separators moves it onto the current piece.
proof fn lemma_split_run(t: Seq<char>, sep: char, cur: Seq<char>, k: int)
    requires
        0 <= k <= t.len(),
        forall|j: int| 0 <= j < k ==> t[j] != sep,
    ensures
        split_from(t, sep, cur) == split_from(t.skip(k), sep, cur + t.take(k)),
    decreases k,
{
    if k == 0 {
        assert(t.skip(0) == t);
        assert(cur + t.take(0) == cur);
    } else {
        assert(t[0] != sep);
        let t1 = t.drop_first();
        lemma_split_run(t1, sep, cur.push(t[0]), k - 1);
        assert(t1.skip(k - 1) == t.skip(k));
        assert(cur.push(t[0]) + t1.take(k - 1) == cur + t.take(k));
    }
}

/// The pieces named by ranges of `v`.
pub open spec fn range_views(v: Seq<char>, rs: Seq<(usize, usize)>) -> Seq<Seq<char>> {
    rs.map_values(|r: (usize, usize)| v.subrange(r.0 as int, r.1 as int))
}

/// The ranges of the pieces of `v` between occurrences of `sep`.
pub fn split_ranges(v: &[char], sep: char) -> (rs: Vec<(usize, usize)>)
    ensures
        range_views(v@, rs@) == split_on(v@, sep),
        forall|k: int| 0 <= k < rs@.len() ==> #[trigger] rs@[k].0 <= rs@[k].1 <= v@.len(),
{
    let n = v.len();
    let mut rs: Vec<(usize, usize)> = Vec::new();
    let mut start: usize = 0;
    let mut done = false;
    assert(v@.skip(0) == v@);
    while !done
        invariant
            n == v@.len(),
            start <= n,
            forall|k: int| 0 <= k < rs@.len() ==> #[trigger] rs@[k].0 <= rs@[k].1 <= v@.len(),
            !done ==> range_views(v@, rs@) + split_on(v@.skip(start as int), sep) == split_on(v@, sep),
            done ==> range_views(v@, rs@) == split_on(v@, sep),
        decreases (if done { 0int } else { 1int }) + n - start,
    {
        let ghost t = v@.skip(start as int);
        let ghost before = range_views(v@, rs@);
        let ghost old_rs = rs@;
        match find_char(v, start, n, sep) {
            Some(e) => {
                proof {
                    lemma_split_run(t, sep, Seq::empty(), e - start);
                    let rest = t.skip(e - start);
                    assert(rest[0] == sep);
                    assert(rest.drop_first() == v@.skip(e + 1));
                    assert(Seq::<char>::empty() + t.take(e - start) == v@.subrange(start as int, e as int));
                }
                rs.push((start, e));
                assert(rs@[rs@.len() - 1] == (start, e));
                assert forall|k: int| 0 <= k < rs@.len() implies #[trigger] rs@[k].0 <= rs@[k].1 <= v@.len() by {
                    if k < old_rs.len() {
                        assert(rs@[k] == old_rs[k]);
                    }
                }
                assert(range_views(v@, rs@) == before.push(v@.subrange(start as int, e as int)));
                start = e + 1;
            },
            None => {
                proof {
                    lemma_split_run(t, sep, Seq::empty(), n - start);
                    assert(t.skip(n - start).len() == 0);
                    assert(Seq::<char>::empty() + t.take(n - start) == v@.subrange(start as int, n as int));
                }
                rs.push((start, n));
                assert(rs@[rs@.len() - 1] == (start, n));
                assert forall|k: int| 0 <= k < rs@.len() implies #[trigger] rs@[k].0 <= rs@[k].1 <= v@.len() by {
                    if k < old_rs.len() {
                        assert(rs@[k] == old_rs[k]);
                    }
                }
                assert(range_views(v@, rs@) == before.push(v@.subrange(start as int, n as int)));
                done = true;
            },
        }
    }
    rs
}

/// The key and value of a query piece: around its first `=`, or the whole
/// piece and an empty value.
pub open spec fn pair_of(part: Seq<char>) -> (Seq<char>, Seq<char>) {
    if exists|i: int| 0 <= i < part.len() && part[i] == '=' {
        let i = choose|i: int| 0 <= i < part.len() && part[i] == '=' && forall|j: int| 0 <= j < i ==> part[j] != '=';
        (part.take(i), part.skip(i + 1))
    } else {
        (part, Seq::empty())
    }
}

/// The decoded pairs of the non-empty pieces, skipping those whose key or
/// value does not decode.
pub open spec fn query_pairs(parts: Seq<Seq<char>>) -> Seq<(Seq<char>, Seq<char>)>
    decreases parts.len(),
{
    if parts.len() == 0 {
        Seq::empty()
    } else {
        let rest = query_pairs(parts.drop_last());
        let p = parts.last();
        if p.len() == 0 {
            rest
        } else {
            match (percent_decoded(pair_of(p).0), percent_decoded(pair_of(p).1)) {
                (Some(k), Some(v)) => rest.push((k, v)),
                _ => rest,
            }
        }
    }
}

/// The decoded `key=value` pairs of a query string, in order.
pub open spec fn parse_query_spec(query: Seq<char>) -> Seq<(Seq<char>, Seq<char>)> {
    query_pairs(split_on(query, '&'))
}

/// The views of string pairs.
pub open spec fn pair_views(v: Seq<(String, String)>) -> Seq<(Seq<char>, Seq<char>)> {
    v.map_values(|p: (String, String)| (p.0@, p.1@))
}

/// The decoded `key=value` pairs of a query string, in order. They are kept
/// as a list rather than a hash map: the map's contracts hold only for keys
/// with a known hash model (integers), not for text, so a lookup
/// ([`query_param`]) takes the last pair for a key, as collecting the pairs
/// into a map would keep it.
pub fn parse_query(query: &str) -> (pairs: Vec<(String, String)>)
    ensures
        pair_views(pairs@) == parse_query_spec(query@),
{
    let v = chars_of(query);
    let rs = split_ranges(v.as_slice(), '&');
    let ghost parts = range_views(v@, rs@);
    let mut out: Vec<(String, String)> = Vec::new();
    let mut k: usize = 0;
    while k < rs.len()
        invariant
            k <= rs@.len(),
            parts == range_views(v@, rs@),
            forall|j: int| 0 <= j < rs@.len() ==> #[trigger] rs@[j].0 <= rs@[j].1 <= v@.len(),
            pair_views(out@) == query_pairs(parts.take(k as int)),
        decreases rs@.len() - k,
    {
        assert(parts.take((k + 1) as int).drop_last() == parts.take(k as int));
        let (a, b) = rs[k];
        assert(rs@[k as int] == (a, b));
        let ghost p = v@.subrange(a as int, b as int);
        assert(parts.take((k + 1) as int).last() == p);
        if a < b {
            let (key, value) = match find_char(v.as_slice(), a, b, '=') {
                Some(e) => {
                    proof {
                        let i = choose|i: int| 0 <= i < p.len() && p[i] == '=' && forall|j: int| 0 <= j < i ==> p[j] != '=';
                        assert(p[e - a] == '=');
                        if i < e - a {
                            assert(v@[a + i] == '=');
                        }
                        if i > e - a {
                            assert(p[e - a] != '=');
                        }
                        assert(p.take(e - a) == v@.subrange(a as int, e as int));
                        assert(p.skip(e - a + 1) == v@.subrange(e + 1, b as int));
                    }
                    (string_of_range(v.as_slice(), a, e), string_of_range(v.as_slice(), e + 1, b))
                },
                None => {
                    proof {
                        if exists|i: int| 0 <= i < p.len() && p[i] == '=' {
                            let i = choose|i: int| 0 <= i < p.len() && p[i] == '=';
                            assert(v@[a + i] == '=');
                        }
                    }
                    (string_of_range(v.as_slice(), a, b), String::new())
                },
            };
            assert(pair_of(p) == (key@, value@));
            match (percent_decode(key.as_str()), percent_decode(value.as_str())) {
                (Some(dk), Some(dv)) => {
                    let ghost before = pair_views(out@);
                    out.push((dk, dv));
                    assert(pair_views(out@) == before.push((dk@, dv@)));
                },
                _ => {},
            }
        }
        k = k + 1;
    }
    assert(parts.take(rs@.len() as int) == parts);
    out
}

/// The value of the last pair for `key` (later pairs override earlier ones).
pub open spec fn last_value(pairs: Seq<(Seq<char>, Seq<char>)>, key: Seq<char>) -> Option<Seq<char>>
    decreases pairs.len(),
{
    if pairs.len() == 0 {
        None
    } else if pairs.last().0 == key {
        Some(pairs.last().1)
    } else {
        last_value(pairs.drop_last(), key)
    }
}

/// The value of query parameter `key`: that of its last pair.
pub fn query_param(pairs: &Vec<(String, String)>, key: &str) -> (r: Option<String>)
    ensures
        match r {
            Some(v) => last_value(pair_views(pairs@), key@) == Some(v@),
            None => last_value(pair_views(pairs@), key@) is None,
        },
{
    let k = chars_of(key);
    let ghost pv = pair_views(pairs@);
    let mut i: usize = pairs.len();
    assert(pv.take(pairs@.len() as int) == pv);
    while i > 0
        invariant
            i <= pairs@.len(),
            k@ == key@,
            pv == pair_views(pairs@),
            last_value(pv, key@) == last_value(pv.take(i as int), key@),
        decreases i,
    {
        assert(pv.take(i as int).drop_last() == pv.take(i - 1));
        assert(pv.take(i as int).last() == (pairs@[i - 1].0@, pairs@[i - 1].1@));
        let name = chars_of(pairs[i - 1].0.as_str());
        if crate::text::same_chars(name.as_slice(), k.as_slice()) {
            return Some(pairs[i - 1].1.clone());
        }
        i = i - 1;
    }
    None
}

} // verus!

verus! {

/// `chrono`'s error for text that is not a date and time.
#[verifier::external_type_specification]
#[verifier::external_body]
pub struct ExParseError(chrono::ParseError);

/// An instant, as whole seconds since the Unix epoch and nanoseconds within
/// the second.
#[derive(Debug, Clone, Copy, PartialEq, Eq, Structural)]
pub struct Timestamp {
    pub secs: i64,
    pub nanos: u32,
}

/// The instant that RFC 3339 text names, as `(seconds, nanoseconds)` since
/// the Unix epoch, if the text is RFC 3339 (as `chrono` reads it).
pub uninterp spec fn rfc3339_instant(s: Seq<char>) -> Option<(i64, u32)>;

/// `chrono::DateTime::parse_from_rfc3339`: reads RFC 3339 text. The
/// contract names the instant read (which depends on the text alone) and
/// says that the parse fails exactly when no instant is named; what `chrono`
/// accepts as RFC 3339 is not restated.
#[verifier::external_body]
fn parse_rfc3339(s: &str) -> (r: Result<Timestamp, chrono::ParseError>)
    ensures
        match r {
            Ok(t) => rfc3339_instant(s@) == Some((t.secs, t.nanos)),
            Err(_) => rfc3339_instant(s@) is None,
        },
{
    match chrono::DateTime::parse_from_rfc3339(s) {
        Ok(d) => Ok(Timestamp { secs: d.timestamp(), nanos: d.timestamp_subsec_nanos() }),
        Err(e) => Err(e),
    }
}

/// The instant an absolute `--since` (or `since=`) value names.
pub fn parse_since(value: &str) -> (r: Result<Timestamp, chrono::ParseError>)
    ensures
        match r {
            Ok(t) => rfc3339_instant(value@) == Some((t.secs, t.nanos)),
            Err(_) => rfc3339_instant(value@) is None,
        },
{
    parse_rfc3339(value)
}

/// Filters given on the command line, applied when a request gives none.
#[derive(Debug, Clone)]
pub struct DebugFilters {
    pub session_id: Option<String>,
    pub since: Option<Timestamp>,
}

impl Default for DebugFilters {
    /// No filters.
    fn default() -> (f: DebugFilters)
        ensures
            f.session_id is None,
            f.since is None,
    {
        DebugFilters { session_id: None, since: None }
    }
}

/// A query over the trace table.
#[derive(Debug)]
pub struct TraceQuery {
    pub after_id: Option<u64>,
    pub session_id: Option<String>,
    pub since: Option<Timestamp>,
    pub method: Option<String>,
    pub dir: Option<crate::db::TraceDirection>,
    pub limit: Option<u32>,
}

/// Why a trace request's parameters were refused.
#[derive(Debug)]
pub enum QueryError {
    /// `dir` names no direction.
    InvalidDirection(crate::db::TraceParseError),
    /// `since` is not RFC 3339.
    InvalidSince(chrono::ParseError),
}

/// The mathematical value of a [`TraceQuery`].
pub struct TraceQueryView {
    pub after_id: Option<u64>,
    pub session_id: Option<Seq<char>>,
    pub since: Option<(i64, u32)>,
    pub method: Option<Seq<char>>,
    pub dir: Option<crate::db::TraceDirection>,
    pub limit: Option<u32>,
}

/// The mathematical value of a [`QueryError`].
pub enum QueryErrorView {
    InvalidDirection(Seq<char>),
    InvalidSince,
}

/// An optional value that is present and not empty.
pub open spec fn non_empty(v: Option<Seq<char>>) -> Option<Seq<char>> {
    match v {
        Some(s) => if s.len() > 0 {
            Some(s)
        } else {
            None
        },
        None => None,
    }
}

/// A parameter read as an unsigned number no greater than `max`, when it is one.
pub open spec fn number_param(v: Option<Seq<char>>, max: int) -> Option<int> {
    match v {
        Some(s) => match crate::number::parse_unsigned(s, max) {
            Ok(n) => Some(n),
            Err(_) => None,
        },
        None => None,
    }
}

/// The trace query that request parameters ask for, with the command-line
/// filters (`session`, `since`) as fallbacks: `after_id` and `limit` when
/// they are numbers, `session` and `method` as given (an empty `method` is
/// none), `dir` as a direction (an error if it names none), `since` as an
/// RFC 3339 instant (an error if it is not one). A bad `dir` is reported
/// before a bad `since`.
pub open spec fn trace_query_spec(
    params: Seq<(Seq<char>, Seq<char>)>,
    session_filter: Option<Seq<char>>,
    since_filter: Option<(i64, u32)>,
) -> Result<TraceQueryView, QueryErrorView> {
    let dir_text = non_empty(last_value(params, "dir"@));
    let since_text = non_empty(last_value(params, "since"@));
    if dir_text is Some && crate::db::direction_of(dir_text.unwrap()) is None {
        Err(QueryErrorView::InvalidDirection(dir_text.unwrap()))
    } else if since_text is Some && rfc3339_instant(since_text.unwrap()) is None {
        Err(QueryErrorView::InvalidSince)
    } else {
        Ok(TraceQueryView {
            after_id: match number_param(last_value(params, "after_id"@), u64::MAX as int) {
                Some(n) => Some(n as u64),
                None => None,
            },
            session_id: match last_value(params, "session"@) {
                Some(s) => Some(s),
                None => session_filter,
            },
            since: match since_text {
                Some(s) => rfc3339_instant(s),
                None => since_filter,
            },
            method: non_empty(last_value(params, "method"@)),
            dir: match dir_text {
                Some(d) => crate::db::direction_of(d),
                None => None,
            },
            limit: match number_param(last_value(params, "limit"@), u32::MAX as int) {
                Some(n) => Some(n as u32),
                None => None,
            },
        })
    }
}

fn opt_str_view(o: &Option<String>) -> (r: Option<String>)
    ensures
        crate::dispatcher::opt_view(r) == crate::dispatcher::opt_view(*o),
{
    match o {
        Some(s) => Some(s.clone()),
        None => None,
    }
}

fn drop_empty(o: Option<String>) -> (r: Option<String>)
    ensures
        crate::dispatcher::opt_view(r) == non_empty(crate::dispatcher::opt_view(o)),
{
    match o {
        Some(s) => if s.unicode_len() > 0 {
            Some(s)
        } else {
            None
        },
        None => None,
    }
}

/// The trace query that a request's parameters ask for.
pub fn trace_query_from_params(params: &Vec<(String, String)>, filters: DebugFilters) -> (r: Result<TraceQuery, QueryError>)
    ensures
        match (r, trace_query_spec(pair_views(params@), crate::dispatcher::opt_view(filters.session_id), match filters.since {
            Some(t) => Some((t.secs, t.nanos)),
            None => None,
        })) {
            (Ok(q), Ok(v)) => q.after_id == v.after_id && crate::dispatcher::opt_view(q.session_id) == v.session_id
                && (match q.since {
                    Some(t) => Some((t.secs, t.nanos)),
                    None => None,
                }) == v.since && crate::dispatcher::opt_view(q.method) == v.method && q.dir == v.dir && q.limit == v.limit,
            (Err(QueryError::InvalidDirection(e)), Err(QueryErrorView::InvalidDirection(d))) => e.0@ == d,
            (Err(QueryError::InvalidSince(_)), Err(QueryErrorView::InvalidSince)) => true,
            _ => false,
        },
{
    let after_id = match query_param(params, "after_id") {
        Some(v) => match crate::number::parse_unsigned_text(v.as_str(), u64::MAX) {
            Ok(n) => Some(n),
            Err(_) => None,
        },
        None => None,
    };
    let session_id = match query_param(params, "session") {
        Some(s) => Some(s),
        None => opt_str_view(&filters.session_id),
    };
    let method = drop_empty(query_param(params, "method"));
    let dir = match drop_empty(query_param(params, "dir")) {
        Some(d) => match crate::db::TraceDirection::parse(d.as_str()) {
            Ok(x) => Some(x),
            Err(e) => {
                return Err(QueryError::InvalidDirection(e));
            },
        },
        None => None,
    };
    let limit = match query_param(params, "limit") {
        Some(v) => match crate::number::parse_unsigned_text(v.as_str(), u32::MAX as u64) {
            Ok(n) => Some(n as u32),
            Err(_) => None,
        },
        None => None,
    };
    let since = match drop_empty(query_param(params, "since")) {
        Some(s) => match parse_since(s.as_str()) {
            Ok(t) => Some(t),
            Err(e) => {
                return Err(QueryError::InvalidSince(e));
            },
        },
        None => filters.since,
    };
    Ok(TraceQuery { after_id, session_id, since, method, dir, limit })
}

/// The number of rows a trace query returns at most: its limit (500 by
/// default), capped at 5000.
pub fn effective_limit(limit: Option<u32>) -> (n: usize)
    ensures
        n == (match limit {
            Some(l) => if l < 5000 { l as int } else { 5000 },
            None => 500,
        }),
{
    let l = match limit {
        Some(l) => l,
        None => 500,
    };
    if l < 5000 {
        l as usize
    } else {
        5000
    }
}

} // verus!

verus! {

/// The first line of a request: up to its first newline (less a `\r` just
/// before it), or all of it; none for an empty request (`str::lines`).
pub open spec fn first_line(req: Seq<char>) -> Option<Seq<char>> {
    if req.len() == 0 {
        None
    } else if exists|i: int| 0 <= i < req.len() && req[i] == '\n' {
        let i = choose|i: int| 0 <= i < req.len() && req[i] == '\n' && forall|j: int| 0 <= j < i ==> req[j] != '\n';
        let l = req.take(i);
        Some(
            if l.len() > 0 && l.last() == '\r' {
                l.drop_last()
            } else {
                l
            },
        )
    } else {
        Some(req)
    }
}

/// `s` split at its first `c` (without it), or all of `s` and nothing.
pub open spec fn split_once(s: Seq<char>, c: char) -> (Seq<char>, Seq<char>) {
    if exists|i: int| 0 <= i < s.len() && s[i] == c {
        let i = choose|i: int| 0 <= i < s.len() && s[i] == c && forall|j: int| 0 <= j < i ==> s[j] != c;
        (s.take(i), s.skip(i + 1))
    } else {
        (s, Seq::empty())
    }
}

/// What a request to the trace viewer is answered with.
#[derive(Debug)]
pub enum Route {
    /// No request line: nothing is written.
    Ignore,
    /// `405 Method Not Allowed`: only `GET` is served.
    MethodNotAllowed,
    /// The traces the query string asks for, as JSON.
    Traces { query: String },
    /// An embedded asset (`404 Not Found` when there is no such asset).
    Asset { path: String },
    /// `404 Not Found`.
    NotFound,
}

/// The mathematical value of a [`Route`].
pub enum RouteView {
    Ignore,
    MethodNotAllowed,
    Traces { query: Seq<char> },
    Asset { path: Seq<char> },
    NotFound,
}

impl View for Route {
    type V = RouteView;

    open spec fn view(&self) -> RouteView {
        match self {
            Route::Ignore => RouteView::Ignore,
            Route::MethodNotAllowed => RouteView::MethodNotAllowed,
            Route::Traces { query } => RouteView::Traces { query: query@ },
            Route::Asset { path } => RouteView::Asset { path: path@ },
            Route::NotFound => RouteView::NotFound,
        }
    }
}

/// How a request is answered: by its request line's method and target.
/// `/` and `/index.html` serve the index page, `/api/traces` the traces,
/// any other `/NAME` the asset `NAME`.
pub open spec fn route_spec(req: Seq<char>) -> RouteView {
    match first_line(req) {
        None => RouteView::Ignore,
        Some(line) => {
            let words = crate::text::split_ws(line);
            let method = if words.len() > 0 { words[0] } else { Seq::<char>::empty() };
            let target = if words.len() > 1 { words[1] } else { Seq::<char>::empty() };
            let (path, query) = split_once(target, '?');
            if method != "GET"@ {
                RouteView::MethodNotAllowed
            } else if path == "/"@ || path == "/index.html"@ {
                RouteView::Asset { path: "index.html"@ }
            } else if path == "/api/traces"@ {
                RouteView::Traces { query }
            } else if path.len() > 1 && path[0] == '/' {
                RouteView::Asset { path: path.drop_first() }
            } else {
                RouteView::NotFound
            }
        },
    }
}

fn is_text(v: &[char], lit: &str) -> (r: bool)
    ensures
        r == (v@ == lit@),
{
    let l = chars_of(lit);
    crate::text::same_chars(v, l.as_slice())
}

/// How the trace viewer answers `request` (the request's text).
pub fn route_request(request: &str) -> (r: Route)
    ensures
        r@ == route_spec(request@),
{
    let v = chars_of(request);
    if v.len() == 0 {
        return Route::Ignore;
    }
    let end = match find_char(v.as_slice(), 0, v.len(), '\n') {
        Some(e) => {
            proof {
                let i = choose|i: int| 0 <= i < request@.len() && request@[i] == '\n' && forall|j: int| 0 <= j < i ==> request@[j] != '\n';
                if i < e {
                    assert(v@[i] == '\n');
                }
                if i > e {
                    assert(request@[e as int] == '\n');
                }
            }
            if e > 0 && v[e - 1] == '\r' {
                assert(v@.take(e as int).drop_last() == v@.subrange(0, e - 1));
                e - 1
            } else {
                assert(v@.take(e as int) == v@.subrange(0, e as int));
                e
            }
        },
        None => {
            assert(v@.subrange(0, v@.len() as int) == v@);
            v.len()
        },
    };
    let ghost line = v@.subrange(0, end as int);
    assert(first_line(request@) == Some(line));
    let words = crate::text::split_whitespace(v.as_slice(), 0, end);
    let ghost ws = crate::text::views(words@);
    let empty: Vec<char> = Vec::new();
    let method: &Vec<char> = if words.len() > 0 { &words[0] } else { &empty };
    let target: &Vec<char> = if words.len() > 1 { &words[1] } else { &empty };
    assert(method@ == (if ws.len() > 0 { ws[0] } else { Seq::<char>::empty() }));
    assert(target@ == (if ws.len() > 1 { ws[1] } else { Seq::<char>::empty() }));
    let (pa, pb, qa, qb) = match find_char(target.as_slice(), 0, target.len(), '?') {
        Some(q) => {
            proof {
                let t = target@;
                let i = choose|i: int| 0 <= i < t.len() && t[i] == '?' && forall|j: int| 0 <= j < i ==> t[j] != '?';
                if i < q {
                    assert(t[i] == '?');
                }
                if i > q {
                    assert(t[q as int] == '?');
                }
                assert(t.take(q as int) == t.subrange(0, q as int));
                assert(t.skip(q + 1) == t.subrange(q + 1, t.len() as int));
            }
            (0, q, q + 1, target.len())
        },
        None => {
            assert(target@.subrange(0, target@.len() as int) == target@);
            (0, target.len(), target.len(), target.len())
        },
    };
    let path = string_of_range(target.as_slice(), pa, pb);
    let query = string_of_range(target.as_slice(), qa, qb);
    assert(split_once(target@, '?') == (path@, query@));
    if !is_text(method.as_slice(), "GET") {
        return Route::MethodNotAllowed;
    }
    let pc = chars_of(path.as_str());
    if is_text(pc.as_slice(), "/") || is_text(pc.as_slice(), "/index.html") {
        Route::Asset { path: String::from_str("index.html") }
    } else if is_text(pc.as_slice(), "/api/traces") {
        Route::Traces { query }
    } else if pc.len() > 1 && pc[0] == '/' {
        assert(pc@.subrange(1, pc@.len() as int) == pc@.drop_first());
        Route::Asset { path: string_of_range(pc.as_slice(), 1, pc.len()) }
    } else {
        Route::NotFound
    }
}

/// The unit of a relative `--ago` duration.
#[derive(Debug, Clone, Copy, PartialEq, Eq, Structural)]
pub enum AgoUnit {
    Minutes,
    Hours,
    Days,
}

/// Why an `--ago` duration was refused.
#[derive(Debug, Clone, Copy, PartialEq, Eq, Structural)]
pub enum AgoError {
    /// The amount before the unit is not an `i64`.
    InvalidAmount(crate::number::IntErrorKind),
    /// The duration does not end in `m`, `h` or `d`.
    InvalidUnit,
    /// The duration, or the instant that far back, is out of `chrono`'s
    /// range.
    OutOfRange,
}

/// An `--ago` value read as an amount and a unit: all but the last
/// character is the amount (checked first), the last character the unit.
pub open spec fn parse_ago_spec(value: Seq<char>) -> Result<(int, AgoUnit), AgoError> {
    let amount = if value.len() == 0 { value } else { value.drop_last() };
    let unit = if value.len() == 0 { value } else { seq![value.last()] };
    match crate::number::parse_signed(amount) {
        Err(k) => Err(AgoError::InvalidAmount(k)),
        Ok(n) => if unit == "m"@ {
            Ok((n, AgoUnit::Minutes))
        } else if unit == "h"@ {
            Ok((n, AgoUnit::Hours))
        } else if unit == "d"@ {
            Ok((n, AgoUnit::Days))
        } else {
            Err(AgoError::InvalidUnit)
        },
    }
}

/// Reads a relative duration such as `30m`, `2h` or `1d` as an amount and a
/// unit. The value is split before its last byte, so its last character must
/// be ASCII.
pub fn ago_parts(value: &str) -> (r: Result<(i64, AgoUnit), AgoError>)
    requires
        value@.len() == 0 || (value@.last() as u32) < 128,
    ensures
        match r {
            Ok((n, u)) => parse_ago_spec(value@) == Ok::<(int, AgoUnit), AgoError>((n as int, u)),
            Err(e) => parse_ago_spec(value@) == Err::<(int, AgoUnit), AgoError>(e),
        },
{
    let v = chars_of(value);
    let n = v.len();
    let cut = if n == 0 { 0 } else { n - 1 };
    let amount = string_of_range(v.as_slice(), 0, cut);
    assert(amount@ == (if value@.len() == 0 { value@ } else { value@.drop_last() }));
    let parsed = crate::number::parse_i64(amount.as_str());
    let k = match parsed {
        Ok(k) => k,
        Err(e) => {
            return Err(AgoError::InvalidAmount(e));
        },
    };
    let unit = string_of_range(v.as_slice(), cut, n);
    assert(unit@ == (if value@.len() == 0 { value@ } else { seq![value@.last()] }));
    let uc = chars_of(unit.as_str());
    if is_text(uc.as_slice(), "m") {
        Ok((k, AgoUnit::Minutes))
    } else if is_text(uc.as_slice(), "h") {
        Ok((k, AgoUnit::Hours))
    } else if is_text(uc.as_slice(), "d") {
        Ok((k, AgoUnit::Days))
    } else {
        Err(AgoError::InvalidUnit)
    }
}

/// The instant `n` minutes before `(secs, nanos)`, as `chrono` computes it;
/// `None` when the duration or the instant is out of `chrono`'s range.
pub uninterp spec fn minutes_before(secs: i64, nanos: u32, n: i64) -> Option<(i64, u32)>;

/// The instant `n` hours before `(secs, nanos)`, as `chrono` computes it;
/// `None` when the duration or the instant is out of `chrono`'s range.
pub uninterp spec fn hours_before(secs: i64, nanos: u32, n: i64) -> Option<(i64, u32)>;

/// The instant `n` days before `(secs, nanos)`, as `chrono` computes it;
/// `None` when the duration or the instant is out of `chrono`'s range.
pub uninterp spec fn days_before(secs: i64, nanos: u32, n: i64) -> Option<(i64, u32)>;

/// `chrono::TimeDelta::try_minutes`, subtracted from the instant `now` with
/// `DateTime::checked_sub_signed`. The contract names the instant (a function
/// of the arguments alone) and says that, away from a leap second, it lies
/// exactly `60 * n` seconds earlier with the same nanoseconds; the bounds
/// of `chrono`'s durations and dates are not restated.
#[verifier::external_body]
fn utc_minus_minutes(now: Timestamp, n: i64) -> (r: Option<Timestamp>)
    ensures
        match r {
            Some(t) => minutes_before(now.secs, now.nanos, n) == Some((t.secs, t.nanos)),
            None => minutes_before(now.secs, now.nanos, n) is None,
        },
        r matches Some(t) ==> (now.nanos < 1_000_000_000 ==> t.secs == now.secs - 60 * n && t.nanos == now.nanos),
{
    let start = chrono::DateTime::from_timestamp(now.secs, now.nanos)?;
    let delta = chrono::TimeDelta::try_minutes(n)?;
    match start.checked_sub_signed(delta) {
        Some(t) => Some(Timestamp { secs: t.timestamp(), nanos: t.timestamp_subsec_nanos() }),
        None => None,
    }
}

/// `chrono::TimeDelta::try_hours`, subtracted from the instant `now` with
/// `DateTime::checked_sub_signed`. The contract names the instant (a function
/// of the arguments alone) and says that, away from a leap second, it lies
/// exactly `3600 * n` seconds earlier with the same nanoseconds; the bounds
/// of `chrono`'s durations and dates are not restated.
#[verifier::external_body]
fn utc_minus_hours(now: Timestamp, n: i64) -> (r: Option<Timestamp>)
    ensures
        match r {
            Some(t) => hours_before(now.secs, now.nanos, n) == Some((t.secs, t.nanos)),
            None => hours_before(now.secs, now.nanos, n) is None,
        },
        r matches Some(t) ==> (now.nanos < 1_000_000_000 ==> t.secs == now.secs - 3600 * n && t.nanos == now.nanos),
{
    let start = chrono::DateTime::from_timestamp(now.secs, now.nanos)?;
    let delta = chrono::TimeDelta::try_hours(n)?;
    match start.checked_sub_signed(delta) {
        Some(t) => Some(Timestamp { secs: t.timestamp(), nanos: t.timestamp_subsec_nanos() }),
        None => None,
    }
}

/// `chrono::TimeDelta::try_days`, subtracted from the instant `now` with
/// `DateTime::checked_sub_signed`. The contract names the instant (a function
/// of the arguments alone) and says that, away from a leap second, it lies
/// exactly `86400 * n` seconds earlier with the same nanoseconds; the bounds
/// of `chrono`'s durations and dates are not restated.
#[verifier::external_body]
fn utc_minus_days(now: Timestamp, n: i64) -> (r: Option<Timestamp>)
    ensures
        match r {
            Some(t) => days_before(now.secs, now.nanos, n) == Some((t.secs, t.nanos)),
            None => days_before(now.secs, now.nanos, n) is None,
        },
        r matches Some(t) ==> (now.nanos < 1_000_000_000 ==> t.secs == now.secs - 86400 * n && t.nanos == now.nanos),
{
    let start = chrono::DateTime::from_timestamp(now.secs, now.nanos)?;
    let delta = chrono::TimeDelta::try_days(n)?;
    match start.checked_sub_signed(delta) {
        Some(t) => Some(Timestamp { secs: t.timestamp(), nanos: t.timestamp_subsec_nanos() }),
        None => None,
    }
}

/// The length of a unit in seconds.
pub open spec fn unit_secs(unit: AgoUnit) -> int {
    match unit {
        AgoUnit::Minutes => 60,
        AgoUnit::Hours => 3600,
        AgoUnit::Days => 86400,
    }
}

/// The instant `amount` units before `(secs, nanos)`, as `chrono` computes it.
pub open spec fn ago_instant(secs: i64, nanos: u32, amount: i64, unit: AgoUnit) -> Option<(i64, u32)> {
    match unit {
        AgoUnit::Minutes => minutes_before(secs, nanos, amount),
        AgoUnit::Hours => hours_before(secs, nanos, amount),
        AgoUnit::Days => days_before(secs, nanos, amount),
    }
}

/// The instant `amount` units before `now`; `None` when it is out of
/// `chrono`'s range. Away from a leap second it is `amount` units of
/// seconds earlier, with the same nanoseconds.
pub fn since_ago(now: Timestamp, amount: i64, unit: AgoUnit) -> (r: Option<Timestamp>)
    ensures
        match r {
            Some(t) => ago_instant(now.secs, now.nanos, amount, unit) == Some((t.secs, t.nanos)),
            None => ago_instant(now.secs, now.nanos, amount, unit) is None,
        },
        r matches Some(t) ==> (now.nanos < 1_000_000_000 ==> t.secs == now.secs - amount * unit_secs(unit) && t.nanos == now.nanos),
{
    match unit {
        AgoUnit::Minutes => utc_minus_minutes(now, amount),
        AgoUnit::Hours => utc_minus_hours(now, amount),
        AgoUnit::Days => utc_minus_days(now, amount),
    }
}

/// What `--ago value` means at the instant `now`: the value's amount and
/// unit, then the instant that far before `now`.
pub open spec fn parse_ago_at(value: Seq<char>, now: Timestamp) -> Result<Timestamp, AgoError> {
    match parse_ago_spec(value) {
        Err(e) => Err(e),
        Ok((n, u)) => match ago_instant(now.secs, now.nanos, n as i64, u) {
            Some((s, m)) => Ok(Timestamp { secs: s, nanos: m }),
            None => Err(AgoError::OutOfRange),
        },
    }
}

/// The instant a relative duration such as `30m`, `2h` or `1d` names, counted
/// back from `now`. The value is split before its last byte, so its last
/// character must be ASCII.
pub fn parse_ago(value: &str, now: Timestamp) -> (r: Result<Timestamp, AgoError>)
    requires
        value@.len() == 0 || (value@.last() as u32) < 128,
    ensures
        r == parse_ago_at(value@, now),
        r matches Ok(t) ==> (now.nanos < 1_000_000_000 ==> (parse_ago_spec(value@) matches Ok((n, u))
            && t.secs == now.secs - n * unit_secs(u) && t.nanos == now.nanos)),
{
    match ago_parts(value) {
        Err(e) => Err(e),
        Ok((n, u)) => match since_ago(now, n, u) {
            Some(t) => Ok(t),
            None => Err(AgoError::OutOfRange),
        },
    }
}

/// Midnight UTC of the day of `now`: the whole days since the epoch, with no
/// seconds or nanoseconds. Every instant `chrono` represents lies far inside
/// the range this asks of `now`.
pub fn midnight_today_utc(now: Timestamp) -> (r: Timestamp)
    requires
        now.secs >= i64::MIN + 86400,
    ensures
        r.secs == now.secs - now.secs % 86400,
        r.nanos == 0,
{
    let rem: i64 = match now.secs.checked_rem_euclid(86400) {
        Some(x) => x,
        None => 0,
    };
    Timestamp { secs: now.secs - rem, nanos: 0 }
}

} // verus!
