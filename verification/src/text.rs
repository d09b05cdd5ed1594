//! Character-level string helpers shared by the parsers and renderers.

use vstd::prelude::*;
use vstd::string::*;

verus! {

broadcast use vstd::string::group_string_axioms;

/// The characters of `s`, in order.
pub fn chars_of(s: &str) -> (v: Vec<char>)
    ensures
        v@ == s@,
{
    let mut v: Vec<char> = Vec::new();
    for c in it: s.chars()
        invariant
            v@ == it.history(),
    {
        v.push(c);
    }
    v
}

/// Appends one character to a `String` (`String::push`).
#[verifier::external_body]
pub(crate) fn push_char(s: &mut String, c: char)
    ensures
        final(s)@ == old(s)@.push(c),
{
    s.push(c);
}

/// Appends the characters `v` to `out`.
pub fn append_chars(out: &mut String, v: &[char])
    ensures
        final(out)@ == old(out)@ + v@,
{
    let ghost start = out@;
    let mut i: usize = 0;
    while i < v.len()
        invariant
            i <= v@.len(),
            out@ == start + v@.take(i as int),
        decreases v@.len() - i,
    {
        push_char(out, v[i]);
        assert(v@.take((i + 1) as int) == v@.take(i as int).push(v@[i as int]));
        i = i + 1;
    }
    assert(v@.take(v@.len() as int) == v@);
}

/// A `String` holding exactly the characters `v`.
pub fn string_of(v: &[char]) -> (s: String)
    ensures
        s@ == v@,
{
    let mut s = String::new();
    append_chars(&mut s, v);
    s
}

/// Unicode `White_Space`: the characters for which `char::is_whitespace` holds.
pub open spec fn is_ws(c: char) -> bool {
    let u = c as u32;
    ||| 0x9 <= u <= 0xD
    ||| u == 0x20
    ||| u == 0x85
    ||| u == 0xA0
    ||| u == 0x1680
    ||| 0x2000 <= u <= 0x200A
    ||| u == 0x2028
    ||| u == 0x2029
    ||| u == 0x202F
    ||| u == 0x205F
    ||| u == 0x3000
}

/// Whether `c` is Unicode whitespace.
pub fn is_whitespace(c: char) -> (b: bool)
    ensures
        b == is_ws(c),
{
    let u = c as u32;
    (0x9 <= u && u <= 0xD) || u == 0x20 || u == 0x85 || u == 0xA0 || u == 0x1680 || (0x2000 <= u
        && u <= 0x200A) || u == 0x2028 || u == 0x2029 || u == 0x202F || u == 0x205F || u
        == 0x3000
}

/// Whether two character sequences are equal.
pub fn same_chars(a: &[char], b: &[char]) -> (r: bool)
    ensures
        r == (a@ == b@),
{
    if a.len() != b.len() {
        return false;
    }
    let mut i: usize = 0;
    while i < a.len()
        invariant
            a@.len() == b@.len(),
            i <= a@.len(),
            forall|j: int| 0 <= j < i ==> a@[j] == b@[j],
        decreases a@.len() - i,
    {
        if a[i] != b[i] {
            return false;
        }
        i = i + 1;
    }
    assert(a@ =~= b@);
    true
}

/// `s` with leading whitespace removed.
pub open spec fn trim_start(s: Seq<char>) -> Seq<char>
    decreases s.len(),
{
    if s.len() > 0 && is_ws(s[0]) {
        trim_start(s.drop_first())
    } else {
        s
    }
}

/// `s` with trailing whitespace removed.
pub open spec fn trim_end(s: Seq<char>) -> Seq<char>
    decreases s.len(),
{
    if s.len() > 0 && is_ws(s.last()) {
        trim_end(s.drop_last())
    } else {
        s
    }
}

/// `s` with leading and trailing whitespace removed (`str::trim`).
pub open spec fn trim(s: Seq<char>) -> Seq<char> {
    trim_end(trim_start(s))
}

/// The bounds `(a, b)` of `v` with surrounding whitespace removed.
pub fn trim_bounds(v: &[char]) -> (r: (usize, usize))
    ensures
        r.0 <= r.1 <= v@.len(),
        v@.subrange(r.0 as int, r.1 as int) == trim(v@),
{
    let n = v.len();
    let mut a: usize = 0;
    assert(v@.subrange(0, n as int) == v@);
    while a < n && is_whitespace(v[a])
        invariant
            n == v@.len(),
            a <= n,
            trim_start(v@) == trim_start(v@.subrange(a as int, n as int)),
        decreases n - a,
    {
        assert(v@.subrange(a as int, n as int).drop_first() == v@.subrange(a + 1, n as int));
        a = a + 1;
    }
    assert(trim_start(v@) == v@.subrange(a as int, n as int));
    let mut b: usize = n;
    while b > a && is_whitespace(v[b - 1])
        invariant
            n == v@.len(),
            a <= b <= n,
            trim(v@) == trim_end(v@.subrange(a as int, b as int)),
        decreases b - a,
    {
        assert(v@.subrange(a as int, b as int).drop_last() == v@.subrange(a as int, b - 1));
        b = b - 1;
    }
    (a, b)
}

/// Splitting on whitespace, with `cur` the word read so far.
pub open spec fn split_ws_from(s: Seq<char>, cur: Seq<char>) -> Seq<Seq<char>>
    decreases s.len(),
{
    if s.len() == 0 {
        if cur.len() > 0 {
            seq![cur]
        } else {
            seq![]
        }
    } else if is_ws(s[0]) {
        (if cur.len() > 0 {
            seq![cur]
        } else {
            Seq::<Seq<char>>::empty()
        }) + split_ws_from(s.drop_first(), Seq::<char>::empty())
    } else {
        split_ws_from(s.drop_first(), cur.push(s[0]))
    }
}

/// The maximal runs of non-whitespace characters of `s` (`str::split_whitespace`).
pub open spec fn split_ws(s: Seq<char>) -> Seq<Seq<char>> {
    split_ws_from(s, Seq::<char>::empty())
}

/// The views of a list of character vectors.
pub open spec fn views(v: Seq<Vec<char>>) -> Seq<Seq<char>> {
    v.map_values(|t: Vec<char>| t@)
}

/// The whitespace-separated words of `v[from..to]`.
pub fn split_whitespace(v: &[char], from: usize, to: usize) -> (words: Vec<Vec<char>>)
    requires
        from <= to <= v@.len(),
    ensures
        views(words@) == split_ws(v@.subrange(from as int, to as int)),
{
    let ghost s = v@.subrange(from as int, to as int);
    let mut words: Vec<Vec<char>> = Vec::new();
    let mut cur: Vec<char> = Vec::new();
    let mut i: usize = from;
    while i < to
        invariant
            from <= i <= to <= v@.len(),
            s == v@.subrange(from as int, to as int),
            views(words@) + split_ws_from(v@.subrange(i as int, to as int), cur@) == split_ws(s),
        decreases to - i,
    {
        let ghost rest = v@.subrange(i as int, to as int);
        assert(rest.drop_first() == v@.subrange(i + 1, to as int));
        assert(rest[0] == v@[i as int]);
        let c = v[i];
        if is_whitespace(c) {
            if cur.len() > 0 {
                let ghost before = views(words@);
                let w = cur;
                words.push(w);
                assert(views(words@) == before.push(w@));
                assert(before + (seq![w@] + split_ws_from(rest.drop_first(), Seq::<char>::empty()))
                    == before.push(w@) + split_ws_from(rest.drop_first(), Seq::<char>::empty()));
            } else {
                assert(Seq::<Seq<char>>::empty() + split_ws_from(rest.drop_first(), Seq::<char>::empty())
                    == split_ws_from(rest.drop_first(), Seq::<char>::empty()));
            }
            cur = Vec::new();
        } else {
            cur.push(c);
        }
        i = i + 1;
    }
    assert(v@.subrange(to as int, to as int) == Seq::<char>::empty());
    if cur.len() > 0 {
        let ghost before = views(words@);
        let w = cur;
        words.push(w);
        assert(views(words@) == before.push(w@));
    } else {
        assert(views(words@) + Seq::<Seq<char>>::empty() == views(words@));
    }
    words
}

/// `list` joined with `sep` between consecutive elements.
pub open spec fn join(list: Seq<Seq<char>>, sep: Seq<char>) -> Seq<char>
    decreases list.len(),
{
    if list.len() == 0 {
        Seq::empty()
    } else if list.len() == 1 {
        list[0]
    } else {
        join(list.drop_last(), sep) + sep + list.last()
    }
}

/// The views of a list of strings.
pub open spec fn string_views(v: Seq<String>) -> Seq<Seq<char>> {
    v.map_values(|t: String| t@)
}

/// Appends `list` joined with `sep` to `out` (`[String]::join`).
pub fn append_joined(out: &mut String, list: &[String], sep: &str)
    ensures
        final(out)@ == old(out)@ + join(string_views(list@), sep@),
{
    let ghost start = out@;
    let ghost all = string_views(list@);
    let mut i: usize = 0;
    while i < list.len()
        invariant
            i <= list@.len(),
            all == string_views(list@),
            out@ == start + join(all.take(i as int), sep@),
        decreases list@.len() - i,
    {
        assert(all.take((i + 1) as int).drop_last() == all.take(i as int));
        assert(all.take((i + 1) as int).last() == list@[i as int]@);
        if i != 0 {
            out.append(sep);
        } else {
            assert(all.take(1) == seq![list@[0]@]);
        }
        out.append(list[i].as_str());
        i = i + 1;
    }
    assert(all.take(list@.len() as int) == all);
}

/// `n` spaces.
pub open spec fn spaces(n: nat) -> Seq<char> {
    Seq::new(n, |i: int| ' ')
}

/// `s` padded on the right with spaces to at least `width` characters
/// (the `{:<width$}` format).
pub open spec fn pad_right(s: Seq<char>, width: nat) -> Seq<char> {
    if s.len() < width {
        s + spaces((width - s.len()) as nat)
    } else {
        s
    }
}

/// Appends `s` padded with spaces to `width` characters.
pub fn append_padded(out: &mut String, s: &str, width: usize)
    ensures
        final(out)@ == old(out)@ + pad_right(s@, width as nat),
{
    out.append(s);
    let len = s.unicode_len();
    let ghost mid = out@;
    if len < width {
        let mut k: usize = len;
        while k < width
            invariant
                len <= k <= width,
                out@ == mid + spaces((k - len) as nat),
            decreases width - k,
        {
            push_char(out, ' ');
            assert(spaces((k + 1 - len) as nat) == spaces((k - len) as nat).push(' '));
            k = k + 1;
        }
        assert(mid == old(out)@ + s@);
    } else {
        assert(spaces(0) == Seq::<char>::empty());
    }
}

} // verus!

verus! {

/// Whether `pat` occurs in `v` at position `start`.
pub fn matches_at(v: &[char], start: usize, pat: &[char]) -> (r: bool)
    requires
        start <= v@.len(),
    ensures
        r == (start + pat@.len() <= v@.len() && v@.subrange(
            start as int,
            start + pat@.len(),
        ) == pat@),
{
    if pat.len() > v.len() - start {
        return false;
    }
    let mut i: usize = 0;
    while i < pat.len()
        invariant
            start + pat@.len() <= v@.len(),
            v@.len() <= usize::MAX,
            i <= pat@.len(),
            forall|j: int| 0 <= j < i ==> v@[start + j] == pat@[j],
        decreases pat@.len() - i,
    {
        if v[start + i] != pat[i] {
            assert(v@.subrange(start as int, start + pat@.len())[i as int] != pat@[i as int]);
            return false;
        }
        i = i + 1;
    }
    assert(v@.subrange(start as int, start + pat@.len()) =~= pat@);
    true
}

} // verus!

verus! {

/// Appends `v[from..to]` to `out`.
pub fn append_range(out: &mut String, v: &[char], from: usize, to: usize)
    requires
        from <= to <= v@.len(),
    ensures
        final(out)@ == old(out)@ + v@.subrange(from as int, to as int),
{
    let ghost start = out@;
    let mut i: usize = from;
    while i < to
        invariant
            from <= i <= to <= v@.len(),
            out@ == start + v@.subrange(from as int, i as int),
        decreases to - i,
    {
        push_char(out, v[i]);
        assert(v@.subrange(from as int, i + 1) == v@.subrange(from as int, i as int).push(v@[i as int]));
        i = i + 1;
    }
}

/// A `String` holding `v[from..to]`.
pub fn string_of_range(v: &[char], from: usize, to: usize) -> (s: String)
    requires
        from <= to <= v@.len(),
    ensures
        s@ == v@.subrange(from as int, to as int),
{
    let mut s = String::new();
    append_range(&mut s, v, from, to);
    s
}

/// The position of the first `c` in `v[from..to]`, if any.
pub fn find_char(v: &[char], from: usize, to: usize, c: char) -> (r: Option<usize>)
    requires
        from <= to <= v@.len(),
    ensures
        match r {
            Some(i) => from <= i < to && v@[i as int] == c && forall|j: int| from <= j < i ==> v@[j] != c,
            None => forall|j: int| from <= j < to ==> v@[j] != c,
        },
{
    let mut i: usize = from;
    while i < to
        invariant
            from <= i <= to <= v@.len(),
            forall|j: int| from <= j < i ==> v@[j] != c,
        decreases to - i,
    {
        if v[i] == c {
            return Some(i);
        }
        i = i + 1;
    }
    None
}

/// The position of the last `c` in `v[from..to]`, if any.
pub fn rfind_char(v: &[char], from: usize, to: usize, c: char) -> (r: Option<usize>)
    requires
        from <= to <= v@.len(),
    ensures
        match r {
            Some(i) => from <= i < to && v@[i as int] == c && forall|j: int| i < j < to ==> v@[j] != c,
            None => forall|j: int| from <= j < to ==> v@[j] != c,
        },
{
    let mut i: usize = to;
    while i > from
        invariant
            from <= i <= to <= v@.len(),
            forall|j: int| i <= j < to ==> v@[j] != c,
        decreases i - from,
    {
        if v[i - 1] == c {
            return Some(i - 1);
        }
        i = i - 1;
    }
    None
}

} // verus!
