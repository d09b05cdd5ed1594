//! Compact JSON text of a [`JsonValue`] (as `serde_json::to_string` writes
//! a value): no whitespace, strings quoted with `"`, `\`, and control
//! characters escaped.

use vstd::prelude::*;
use vstd::string::*;
use crate::json::JsonValue;
use crate::text::push_char;

verus! {

broadcast use vstd::string::group_string_axioms;

/// The lowercase hexadecimal digit for `d` (`0 <= d < 16`).
pub open spec fn hex_char(d: int) -> char {
    if d < 10 {
        (d + '0' as int) as char
    } else {
        (d - 10 + 'a' as int) as char
    }
}

/// How one character of a string is written inside the quotes.
pub open spec fn escape_char(c: char) -> Seq<char> {
    if c == '"' {
        "\\\""@
    } else if c == '\\' {
        "\\\\"@
    } else if c == '\n' {
        "\\n"@
    } else if c == '\r' {
        "\\r"@
    } else if c == '\t' {
        "\\t"@
    } else if c == '\x08' {
        "\\b"@
    } else if c == '\x0c' {
        "\\f"@
    } else if (c as u32) < 0x20 {
        "\\u00"@ + seq![hex_char(((c as u32) / 16) as int), hex_char(((c as u32) % 16) as int)]
    } else {
        seq![c]
    }
}

/// The characters of `s`, each escaped.
pub open spec fn escaped(s: Seq<char>) -> Seq<char>
    decreases s.len(),
{
    if s.len() == 0 {
        Seq::empty()
    } else {
        escaped(s.drop_last()) + escape_char(s.last())
    }
}

/// A JSON string literal holding `s`.
pub open spec fn quoted(s: Seq<char>) -> Seq<char> {
    "\""@ + escaped(s) + "\""@
}

/// The compact JSON text of `v`.
pub open spec fn json_text(v: JsonValue) -> Seq<char>
    decreases v, 1nat,
{
    match v {
        JsonValue::Null => "null"@,
        JsonValue::Bool(b) => if b {
            "true"@
        } else {
            "false"@
        },
        JsonValue::Number(n) => n@,
        JsonValue::String(s) => quoted(s@),
        JsonValue::Array(a) => "["@ + items_text(a@) + "]"@,
        JsonValue::Object(m) => "{"@ + members_text(m@) + "}"@,
    }
}

/// The elements of an array, separated by commas.
pub open spec fn items_text(s: Seq<JsonValue>) -> Seq<char>
    decreases s, 0nat,
{
    if s.len() == 0 {
        Seq::empty()
    } else if s.len() == 1 {
        json_text(s[0])
    } else {
        items_text(s.drop_last()) + ","@ + json_text(s.last())
    }
}

/// The members of an object, `"key":value`, separated by commas.
pub open spec fn members_text(s: Seq<(String, JsonValue)>) -> Seq<char>
    decreases s, 0nat,
{
    if s.len() == 0 {
        Seq::empty()
    } else if s.len() == 1 {
        quoted(s[0].0@) + ":"@ + json_text(s[0].1)
    } else {
        members_text(s.drop_last()) + ","@ + quoted(s.last().0@) + ":"@ + json_text(s.last().1)
    }
}

fn append_hex(out: &mut String, d: u32)
    requires
        d < 16,
    ensures
        final(out)@ == old(out)@.push(hex_char(d as int)),
{
    let c: char = if d < 10 {
        ((d as u8) + 48u8) as char
    } else {
        ((d as u8) + 87u8) as char
    };
    push_char(out, c);
}

fn append_escaped_char(out: &mut String, c: char)
    ensures
        final(out)@ == old(out)@ + escape_char(c),
{
    if c == '"' {
        out.append("\\\"");
    } else if c == '\\' {
        out.append("\\\\");
    } else if c == '\n' {
        out.append("\\n");
    } else if c == '\r' {
        out.append("\\r");
    } else if c == '\t' {
        out.append("\\t");
    } else if c == '\x08' {
        out.append("\\b");
    } else if c == '\x0c' {
        out.append("\\f");
    } else if (c as u32) < 0x20 {
        let u = c as u32;
        out.append("\\u00");
        let ghost mid = out@;
        append_hex(out, u / 16);
        append_hex(out, u % 16);
        assert(out@ == mid + seq![hex_char((u / 16) as int), hex_char((u % 16) as int)]);
    } else {
        push_char(out, c);
        assert(seq![c] == Seq::<char>::empty().push(c));
    }
}

/// Appends `s` as a JSON string literal.
pub fn append_quoted(out: &mut String, s: &str)
    ensures
        final(out)@ == old(out)@ + quoted(s@),
{
    let ghost start = out@;
    out.append("\"");
    let mut i: usize = 0;
    let ghost v = s@;
    let n = s.unicode_len();
    while i < n
        invariant
            n == v.len(),
            v == s@,
            i <= n,
            out@ == start + "\""@ + escaped(v.take(i as int)),
        decreases n - i,
    {
        let c = s.get_char(i);
        assert(v.take((i + 1) as int).drop_last() == v.take(i as int));
        assert(v.take((i + 1) as int).last() == c);
        append_escaped_char(out, c);
        i = i + 1;
    }
    assert(v.take(n as int) == v);
    out.append("\"");
}

/// Appends the compact JSON text of `v`.
pub fn append_json(out: &mut String, v: &JsonValue)
    ensures
        final(out)@ == old(out)@ + json_text(*v),
    decreases *v, 1nat,
{
    match v {
        JsonValue::Null => out.append("null"),
        JsonValue::Bool(b) => if *b {
            out.append("true")
        } else {
            out.append("false")
        },
        JsonValue::Number(n) => out.append(n.as_str()),
        JsonValue::String(s) => append_quoted(out, s.as_str()),
        JsonValue::Array(a) => {
            out.append("[");
            append_items(out, a);
            out.append("]");
        },
        JsonValue::Object(m) => {
            out.append("{");
            append_members(out, m);
            out.append("}");
        },
    }
}

fn append_items(out: &mut String, a: &Vec<JsonValue>)
    ensures
        final(out)@ == old(out)@ + items_text(a@),
    decreases a@, 0nat,
{
    let ghost start = out@;
    let mut i: usize = 0;
    while i < a.len()
        invariant
            i <= a@.len(),
            out@ == start + items_text(a@.take(i as int)),
        decreases a@.len() - i,
    {
        assert(a@.take((i + 1) as int).drop_last() == a@.take(i as int));
        assert(a@.take((i + 1) as int).last() == a@[i as int]);
        if i > 0 {
            out.append(",");
        } else {
            assert(a@.take(1) == seq![a@[0]]);
        }
        proof {
            assert(decreases_to!(a@ => a@[i as int]));
        }
        append_json(out, &a[i]);
        i = i + 1;
    }
    assert(a@.take(a@.len() as int) == a@);
}

fn append_members(out: &mut String, m: &Vec<(String, JsonValue)>)
    ensures
        final(out)@ == old(out)@ + members_text(m@),
    decreases m@, 0nat,
{
    let ghost start = out@;
    let mut i: usize = 0;
    while i < m.len()
        invariant
            i <= m@.len(),
            out@ == start + members_text(m@.take(i as int)),
        decreases m@.len() - i,
    {
        assert(m@.take((i + 1) as int).drop_last() == m@.take(i as int));
        assert(m@.take((i + 1) as int).last() == m@[i as int]);
        if i > 0 {
            out.append(",");
        } else {
            assert(m@.take(1) == seq![m@[0]]);
        }
        append_quoted(out, m[i].0.as_str());
        out.append(":");
        proof {
            assert(decreases_to!(m@ => m@[i as int]));
            assert(decreases_to!(m@[i as int] => m@[i as int].1));
        }
        append_json(out, &m[i].1);
        i = i + 1;
    }
    assert(m@.take(m@.len() as int) == m@);
}

/// The compact JSON text of `v` (`Value::to_string`).
pub fn to_json_text(v: &JsonValue) -> (s: String)
    ensures
        s@ == json_text(*v),
{
    let mut out = String::new();
    append_json(&mut out, v);
    out
}

/// The text of a JSON-RPC request id: a string id as it is, any other id as
/// its JSON text.
pub open spec fn id_text(id: JsonValue) -> Seq<char> {
    match id {
        JsonValue::String(s) => s@,
        _ => json_text(id),
    }
}

/// The text of a JSON-RPC request id, as trace rows record it.
pub fn json_id_to_string(id: &JsonValue) -> (s: String)
    ensures
        s@ == id_text(*id),
{
    match id {
        JsonValue::String(s) => s.clone(),
        _ => to_json_text(id),
    }
}

} // verus!
