//! The small JSON bodies the local API accepts (`{"id":3,"accept":true}`,
//! `{"password":"..."}`) and the error bodies it answers with.
use crate::text::{
    chars_eq_str, chars_of, find_char, find_char_in, find_in, find_seq, is_white_space,
    is_whitespace_char, parse_i32, parse_i32_in, push_str, skip_white_space, string_from,
    trim_start_seq,
};
use vstd::prelude::*;

verus! {

// ---------------------------------------------------------------------------
// Reading a field out of a request body
// ---------------------------------------------------------------------------

/// What a backslash followed by `c` stands for inside a string value: `\n` and
/// `\t` are a newline and a tab, any other escaped character is itself.
pub open spec fn escaped_char(c: char) -> char {
    if c == 'n' {
        '\n'
    } else if c == 't' {
        '\t'
    } else {
        c
    }
}

/// The content of a string value whose opening quote has been consumed: up to
/// the first unescaped `"`, or to the end of the body, with escapes resolved. A
/// backslash at the very end of the body ends the value.
pub open spec fn string_content(s: Seq<char>) -> Seq<char>
    decreases s.len(),
{
    if s.len() == 0 {
        seq![]
    } else if s[0] == '"' {
        seq![]
    } else if s[0] == '\\' {
        if s.len() == 1 {
            seq![]
        } else {
            seq![escaped_char(s[1])] + string_content(s.skip(2))
        }
    } else {
        seq![s[0]] + string_content(s.skip(1))
    }
}

/// Whether `c` ends a bare (unquoted) value: white space, `,` or `}`.
pub open spec fn ends_bare_value(c: char) -> bool {
    is_white_space(c) || c == ',' || c == '}'
}

/// The leading characters of `s` up to the first one that ends a bare value.
pub open spec fn bare_token(s: Seq<char>) -> Seq<char>
    decreases s.len(),
{
    if s.len() > 0 && !ends_bare_value(s[0]) {
        seq![s[0]] + bare_token(s.skip(1))
    } else {
        seq![]
    }
}

/// The value of the first `"key"` in `body`: after it, the first `:`; after that
/// and any white space, either a quoted string (its content, see
/// [`string_content`]) or a bare token such as `true` or `3`. `None` when the key
/// or the colon is missing, or when the bare token is empty.
pub open spec fn json_field_value(body: Seq<char>, key: Seq<char>) -> Option<Seq<char>> {
    let needle = seq!['"'] + key + seq!['"'];
    match find_seq(body, needle) {
        None => None,
        Some(p) => {
            let rest = body.skip(p + needle.len());
            match find_char(rest, ':') {
                None => None,
                Some(q) => {
                    let val = trim_start_seq(rest.skip(q + 1));
                    if val.len() > 0 && val[0] == '"' {
                        Some(string_content(val.skip(1)))
                    } else {
                        let t = bare_token(val);
                        if t.len() == 0 {
                            None
                        } else {
                            Some(t)
                        }
                    }
                },
            }
        },
    }
}

/// `body[from..]` read as string content, see [`string_content`].
fn read_string_content(body: &Vec<char>, from: usize) -> (r: Vec<char>)
    requires
        from <= body.len(),
    ensures
        r@ == string_content(body@.subrange(from as int, body.len() as int)),
{
    let n = body.len();
    let mut out: Vec<char> = Vec::new();
    let mut i = from;
    while i < n
        invariant
            n == body.len(),
            from <= i <= n,
            string_content(body@.subrange(from as int, n as int)) == out@ + string_content(
                body@.subrange(i as int, n as int),
            ),
        decreases n - i,
    {
        let ghost t = body@.subrange(i as int, n as int);
        let c = body[i];
        if c == '"' {
            assert(string_content(t) == Seq::<char>::empty());
            assert(out@ + Seq::<char>::empty() == out@);
            return out;
        } else if c == '\\' {
            if i + 1 == n {
                assert(string_content(t) == Seq::<char>::empty());
                assert(out@ + Seq::<char>::empty() == out@);
                return out;
            }
            let e = body[i + 1];
            let r = if e == 'n' {
                '\n'
            } else if e == 't' {
                '\t'
            } else {
                e
            };
            assert(t.skip(2) == body@.subrange(i + 2, n as int));
            assert(string_content(t) == seq![r] + string_content(body@.subrange(i + 2, n as int)));
            out.push(r);
            i = i + 2;
        } else {
            assert(t.skip(1) == body@.subrange(i + 1, n as int));
            assert(string_content(t) == seq![c] + string_content(body@.subrange(i + 1, n as int)));
            out.push(c);
            i = i + 1;
        }
    }
    assert(string_content(body@.subrange(n as int, n as int)) == Seq::<char>::empty());
    assert(out@ + Seq::<char>::empty() == out@);
    out
}

/// `body[from..]` read as a bare token, see [`bare_token`].
fn read_bare_token(body: &Vec<char>, from: usize) -> (r: Vec<char>)
    requires
        from <= body.len(),
    ensures
        r@ == bare_token(body@.subrange(from as int, body.len() as int)),
{
    let n = body.len();
    let mut out: Vec<char> = Vec::new();
    let mut i = from;
    while i < n && !(is_whitespace_char(body[i]) || body[i] == ',' || body[i] == '}')
        invariant
            n == body.len(),
            from <= i <= n,
            bare_token(body@.subrange(from as int, n as int)) == out@ + bare_token(
                body@.subrange(i as int, n as int),
            ),
        decreases n - i,
    {
        let ghost t = body@.subrange(i as int, n as int);
        assert(t.skip(1) == body@.subrange(i + 1, n as int));
        out.push(body[i]);
        i = i + 1;
    }
    assert(bare_token(body@.subrange(i as int, n as int)) == Seq::<char>::empty());
    assert(out@ + Seq::<char>::empty() == out@);
    out
}

/// The value of `key` in a small JSON body, see [`json_field_value`].
fn json_field_chars(body: &Vec<char>, key: &str) -> (r: Option<Vec<char>>)
    ensures
        r matches Some(v) ==> json_field_value(body@, key@) == Some(v@),
        r is None ==> json_field_value(body@, key@) is None,
{
    let mut needle: Vec<char> = Vec::new();
    needle.push('"');
    push_str(&mut needle, key);
    needle.push('"');
    assert(needle@ =~= seq!['"'] + key@ + seq!['"']);
    let n = body.len();
    let p = match find_in(body, &needle) {
        Some(p) => p,
        None => {
            return None;
        },
    };
    let start = p + needle.len();
    let ghost rest = body@.skip(start as int);
    assert(rest == body@.subrange(start as int, n as int));
    let colon = find_char_in(body, ':', start, n);
    if colon == n {
        return None;
    }
    let ghost q = colon - start;
    assert(rest.skip(q + 1) == body@.subrange(colon + 1, n as int));
    let v = skip_white_space(body, colon + 1, n);
    if v < n && body[v] == '"' {
        assert(body@.subrange(v as int, n as int).skip(1) == body@.subrange(v + 1, n as int));
        let s = read_string_content(body, v + 1);
        Some(s)
    } else {
        let t = read_bare_token(body, v);
        if t.len() == 0 {
            None
        } else {
            Some(t)
        }
    }
}

/// Extract a top-level field's value from a small JSON body: the content of a
/// quoted string (escaped quotes and backslashes resolved), or a bare token such
/// as `true` or `3`. Good enough for the fixed shapes this API accepts.
pub fn json_field(body: &str, key: &str) -> (r: Option<String>)
    ensures
        r matches Some(v) ==> json_field_value(body@, key@) == Some(v@),
        r is None ==> json_field_value(body@, key@) is None,
{
    let b = chars_of(body);
    match json_field_chars(&b, key) {
        Some(v) => Some(string_from(&v)),
        None => None,
    }
}

/// `{"id": 3}` out of a request body: the `id` field read as an `i32`.
pub open spec fn id_field_value(body: Seq<char>) -> Option<i32> {
    match json_field_value(body, "id"@) {
        Some(v) => parse_i32(v),
        None => None,
    }
}

/// `{"accept": true}` / `{"enabled": false}` out of a request body.
pub open spec fn bool_field_value(body: Seq<char>, key: Seq<char>) -> Option<bool> {
    match json_field_value(body, key) {
        Some(v) => if v == "true"@ {
            Some(true)
        } else if v == "false"@ {
            Some(false)
        } else {
            None
        },
        None => None,
    }
}

/// `{"id": 3}` out of a request body.
pub fn id_field(body: &str) -> (r: Option<i32>)
    ensures
        r == id_field_value(body@),
{
    let b = chars_of(body);
    match json_field_chars(&b, "id") {
        Some(v) => {
            assert(v@.subrange(0, v.len() as int) == v@);
            parse_i32_in(&v, 0, v.len())
        },
        None => None,
    }
}

/// `{"accept": true}` / `{"enabled": false}` out of a request body.
pub fn bool_field(body: &str, key: &str) -> (r: Option<bool>)
    ensures
        r == bool_field_value(body@, key@),
{
    let b = chars_of(body);
    match json_field_chars(&b, key) {
        Some(v) => {
            if chars_eq_str(&v, "true") {
                Some(true)
            } else if chars_eq_str(&v, "false") {
                Some(false)
            } else {
                None
            }
        },
        None => None,
    }
}

// ---------------------------------------------------------------------------
// Writing a string value
// ---------------------------------------------------------------------------

/// The lower-case hexadecimal digit for `d < 16`.
pub open spec fn hex_digit_lower(d: nat) -> char {
    if d < 10 {
        ((d + 48) as u8) as char
    } else {
        ((d + 87) as u8) as char
    }
}

/// How one character is written inside a JSON string: `"` and `\` are escaped
/// with a backslash, backspace, form feed, newline, carriage return and tab by
/// their short escapes, every other character below U+0020 as `\u00XX` with
/// lower-case hex digits, and everything else as itself.
pub open spec fn json_escape_char(c: char) -> Seq<char> {
    let u = c as u32;
    if c == '"' {
        seq!['\\', '"']
    } else if c == '\\' {
        seq!['\\', '\\']
    } else if u == 0x08 {
        seq!['\\', 'b']
    } else if u == 0x0C {
        seq!['\\', 'f']
    } else if c == '\n' {
        seq!['\\', 'n']
    } else if c == '\r' {
        seq!['\\', 'r']
    } else if c == '\t' {
        seq!['\\', 't']
    } else if u < 0x20 {
        seq!['\\', 'u', '0', '0', hex_digit_lower((u / 16) as nat), hex_digit_lower((u % 16) as nat)]
    } else {
        seq![c]
    }
}

/// The escaped characters of `s`, in order.
pub open spec fn json_escape(s: Seq<char>) -> Seq<char>
    decreases s.len(),
{
    if s.len() == 0 {
        seq![]
    } else {
        json_escape_char(s[0]) + json_escape(s.skip(1))
    }
}

/// `s` written as a JSON string: in double quotes, escaped.
pub open spec fn json_string_literal(s: Seq<char>) -> Seq<char> {
    seq!['"'] + json_escape(s) + seq!['"']
}

/// `serde_json::Value::String(s).to_string()`.
///
/// Trusted: serde_json writes a string value as `"`, then each character of `s`
/// escaped by its `ESCAPE` table (`"` and `\` with a backslash, `\b \f \n \r \t`
/// by their short forms, other control characters below U+0020 as `\u00xx` with
/// lower-case hex digits, everything else unchanged), then `"`. That is what the
/// contract states.
#[verifier::external_body]
pub(crate) fn json_string(s: &str) -> (r: String)
    ensures
        r@ == json_string_literal(s@),
{
    serde_json::Value::String(s.to_owned()).to_string()
}

/// The body the API answers a failed request with: `{"ok":false,"error":"<reason>"}`
/// with the reason written as a JSON string.
pub open spec fn error_body_text(reason: Seq<char>) -> Seq<char> {
    "{\"ok\":false,\"error\":"@ + json_string_literal(reason) + "}"@
}

/// `{"ok":false,"error":"<reason>"}`.
pub fn error_body(reason: &str) -> (r: String)
    ensures
        r@ == error_body_text(reason@),
{
    let mut v: Vec<char> = Vec::new();
    push_str(&mut v, "{\"ok\":false,\"error\":");
    let lit = json_string(reason);
    push_str(&mut v, lit.as_str());
    push_str(&mut v, "}");
    string_from(&v)
}

} // verus!
