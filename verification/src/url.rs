//! Query strings: `key=value` pairs separated by `&`, values percent-encoded.
use crate::text::{
    chars_of, find_char, find_char_in, segments, slice_of, starts_with, starts_with_at,
    string_from,
};
use vstd::prelude::*;
use vstd::utf8::{
    decode_utf8, encode_scalar, encode_utf8, has_width_1_encoding, is_ascii_chars,
    last_continuation_byte, leading_byte_width_1, leading_byte_width_2, leading_byte_width_3,
    leading_byte_width_4, second_last_continuation_byte, third_last_continuation_byte, valid_utf8,
};

verus! {

broadcast use vstd::string::group_string_axioms;

// ---------------------------------------------------------------------------
// Percent decoding
// ---------------------------------------------------------------------------

/// `String::from_utf8_lossy(bytes)`: the bytes read as UTF-8, each invalid
/// sequence replaced by U+FFFD.
pub uninterp spec fn utf8_lossy(bytes: Seq<u8>) -> Seq<char>;

/// `String::from_utf8_lossy(bytes).to_string()`.
///
/// Trusted: the result is named [`utf8_lossy`] of the bytes; std documents that
/// bytes which are valid UTF-8 come back as the string they encode, which is the
/// one further fact stated. What the replacement does on invalid input is left
/// to the name.
#[verifier::external_body]
fn utf8_lossy_string(bytes: &Vec<u8>) -> (s: String)
    ensures
        s@ == utf8_lossy(bytes@),
        valid_utf8(bytes@) ==> s@ == decode_utf8(bytes@),
{
    String::from_utf8_lossy(bytes).to_string()
}

/// Each `+` byte read as a space.
pub open spec fn plus_as_space(b: Seq<u8>) -> Seq<u8> {
    b.map_values(|x: u8| if x == 0x2B { 0x20u8 } else { x })
}

/// `0-9`, `a-f`, `A-F`.
pub open spec fn is_hex_byte(b: u8) -> bool {
    (0x30 <= b <= 0x39) || (0x61 <= b <= 0x66) || (0x41 <= b <= 0x46)
}

/// The value of a hexadecimal digit.
pub open spec fn hex_value(b: u8) -> nat {
    if 0x30 <= b <= 0x39 {
        (b - 0x30) as nat
    } else if 0x61 <= b <= 0x66 {
        (b - 0x61 + 10) as nat
    } else {
        (b - 0x41 + 10) as nat
    }
}

/// Every `%` followed by two hex digits replaced by the byte they spell; every
/// other byte, a `%` without two hex digits after it included, kept as it is.
pub open spec fn percent_decoded(b: Seq<u8>) -> Seq<u8>
    decreases b.len(),
{
    if b.len() == 0 {
        seq![]
    } else if b[0] == 0x25 && b.len() > 2 && is_hex_byte(b[1]) && is_hex_byte(b[2]) {
        seq![(hex_value(b[1]) * 16 + hex_value(b[2])) as u8] + percent_decoded(b.skip(3))
    } else {
        seq![b[0]] + percent_decoded(b.skip(1))
    }
}

/// What `percent_decode` makes of `s`: its UTF-8 bytes with `+` read as a space
/// (the same as replacing the character `+` first, since no multi-byte sequence
/// holds that byte), percent escapes decoded, and the result read back as UTF-8
/// with invalid sequences replaced.
pub open spec fn percent_decode_text(s: Seq<char>) -> Seq<char> {
    utf8_lossy(percent_decoded(plus_as_space(encode_utf8(s))))
}

fn hex_byte(b: u8) -> (r: Option<u8>)
    ensures
        r matches Some(v) ==> is_hex_byte(b) && v == hex_value(b),
        r is None ==> !is_hex_byte(b),
{
    if 0x30 <= b && b <= 0x39 {
        Some(b - 0x30)
    } else if 0x61 <= b && b <= 0x66 {
        Some(b - 0x61 + 10)
    } else if 0x41 <= b && b <= 0x46 {
        Some(b - 0x41 + 10)
    } else {
        None
    }
}

/// Whether `s` holds neither `%` nor `+`: nothing to decode.
pub open spec fn plain_text(s: Seq<char>) -> bool {
    forall|i: int| 0 <= i < s.len() ==> #[trigger] s[i] != '%' && s[i] != '+'
}

proof fn lemma_plain_bytes_unchanged(b: Seq<u8>)
    requires
        forall|i: int| 0 <= i < b.len() ==> #[trigger] b[i] != 0x25u8 && b[i] != 0x2Bu8,
    ensures
        plus_as_space(b) == b,
        percent_decoded(b) == b,
    decreases b.len(),
{
    assert(plus_as_space(b) =~= b);
    if b.len() > 0 {
        lemma_plain_bytes_unchanged(b.skip(1));
        assert(seq![b[0]] + b.skip(1) =~= b);
    }
}

proof fn lemma_scalar_bytes_plain(c: char)
    requires
        c != '%',
        c != '+',
    ensures
        forall|j: int| 0 <= j < encode_scalar(c as u32).len() ==> #[trigger] encode_scalar(c as u32)[j]
            != 0x25u8 && encode_scalar(c as u32)[j] != 0x2Bu8,
{
    let v = c as u32;
    assert(v != 0x25 && v != 0x2B);
    if has_width_1_encoding(v) {
        assert(leading_byte_width_1(v) != 0x25u8 && leading_byte_width_1(v) != 0x2Bu8) by (bit_vector)
            requires
                v <= 0x7F,
                v != 0x25,
                v != 0x2B,
        ;
    } else {
        assert(leading_byte_width_2(v) >= 0x80u8) by (bit_vector);
        assert(leading_byte_width_3(v) >= 0x80u8) by (bit_vector);
        assert(leading_byte_width_4(v) >= 0x80u8) by (bit_vector);
        assert(last_continuation_byte(v) >= 0x80u8) by (bit_vector);
        assert(second_last_continuation_byte(v) >= 0x80u8) by (bit_vector);
        assert(third_last_continuation_byte(v) >= 0x80u8) by (bit_vector);
    }
}

proof fn lemma_plain_text_bytes(s: Seq<char>)
    requires
        plain_text(s),
    ensures
        forall|i: int| 0 <= i < encode_utf8(s).len() ==> #[trigger] encode_utf8(s)[i] != 0x25u8
            && encode_utf8(s)[i] != 0x2Bu8,
    decreases s.len(),
{
    if s.len() > 0 {
        let e0 = encode_scalar(s[0] as u32);
        let rest = s.drop_first();
        assert(s[0] != '%' && s[0] != '+');
        lemma_scalar_bytes_plain(s[0]);
        assert forall|i: int| 0 <= i < rest.len() implies #[trigger] rest[i] != '%' && rest[i] != '+' by {
            assert(rest[i] == s[i + 1]);
        }
        lemma_plain_text_bytes(rest);
        assert(encode_utf8(s) == e0 + encode_utf8(rest));
        assert forall|i: int| 0 <= i < encode_utf8(s).len() implies #[trigger] encode_utf8(s)[i] != 0x25u8
            && encode_utf8(s)[i] != 0x2Bu8 by {
            if i < e0.len() {
                assert(encode_utf8(s)[i] == e0[i]);
            } else {
                assert(encode_utf8(s)[i] == encode_utf8(rest)[i - e0.len()]);
            }
        }
    }
}

/// A value with neither `%` nor `+` decodes to itself, whatever its characters.
pub proof fn lemma_plain_text_decodes_to_itself(s: Seq<char>)
    requires
        plain_text(s),
    ensures
        percent_decoded(plus_as_space(encode_utf8(s))) == encode_utf8(s),
        valid_utf8(encode_utf8(s)),
        decode_utf8(encode_utf8(s)) == s,
{
    broadcast use vstd::utf8::encode_utf8_valid_utf8, vstd::utf8::encode_utf8_decode_utf8;

    lemma_plain_text_bytes(s);
    lemma_plain_bytes_unchanged(encode_utf8(s));
}

/// The upper-case hexadecimal digit for `d < 16`.
pub open spec fn hex_digit(d: nat) -> char {
    if d < 10 {
        ((d + 0x30) as u8) as char
    } else {
        ((d - 10 + 0x41) as u8) as char
    }
}

/// Every byte written as `%XX`, upper-case hexadecimal.
pub open spec fn percent_encoded_bytes(b: Seq<u8>) -> Seq<char>
    decreases b.len(),
{
    if b.len() == 0 {
        seq![]
    } else {
        seq!['%', hex_digit((b[0] / 16) as nat), hex_digit((b[0] % 16) as nat)] + percent_encoded_bytes(
            b.skip(1),
        )
    }
}

/// What `encodeURIComponent`-style full encoding makes of a text: each byte of its
/// UTF-8 form as `%XX`.
pub open spec fn percent_encode(s: Seq<char>) -> Seq<char> {
    percent_encoded_bytes(encode_utf8(s))
}

/// The bytes of a `%XX` digit.
spec fn hex_digit_byte(d: nat) -> u8 {
    if d < 10 {
        (d + 0x30) as u8
    } else {
        (d - 10 + 0x41) as u8
    }
}

/// `percent_encoded_bytes` as bytes.
spec fn percent_encoded_raw(b: Seq<u8>) -> Seq<u8>
    decreases b.len(),
{
    if b.len() == 0 {
        seq![]
    } else {
        seq![0x25u8, hex_digit_byte((b[0] / 16) as nat), hex_digit_byte((b[0] % 16) as nat)]
            + percent_encoded_raw(b.skip(1))
    }
}

proof fn lemma_encoded_ascii(b: Seq<u8>)
    ensures
        is_ascii_chars(percent_encoded_bytes(b)),
        percent_encoded_bytes(b).len() == percent_encoded_raw(b).len(),
        forall|i: int| 0 <= i < percent_encoded_raw(b).len() ==> (#[trigger] percent_encoded_bytes(b)[i]) as u8
            == percent_encoded_raw(b)[i],
        forall|i: int| 0 <= i < percent_encoded_raw(b).len() ==> #[trigger] percent_encoded_raw(b)[i]
            != 0x2Bu8,
    decreases b.len(),
{
    if b.len() > 0 {
        lemma_encoded_ascii(b.skip(1));
        let hi = (b[0] / 16) as nat;
        let lo = (b[0] % 16) as nat;
        let head = seq!['%', hex_digit(hi), hex_digit(lo)];
        let rhead = seq![0x25u8, hex_digit_byte(hi), hex_digit_byte(lo)];
        let e = percent_encoded_bytes(b);
        let r = percent_encoded_raw(b);
        let e1 = percent_encoded_bytes(b.skip(1));
        let r1 = percent_encoded_raw(b.skip(1));
        assert(e == head + e1);
        assert(r == rhead + r1);
        assert forall|i: int| 0 <= i < e.len() implies '\0' <= #[trigger] e[i] <= '\u{7f}' by {
            if i >= 3 {
                assert(e[i] == e1[i - 3]);
            }
        }
        assert forall|i: int| 0 <= i < r.len() implies (#[trigger] e[i]) as u8 == r[i] && r[i] != 0x2Bu8 by {
            if i >= 3 {
                assert(e[i] == e1[i - 3] && r[i] == r1[i - 3]);
            }
        }
    }
}

proof fn lemma_hex_digit_byte(d: nat)
    requires
        d < 16,
    ensures
        is_hex_byte(hex_digit_byte(d)),
        hex_value(hex_digit_byte(d)) == d,
{
}

proof fn lemma_decode_encoded_raw(b: Seq<u8>)
    ensures
        percent_decoded(percent_encoded_raw(b)) == b,
    decreases b.len(),
{
    if b.len() > 0 {
        lemma_decode_encoded_raw(b.skip(1));
        let hi = (b[0] / 16) as nat;
        let lo = (b[0] % 16) as nat;
        lemma_hex_digit_byte(hi);
        lemma_hex_digit_byte(lo);
        let r = percent_encoded_raw(b);
        let r1 = percent_encoded_raw(b.skip(1));
        assert(r.skip(3) == r1);
        assert(r[0] == 0x25u8 && r[1] == hex_digit_byte(hi) && r[2] == hex_digit_byte(lo));
        assert((hi * 16 + lo) as u8 == b[0]);
        assert(seq![b[0]] + b.skip(1) == b);
    }
}

/// Fully percent-encoding a text and decoding it gives the text back: the bytes
/// decoded are its UTF-8 form.
pub proof fn lemma_percent_round_trip(t: Seq<char>)
    ensures
        percent_decoded(plus_as_space(encode_utf8(percent_encode(t)))) == encode_utf8(t),
        valid_utf8(encode_utf8(t)),
        decode_utf8(encode_utf8(t)) == t,
{
    broadcast use vstd::utf8::is_ascii_chars_encode_utf8, vstd::utf8::encode_utf8_valid_utf8,
        vstd::utf8::encode_utf8_decode_utf8;

    let b = encode_utf8(t);
    let e = percent_encode(t);
    lemma_encoded_ascii(b);
    let raw = percent_encoded_raw(b);
    assert(encode_utf8(e) =~= raw) by {
        assert forall|i: int| 0 <= i < raw.len() implies #[trigger] encode_utf8(e)[i] == raw[i] by {
            assert(e[i] as u8 == encode_utf8(e)[i]);
        }
    }
    assert(plus_as_space(raw) =~= raw);
    lemma_decode_encoded_raw(b);
}


/// Decode `+` and `%XX` escapes in a query value. A value with neither `%` nor
/// `+` comes back unchanged, and a fully percent-encoded text decodes to that text.
pub fn percent_decode(s: &str) -> (r: String)
    ensures
        r@ == percent_decode_text(s@),
        plain_text(s@) ==> r@ == s@,
        forall|t: Seq<char>| #[trigger] percent_encode(t) == s@ ==> r@ == t,
{
    let raw = s.as_bytes();
    let ghost src = plus_as_space(encode_utf8(s@));
    let mut bytes: Vec<u8> = Vec::new();
    let mut k: usize = 0;
    while k < raw.len()
        invariant
            k <= raw.len(),
            raw@ == encode_utf8(s@),
            bytes@ == plus_as_space(raw@.take(k as int)),
        decreases raw.len() - k,
    {
        let b = raw[k];
        bytes.push(if b == 0x2B {
            0x20u8
        } else {
            b
        });
        k = k + 1;
        assert(plus_as_space(raw@.take(k as int)) =~= plus_as_space(raw@.take(k - 1)).push(
            if raw@[k - 1] == 0x2B {
                0x20u8
            } else {
                raw@[k - 1]
            },
        ));
    }
    assert(raw@.take(raw.len() as int) == raw@);
    assert(bytes@ == src);
    let n = bytes.len();
    let mut out: Vec<u8> = Vec::new();
    assert(bytes@.subrange(0, n as int) == bytes@);
    assert(Seq::<u8>::empty() + percent_decoded(bytes@) == percent_decoded(bytes@));
    let mut i: usize = 0;
    while i < n
        invariant
            n == bytes.len(),
            i <= n,
            percent_decoded(bytes@) == out@ + percent_decoded(bytes@.subrange(i as int, n as int)),
        decreases n - i,
    {
        let ghost t = bytes@.subrange(i as int, n as int);
        if bytes[i] == 0x25 && n - i > 2 {
            let h = hex_byte(bytes[i + 1]);
            let l = hex_byte(bytes[i + 2]);
            if h.is_some() && l.is_some() {
                let hv = h.unwrap();
                let lv = l.unwrap();
                assert(t.skip(3) == bytes@.subrange(i + 3, n as int));
                assert(t[1] == bytes@[i + 1] && t[2] == bytes@[i + 2]);
                out.push(hv * 16 + lv);
                i = i + 3;
                continue;
            }
            assert(t[1] == bytes@[i + 1] && t[2] == bytes@[i + 2]);
        }
        assert(t.skip(1) == bytes@.subrange(i + 1, n as int));
        out.push(bytes[i]);
        i = i + 1;
    }
    assert(percent_decoded(bytes@.subrange(n as int, n as int)) == Seq::<u8>::empty());
    assert(out@ + Seq::<u8>::empty() == out@);
    assert(bytes@.subrange(0, n as int) == bytes@);
    let r = utf8_lossy_string(&out);
    proof {
        if plain_text(s@) {
            lemma_plain_text_decodes_to_itself(s@);
        }
        assert forall|t: Seq<char>| #[trigger] percent_encode(t) == s@ implies r@ == t by {
            lemma_percent_round_trip(t);
        }
    }
    r
}

// ---------------------------------------------------------------------------
// Query parameters
// ---------------------------------------------------------------------------

/// The rest of the first piece that starts with `p`, if any piece does.
pub open spec fn first_with_prefix(pieces: Seq<Seq<char>>, p: Seq<char>) -> Option<Seq<char>>
    decreases pieces.len(),
{
    if pieces.len() == 0 {
        None
    } else if starts_with(pieces[0], p) {
        Some(pieces[0].skip(p.len() as int))
    } else {
        first_with_prefix(pieces.skip(1), p)
    }
}

/// The raw value of the first `&`-separated pair of `query` that starts with
/// `prefix` (`key=` for a parameter).
pub open spec fn query_raw_value(query: Seq<char>, prefix: Seq<char>) -> Option<Seq<char>> {
    first_with_prefix(segments(query, '&'), prefix)
}

/// What `query_param` answers: the decoded value of the first `key=` pair, or
/// the empty string when there is none.
pub open spec fn query_param_text(query: Seq<char>, key: Seq<char>) -> Seq<char> {
    match query_raw_value(query, key + "="@) {
        Some(v) => percent_decode_text(v),
        None => seq![],
    }
}

/// Bounds of the raw value of the first pair of `q` that starts with `prefix`.
pub fn query_raw_bounds(q: &Vec<char>, prefix: &Vec<char>) -> (r: Option<(usize, usize)>)
    ensures
        r matches Some((a, b)) ==> a <= b <= q.len() && query_raw_value(q@, prefix@) == Some(
            q@.subrange(a as int, b as int),
        ),
        r is None ==> query_raw_value(q@, prefix@) is None,
{
    let n = q.len();
    let mut start: usize = 0;
    assert(q@.skip(0) == q@);
    loop
        invariant
            n == q.len(),
            start <= n,
            query_raw_value(q@, prefix@) == first_with_prefix(
                segments(q@.skip(start as int), '&'),
                prefix@,
            ),
        decreases n - start,
    {
        let ghost s = q@.skip(start as int);
        assert(s == q@.subrange(start as int, n as int));
        let e = find_char_in(q, '&', start, n);
        let ghost pieces = segments(s, '&');
        let ghost seg = q@.subrange(start as int, e as int);
        if e < n {
            assert(s.take(e - start) == seg);
            assert(s.skip(e - start + 1) == q@.skip(e + 1));
            assert(pieces == seq![seg] + segments(q@.skip(e + 1), '&'));
            assert(pieces[0] == seg);
            assert(pieces.skip(1) =~= segments(q@.skip(e + 1), '&'));
        } else {
            assert(pieces == seq![s]);
            assert(s == seg);
            assert(pieces.skip(1) =~= Seq::<Seq<char>>::empty());
        }
        let matched = starts_with_at(q, start, e, prefix);
        if matched {
            assert(seg.skip(prefix.len() as int) == q@.subrange(start + prefix.len(), e as int));
            return Some((start + prefix.len(), e));
        }
        if e == n {
            assert(pieces[0] == seg);
            assert(first_with_prefix(pieces.skip(1), prefix@) is None);
            return None;
        }
        start = e + 1;
    }
}

/// The decoded value of query parameter `key`, or `""` when absent.
pub fn query_param(query: &str, key: &str) -> (r: String)
    ensures
        r@ == query_param_text(query@, key@),
{
    let q = chars_of(query);
    let mut prefix = chars_of(key);
    prefix.push('=');
    assert(prefix@ == key@ + "="@) by {
        reveal_strlit("=");
    }
    match query_raw_bounds(&q, &prefix) {
        Some((a, b)) => {
            let raw = slice_of(&q, a, b);
            let raw_s = string_from(&raw);
            percent_decode(raw_s.as_str())
        },
        None => string_from(&Vec::new()),
    }
}

} // verus!
