//! Character-level text operations shared by the request parsers, each stated
//! over `Seq<char>` and implemented on `Vec<char>`.
use vstd::prelude::*;
use vstd::std_specs::iter::IteratorSpec;

verus! {

broadcast use vstd::string::group_string_axioms;

// ---------------------------------------------------------------------------
// Conversions between `str`/`String` and character vectors
// ---------------------------------------------------------------------------

/// The characters of `s`, in order.
pub fn chars_of(s: &str) -> (v: Vec<char>)
    ensures
        v@ == s@,
{
    let mut v: Vec<char> = Vec::new();
    for c in it: s.chars()
        invariant
            it.seq() == s@,
            v@ == it.seq().take(it.index()),
    {
        v.push(c);
    }
    v
}

/// `String::from_iter` over a character vector: the string made of exactly these
/// characters, in order.
#[verifier::external_body]
pub(crate) fn string_from(v: &Vec<char>) -> (s: String)
    ensures
        s@ == v@,
{
    v.iter().collect()
}


/// `s.to_owned()`.
pub fn owned(s: &str) -> (r: String)
    ensures
        r@ == s@,
{
    let v = chars_of(s);
    string_from(&v)
}

/// Appends `tail` to `v`.
pub fn push_all(v: &mut Vec<char>, tail: &Vec<char>)
    ensures
        final(v)@ == old(v)@ + tail@,
{
    let mut i: usize = 0;
    while i < tail.len()
        invariant
            i <= tail.len(),
            v@ == old(v)@ + tail@.take(i as int),
        decreases tail.len() - i,
    {
        v.push(tail[i]);
        i = i + 1;
        assert(tail@.take(i as int) == tail@.take(i - 1) + seq![tail@[i - 1]]);
    }
    assert(tail@.take(tail.len() as int) == tail@);
}

/// Appends the characters of `s` to `v`.
pub fn push_str(v: &mut Vec<char>, s: &str)
    ensures
        final(v)@ == old(v)@ + s@,
{
    let t = chars_of(s);
    push_all(v, &t);
}

/// The characters `v[from..to]`.
pub fn slice_of(v: &Vec<char>, from: usize, to: usize) -> (r: Vec<char>)
    requires
        from <= to <= v.len(),
    ensures
        r@ == v@.subrange(from as int, to as int),
{
    let mut r: Vec<char> = Vec::new();
    let mut i = from;
    while i < to
        invariant
            from <= i <= to <= v.len(),
            r@ == v@.subrange(from as int, i as int),
        decreases to - i,
    {
        r.push(v[i]);
        i = i + 1;
    }
    r
}

// ---------------------------------------------------------------------------
// Character classes
// ---------------------------------------------------------------------------

/// Unicode `White_Space`, the set `char::is_whitespace` tests.
pub open spec fn is_white_space(c: char) -> bool {
    let u = c as u32;
    ||| 0x09 <= u <= 0x0D
    ||| u == 0x20
    ||| u == 0x85
    ||| u == 0xA0
    ||| u == 0x1680
    ||| 0x2000 <= u <= 0x200A
    ||| u == 0x2028
    ||| u == 0x2029
    ||| u == 0x202F
    ||| u == 0x205F
    ||| u == 0x3000
}

/// Unicode general category `Cc`, the set `char::is_control` tests.
pub open spec fn is_control_char(c: char) -> bool {
    let u = c as u32;
    u <= 0x1F || (0x7F <= u <= 0x9F)
}

/// `'0'..='9'`.
pub open spec fn is_ascii_digit(c: char) -> bool {
    '0' <= c <= '9'
}

/// `c.to_ascii_lowercase()`: `A`-`Z` become `a`-`z`, everything else is kept.
pub open spec fn lower_char(c: char) -> char {
    if 'A' <= c <= 'Z' {
        (((c as u32) + 32) as u8) as char
    } else {
        c
    }
}

/// `s.to_ascii_lowercase()`.
pub open spec fn lower_seq(s: Seq<char>) -> Seq<char> {
    s.map_values(|c: char| lower_char(c))
}

/// `a.eq_ignore_ascii_case(b)`.
pub open spec fn eq_ignore_case(a: Seq<char>, b: Seq<char>) -> bool {
    lower_seq(a) == lower_seq(b)
}

pub fn is_whitespace_char(c: char) -> (b: bool)
    ensures
        b == is_white_space(c),
{
    let u = c as u32;
    (0x09 <= u && u <= 0x0D) || u == 0x20 || u == 0x85 || u == 0xA0 || u == 0x1680 || (0x2000
        <= u && u <= 0x200A) || u == 0x2028 || u == 0x2029 || u == 0x202F || u == 0x205F || u
        == 0x3000
}

pub fn is_control(c: char) -> (b: bool)
    ensures
        b == is_control_char(c),
{
    let u = c as u32;
    u <= 0x1F || (0x7F <= u && u <= 0x9F)
}

pub fn to_lower_char(c: char) -> (r: char)
    ensures
        r == lower_char(c),
{
    if 'A' <= c && c <= 'Z' {
        let u = ((c as u32) + 32) as u8;
        let r = u as char;
        r
    } else {
        c
    }
}

/// `s.to_ascii_lowercase()`.
pub fn to_lower(s: &Vec<char>) -> (r: Vec<char>)
    ensures
        r@ == lower_seq(s@),
{
    let mut r: Vec<char> = Vec::new();
    let mut i: usize = 0;
    while i < s.len()
        invariant
            i <= s.len(),
            r@ == lower_seq(s@.take(i as int)),
        decreases s.len() - i,
    {
        let c = to_lower_char(s[i]);
        r.push(c);
        i = i + 1;
        assert(lower_seq(s@.take(i as int)) =~= lower_seq(s@.take(i - 1)).push(lower_char(s@[i - 1])));
    }
    assert(s@.take(s.len() as int) == s@);
    r
}

/// Whether the two character sequences are equal, ignoring ASCII case.
pub fn eq_ignore_ascii_case(a: &Vec<char>, b: &Vec<char>) -> (r: bool)
    ensures
        r == eq_ignore_case(a@, b@),
{
    if a.len() != b.len() {
        assert(lower_seq(a@).len() != lower_seq(b@).len());
        return false;
    }
    let mut i: usize = 0;
    while i < a.len()
        invariant
            i <= a.len() == b.len(),
            forall|j: int| 0 <= j < i ==> lower_char(a@[j]) == lower_char(b@[j]),
        decreases a.len() - i,
    {
        if to_lower_char(a[i]) != to_lower_char(b[i]) {
            assert(lower_seq(a@)[i as int] != lower_seq(b@)[i as int]);
            return false;
        }
        i = i + 1;
    }
    assert(lower_seq(a@) =~= lower_seq(b@));
    true
}

/// Whether every character of `s` is an ASCII digit (true of the empty sequence).
pub open spec fn all_digits(s: Seq<char>) -> bool {
    forall|i: int| 0 <= i < s.len() ==> is_ascii_digit(#[trigger] s[i])
}

pub fn all_ascii_digits(s: &Vec<char>, from: usize, to: usize) -> (r: bool)
    requires
        from <= to <= s.len(),
    ensures
        r == all_digits(s@.subrange(from as int, to as int)),
{
    let mut i = from;
    while i < to
        invariant
            from <= i <= to <= s.len(),
            forall|j: int| from <= j < i ==> is_ascii_digit(s@[j]),
        decreases to - i,
    {
        if !('0' <= s[i] && s[i] <= '9') {
            assert(!is_ascii_digit(s@.subrange(from as int, to as int)[i - from]));
            return false;
        }
        i = i + 1;
    }
    assert forall|j: int| 0 <= j < to - from implies is_ascii_digit(
        #[trigger] s@.subrange(from as int, to as int)[j],
    ) by {
        assert(s@.subrange(from as int, to as int)[j] == s@[from + j]);
    }
    true
}

// ---------------------------------------------------------------------------
// Trimming
// ---------------------------------------------------------------------------

/// `s.trim_start()`: `s` without its leading white space.
pub open spec fn trim_start_seq(s: Seq<char>) -> Seq<char>
    decreases s.len(),
{
    if s.len() > 0 && is_white_space(s[0]) {
        trim_start_seq(s.drop_first())
    } else {
        s
    }
}

/// `s.trim_end()`: `s` without its trailing white space.
pub open spec fn trim_end_seq(s: Seq<char>) -> Seq<char>
    decreases s.len(),
{
    if s.len() > 0 && is_white_space(s.last()) {
        trim_end_seq(s.drop_last())
    } else {
        s
    }
}

/// `s.trim()`.
pub open spec fn trim_seq(s: Seq<char>) -> Seq<char> {
    trim_end_seq(trim_start_seq(s))
}

/// Index of the first character of `s[from..to]` that is not white space, or `to`.
pub fn skip_white_space(s: &Vec<char>, from: usize, to: usize) -> (i: usize)
    requires
        from <= to <= s.len(),
    ensures
        from <= i <= to,
        trim_start_seq(s@.subrange(from as int, to as int)) == s@.subrange(i as int, to as int),
{
    let mut i = from;
    while i < to && is_whitespace_char(s[i])
        invariant
            from <= i <= to <= s.len(),
            trim_start_seq(s@.subrange(from as int, to as int)) == trim_start_seq(
                s@.subrange(i as int, to as int),
            ),
        decreases to - i,
    {
        assert(s@.subrange(i as int, to as int).drop_first() == s@.subrange(i + 1, to as int));
        i = i + 1;
    }
    i
}

/// One past the index of the last character of `s[from..to]` that is not white
/// space, or `from`.
pub fn skip_white_space_back(s: &Vec<char>, from: usize, to: usize) -> (j: usize)
    requires
        from <= to <= s.len(),
    ensures
        from <= j <= to,
        trim_end_seq(s@.subrange(from as int, to as int)) == s@.subrange(from as int, j as int),
{
    let mut j = to;
    while j > from && is_whitespace_char(s[j - 1])
        invariant
            from <= j <= to <= s.len(),
            trim_end_seq(s@.subrange(from as int, to as int)) == trim_end_seq(
                s@.subrange(from as int, j as int),
            ),
        decreases j - from,
    {
        assert(s@.subrange(from as int, j as int).drop_last() == s@.subrange(from as int, j - 1));
        j = j - 1;
    }
    j
}

/// The bounds of `s[from..to].trim()`.
pub fn trim_bounds(s: &Vec<char>, from: usize, to: usize) -> (r: (usize, usize))
    requires
        from <= to <= s.len(),
    ensures
        from <= r.0 <= r.1 <= to,
        trim_seq(s@.subrange(from as int, to as int)) == s@.subrange(r.0 as int, r.1 as int),
{
    let a = skip_white_space(s, from, to);
    let b = skip_white_space_back(s, a, to);
    (a, b)
}

/// `s.trim()` as a vector.
pub fn trim(s: &Vec<char>) -> (r: Vec<char>)
    ensures
        r@ == trim_seq(s@),
{
    let (a, b) = trim_bounds(s, 0, s.len());
    assert(s@.subrange(0, s.len() as int) == s@);
    slice_of(s, a, b)
}

// ---------------------------------------------------------------------------
// Searching and splitting
// ---------------------------------------------------------------------------

/// Index of the first `c` in `s` at or after `from`.
pub open spec fn find_char_from(s: Seq<char>, c: char, from: int) -> Option<int>
    decreases s.len() - from,
{
    if from < 0 || from >= s.len() {
        None
    } else if s[from] == c {
        Some(from)
    } else {
        find_char_from(s, c, from + 1)
    }
}

/// Index of the first `c` in `s`: `s.find(c)`.
pub open spec fn find_char(s: Seq<char>, c: char) -> Option<int> {
    find_char_from(s, c, 0)
}

pub proof fn lemma_find_char_from_bounds(s: Seq<char>, c: char, from: int)
    ensures
        find_char_from(s, c, from) matches Some(i) ==> from <= i < s.len() && s[i] == c && (
        forall|j: int| from <= j < i ==> s[j] != c),
        find_char_from(s, c, from) is None ==> forall|j: int| from <= j < s.len() && 0 <= from
            ==> s[j] != c,
    decreases s.len() - from,
{
    if from < 0 || from >= s.len() {
    } else if s[from] == c {
    } else {
        lemma_find_char_from_bounds(s, c, from + 1);
    }
}

/// Index of the first `c` in `s[from..to]`, counted from the start of `s`, or `to`.
pub fn find_char_in(s: &Vec<char>, c: char, from: usize, to: usize) -> (i: usize)
    requires
        from <= to <= s.len(),
    ensures
        from <= i <= to,
        i < to ==> s@[i as int] == c,
        forall|j: int| from <= j < i ==> s@[j] != c,
        find_char(s@.subrange(from as int, to as int), c) == (if i < to {
            Some(i - from)
        } else {
            None::<int>
        }),
{
    let ghost t = s@.subrange(from as int, to as int);
    let mut i = from;
    while i < to && s[i] != c
        invariant
            from <= i <= to <= s.len(),
            t == s@.subrange(from as int, to as int),
            forall|j: int| from <= j < i ==> s@[j] != c,
            find_char(t, c) == find_char_from(t, c, i - from),
        decreases to - i,
    {
        i = i + 1;
    }
    i
}

/// Index of the last `c` in `s[from..to]`, counted from the start of `s`.
pub fn rfind_char_in(s: &Vec<char>, c: char, from: usize, to: usize) -> (r: Option<usize>)
    requires
        from <= to <= s.len(),
    ensures
        r matches Some(i) ==> from <= i < to && s@[i as int] == c && forall|j: int|
            i < j < to ==> s@[j] != c,
        r is None ==> forall|j: int| from <= j < to ==> s@[j] != c,
{
    let mut j = to;
    while j > from
        invariant
            from <= j <= to <= s.len(),
            forall|k: int| j <= k < to ==> s@[k] != c,
        decreases j - from,
    {
        if s[j - 1] == c {
            return Some(j - 1);
        }
        j = j - 1;
    }
    None
}

/// Whether `s` starts with `p`.
pub open spec fn starts_with(s: Seq<char>, p: Seq<char>) -> bool {
    p.len() <= s.len() && s.take(p.len() as int) == p
}

/// Whether `s[from..to]` starts with `p`.
pub fn starts_with_at(s: &Vec<char>, from: usize, to: usize, p: &Vec<char>) -> (r: bool)
    requires
        from <= to <= s.len(),
    ensures
        r == starts_with(s@.subrange(from as int, to as int), p@),
{
    let ghost t = s@.subrange(from as int, to as int);
    if p.len() > to - from {
        return false;
    }
    let mut k: usize = 0;
    while k < p.len()
        invariant
            k <= p.len() <= to - from,
            from <= to <= s.len(),
            t == s@.subrange(from as int, to as int),
            forall|j: int| 0 <= j < k ==> s@[from + j] == p@[j],
        decreases p.len() - k,
    {
        if s[from + k] != p[k] {
            assert(t.take(p.len() as int)[k as int] != p@[k as int]);
            return false;
        }
        k = k + 1;
    }
    assert(t.take(p.len() as int) =~= p@);
    true
}

/// `s.split(sep)`: the pieces between separators, at least one.
pub open spec fn segments(s: Seq<char>, sep: char) -> Seq<Seq<char>>
    decreases s.len(),
{
    match find_char(s, sep) {
        None => seq![s],
        Some(i) => if 0 <= i < s.len() {
            seq![s.take(i)] + segments(s.skip(i + 1), sep)
        } else {
            seq![s]
        },
    }
}


/// The bounds of every piece of `s.split(sep)`, in order.
pub fn split_bounds(s: &Vec<char>, sep: char) -> (r: Vec<(usize, usize)>)
    ensures
        r.len() == segments(s@, sep).len(),
        forall|i: int| #![trigger r@[i]] 0 <= i < r.len() ==> r@[i].0 <= r@[i].1 <= s.len(),
        forall|i: int|
            0 <= i < r.len() ==> #[trigger] segments(s@, sep)[i] == s@.subrange(
                r@[i].0 as int,
                r@[i].1 as int,
            ),
{
    let n = s.len();
    let mut r: Vec<(usize, usize)> = Vec::new();
    let mut start: usize = 0;
    let ghost mut done: Seq<Seq<char>> = seq![];
    assert(s@.skip(0) == s@);
    loop
        invariant
            n == s.len(),
            start <= n,
            r.len() == done.len(),
            forall|i: int| #![trigger r@[i]] 0 <= i < r.len() ==> r@[i].0 <= r@[i].1 <= n,
            forall|i: int|
                0 <= i < r.len() ==> #[trigger] done[i] == s@.subrange(
                    r@[i].0 as int,
                    r@[i].1 as int,
                ),
            segments(s@, sep) == done + segments(s@.skip(start as int), sep),
        decreases n - start,
    {
        let ghost t = s@.skip(start as int);
        assert(t == s@.subrange(start as int, n as int));
        let e = find_char_in(s, sep, start, n);
        let ghost seg = s@.subrange(start as int, e as int);
        let ghost old_r = r@;
        let ghost old_done = done;
        r.push((start, e));
        proof {
            done = done.push(seg);
            assert forall|i: int|
                0 <= i < r.len() implies r@[i].0 <= r@[i].1 <= n && #[trigger] done[i]
                == s@.subrange(r@[i].0 as int, r@[i].1 as int) by {
                if i < old_r.len() {
                    assert(r@[i] == old_r[i]);
                    assert(done[i] == old_done[i]);
                } else {
                    assert(r@[i] == (start, e));
                    assert(done[i] == seg);
                }
            }
        }
        if e < n {
            assert(t.take(e - start) == seg);
            assert(t.skip(e - start + 1) == s@.skip(e + 1));
            assert(segments(t, sep) == seq![seg] + segments(s@.skip(e + 1), sep));
            assert(segments(s@, sep) == done + segments(s@.skip(e + 1), sep));
            start = e + 1;
        } else {
            assert(segments(t, sep) == seq![t]);
            assert(t == seg);
            assert(segments(s@, sep) =~= done);
            return r;
        }
    }
}

/// The first piece of `s.split(sep)`: everything before the first `sep`.
pub open spec fn first_segment(s: Seq<char>, sep: char) -> Seq<char> {
    match find_char(s, sep) {
        None => s,
        Some(i) => s.take(i),
    }
}

/// The end of the first piece of `s[from..to].split(sep)`, counted from the
/// start of `s`.
pub fn first_segment_end(s: &Vec<char>, sep: char, from: usize, to: usize) -> (e: usize)
    requires
        from <= to <= s.len(),
    ensures
        from <= e <= to,
        first_segment(s@.subrange(from as int, to as int), sep) == s@.subrange(
            from as int,
            e as int,
        ),
{
    let e = find_char_in(s, sep, from, to);
    assert(s@.subrange(from as int, to as int).take(e - from) == s@.subrange(
        from as int,
        e as int,
    ));
    e
}


/// Whether the two character vectors are equal.
pub fn chars_eq(a: &Vec<char>, b: &Vec<char>) -> (r: bool)
    ensures
        r == (a@ == b@),
{
    if a.len() != b.len() {
        return false;
    }
    let mut i: usize = 0;
    while i < a.len()
        invariant
            i <= a.len() == b.len(),
            forall|j: int| 0 <= j < i ==> a@[j] == b@[j],
        decreases a.len() - i,
    {
        if a[i] != b[i] {
            return false;
        }
        i = i + 1;
    }
    assert(a@ =~= b@);
    true
}

/// Whether the characters in `v` are exactly those of `s`.
pub fn chars_eq_str(v: &Vec<char>, s: &str) -> (r: bool)
    ensures
        r == (v@ == s@),
{
    let t = chars_of(s);
    chars_eq(v, &t)
}

/// Index of the first occurrence of `needle` in `hay` at or after `from`.
pub open spec fn find_seq_from(hay: Seq<char>, needle: Seq<char>, from: int) -> Option<int>
    decreases hay.len() + 1 - from,
{
    if from < 0 || from + needle.len() > hay.len() {
        None
    } else if hay.subrange(from, from + needle.len()) == needle {
        Some(from)
    } else {
        find_seq_from(hay, needle, from + 1)
    }
}

/// `hay.find(needle)`.
pub open spec fn find_seq(hay: Seq<char>, needle: Seq<char>) -> Option<int> {
    find_seq_from(hay, needle, 0)
}

/// `hay.find(needle)`, as an index into `hay`.
pub fn find_in(hay: &Vec<char>, needle: &Vec<char>) -> (r: Option<usize>)
    ensures
        r matches Some(i) ==> find_seq(hay@, needle@) == Some(i as int) && i + needle.len()
            <= hay.len(),
        r is None ==> find_seq(hay@, needle@) is None,
{
    if needle.len() == 0 {
        assert(hay@.subrange(0, 0) =~= needle@);
        return Some(0);
    }
    let mut i: usize = 0;
    while i <= hay.len() && needle.len() <= hay.len() - i
        invariant
            needle.len() > 0,
            find_seq(hay@, needle@) == find_seq_from(hay@, needle@, i as int),
        decreases hay.len() + 1 - i,
    {
        if starts_with_at(hay, i, hay.len(), needle) {
            assert(hay@.subrange(i as int, hay.len() as int).take(needle.len() as int)
                == hay@.subrange(i as int, i + needle.len()));
            return Some(i);
        }
        assert(hay@.subrange(i as int, hay.len() as int).take(needle.len() as int)
            == hay@.subrange(i as int, i + needle.len()));
        i = i + 1;
    }
    None
}

// ---------------------------------------------------------------------------
// Decimal numbers
// ---------------------------------------------------------------------------

/// The digit character for `d < 10`.
pub open spec fn digit_char(d: nat) -> char {
    ((d + 48) as u8) as char
}

/// The value of an ASCII digit.
pub open spec fn digit_value(c: char) -> nat {
    ((c as u32) - 48) as nat
}

/// `n.to_string()`: the decimal digits of `n`, most significant first, without
/// leading zeros.
pub open spec fn decimal(n: nat) -> Seq<char>
    decreases n,
{
    if n < 10 {
        seq![digit_char(n)]
    } else {
        decimal(n / 10).push(digit_char(n % 10))
    }
}

/// The value of a string of ASCII digits (0 for the empty string).
pub open spec fn digits_value(s: Seq<char>) -> nat
    decreases s.len(),
{
    if s.len() == 0 {
        0
    } else {
        digits_value(s.drop_last()) * 10 + digit_value(s.last())
    }
}

/// What `str::parse` makes of an unsigned decimal: an optional `+`, then one or
/// more ASCII digits. Its value is not bounded here.
pub open spec fn unsigned_value(s: Seq<char>) -> Option<nat> {
    let d = if s.len() > 0 && s[0] == '+' {
        s.drop_first()
    } else {
        s
    };
    if d.len() == 0 || !all_digits(d) {
        None
    } else {
        Some(digits_value(d))
    }
}

/// `s.parse::<usize>().ok()`.
pub open spec fn parse_usize(s: Seq<char>) -> Option<usize> {
    match unsigned_value(s) {
        Some(v) => if v <= usize::MAX {
            Some(v as usize)
        } else {
            None
        },
        None => None,
    }
}

/// `s.parse::<i32>().ok()`: an optional sign, then one or more ASCII digits, whose
/// value fits in `i32`.
pub open spec fn parse_i32(s: Seq<char>) -> Option<i32> {
    if s.len() > 0 && s[0] == '-' {
        let d = s.drop_first();
        if d.len() == 0 || !all_digits(d) || digits_value(d) > 0x8000_0000 {
            None
        } else {
            Some((0 - digits_value(d)) as i32)
        }
    } else {
        match unsigned_value(s) {
            Some(v) => if v <= 0x7fff_ffff {
                Some(v as i32)
            } else {
                None
            },
            None => None,
        }
    }
}

pub proof fn lemma_digits_value_prefix(s: Seq<char>, k: int)
    requires
        0 <= k <= s.len(),
    ensures
        digits_value(s.take(k)) <= digits_value(s),
    decreases s.len(),
{
    if k < s.len() {
        assert(s.drop_last().take(k) == s.take(k));
        lemma_digits_value_prefix(s.drop_last(), k);
        let v = digits_value(s.drop_last());
        assert(v <= v * 10) by (nonlinear_arith);
    } else {
        assert(s.take(k) == s);
    }
}

/// The value of the ASCII digits `s[from..to]`, or `None` once it passes `bound`.
pub(crate) fn digits_value_up_to(s: &Vec<char>, from: usize, to: usize, bound: u64) -> (r: Option<u64>)
    requires
        from <= to <= s.len(),
        all_digits(s@.subrange(from as int, to as int)),
    ensures
        r matches Some(v) ==> v == digits_value(s@.subrange(from as int, to as int)) && v <= bound,
        r is None ==> digits_value(s@.subrange(from as int, to as int)) > bound,
{
    let ghost d = s@.subrange(from as int, to as int);
    let mut acc: u128 = 0;
    let mut i = from;
    while i < to
        invariant
            from <= i <= to <= s.len(),
            d == s@.subrange(from as int, to as int),
            all_digits(d),
            acc <= bound,
            acc == digits_value(d.take(i - from)),
        decreases to - i,
    {
        let ghost k = i - from;
        assert(is_ascii_digit(d[k]));
        assert(d[k] == s@[i as int]);
        let dv = (s[i] as u32 - 48) as u128;
        assert(d.take(k + 1).drop_last() == d.take(k));
        assert(digits_value(d.take(k + 1)) == digits_value(d.take(k)) * 10 + digit_value(d[k]));
        assert(acc * 10 + dv <= u128::MAX) by (nonlinear_arith)
            requires
                acc <= bound,
                bound <= u64::MAX,
                dv <= 9,
        ;
        let next = acc * 10 + dv;
        if next > bound as u128 {
            proof {
                lemma_digits_value_prefix(d, k + 1);
                assert(d.take(to - from) == d);
            }
            return None;
        }
        acc = next;
        i = i + 1;
    }
    assert(d.take(to - from) == d);
    Some(acc as u64)
}

/// `s[from..to].parse::<usize>().ok()`.
pub fn parse_usize_in(s: &Vec<char>, from: usize, to: usize) -> (r: Option<usize>)
    requires
        from <= to <= s.len(),
    ensures
        r == parse_usize(s@.subrange(from as int, to as int)),
{
    let ghost t = s@.subrange(from as int, to as int);
    let start = if from < to && s[from] == '+' {
        from + 1
    } else {
        from
    };
    assert(s@.subrange(start as int, to as int) == (if t.len() > 0 && t[0] == '+' {
        t.drop_first()
    } else {
        t
    }));
    if start == to || !all_ascii_digits(s, start, to) {
        return None;
    }
    match digits_value_up_to(s, start, to, usize::MAX as u64) {
        Some(v) => Some(v as usize),
        None => None,
    }
}

/// `s[from..to].parse::<i32>().ok()`.
pub fn parse_i32_in(s: &Vec<char>, from: usize, to: usize) -> (r: Option<i32>)
    requires
        from <= to <= s.len(),
    ensures
        r == parse_i32(s@.subrange(from as int, to as int)),
{
    let ghost t = s@.subrange(from as int, to as int);
    if from < to && s[from] == '-' {
        assert(s@.subrange(from + 1, to as int) == t.drop_first());
        if from + 1 == to || !all_ascii_digits(s, from + 1, to) {
            return None;
        }
        match digits_value_up_to(s, from + 1, to, 0x8000_0000) {
            Some(v) => {
                let r = (0 - (v as i64)) as i32;
                Some(r)
            },
            None => None,
        }
    } else {
        let start = if from < to && s[from] == '+' {
            from + 1
        } else {
            from
        };
        assert(s@.subrange(start as int, to as int) == (if t.len() > 0 && t[0] == '+' {
            t.drop_first()
        } else {
            t
        }));
        if start == to || !all_ascii_digits(s, start, to) {
            return None;
        }
        match digits_value_up_to(s, start, to, 0x7fff_ffff) {
            Some(v) => Some(v as i32),
            None => None,
        }
    }
}

/// The decimal digits of `n`.
pub fn decimal_chars(n: u64) -> (r: Vec<char>)
    ensures
        r@ == decimal(n as nat),
    decreases n,
{
    if n < 10 {
        let c = ((n + 48) as u8) as char;
        let mut r: Vec<char> = Vec::new();
        r.push(c);
        assert(r@ =~= seq![digit_char(n as nat)]);
        r
    } else {
        let mut r = decimal_chars(n / 10);
        let c = ((n % 10 + 48) as u8) as char;
        r.push(c);
        r
    }
}

/// `n.to_string()`.
pub fn decimal_string(n: u64) -> (s: String)
    ensures
        s@ == decimal(n as nat),
{
    let v = decimal_chars(n);
    string_from(&v)
}

} // verus!
