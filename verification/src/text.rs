//! Character-level text helpers shared by the parsers and the search.
//!
//! Strings are modelled by their `Seq<char>` view. Byte lengths are the
//! UTF-8 lengths of those characters.
use vstd::prelude::*;

verus! {

// ---------------------------------------------------------------------------
// Characters
// ---------------------------------------------------------------------------

/// `char::is_whitespace`: the Unicode `White_Space` property.
pub open spec fn is_ws(c: char) -> bool {
    let u = c as u32;
    ||| 0x09 <= u <= 0x0d
    ||| u == 0x20
    ||| u == 0x85
    ||| u == 0xa0
    ||| u == 0x1680
    ||| 0x2000 <= u <= 0x200a
    ||| u == 0x2028
    ||| u == 0x2029
    ||| u == 0x202f
    ||| u == 0x205f
    ||| u == 0x3000
}

pub fn is_whitespace(c: char) -> (r: bool)
    ensures
        r == is_ws(c),
{
    let u = c as u32;
    (0x09 <= u && u <= 0x0d) || u == 0x20 || u == 0x85 || u == 0xa0 || u == 0x1680 || (0x2000
        <= u && u <= 0x200a) || u == 0x2028 || u == 0x2029 || u == 0x202f || u == 0x205f || u
        == 0x3000
}

/// `char::to_ascii_lowercase`.
pub open spec fn ascii_lower(c: char) -> char {
    if 'A' <= c && c <= 'Z' {
        ((c as u32) + 32) as char
    } else {
        c
    }
}

pub fn to_ascii_lower(c: char) -> (r: char)
    ensures
        r == ascii_lower(c),
{
    if 'A' <= c && c <= 'Z' {
        let b: u8 = c as u8;
        (b + 32) as char
    } else {
        c
    }
}

/// `char::is_ascii_hexdigit`.
pub open spec fn is_hex(c: char) -> bool {
    ('0' <= c && c <= '9') || ('a' <= c && c <= 'f') || ('A' <= c && c <= 'F')
}

pub fn is_hex_digit(c: char) -> (r: bool)
    ensures
        r == is_hex(c),
{
    ('0' <= c && c <= '9') || ('a' <= c && c <= 'f') || ('A' <= c && c <= 'F')
}

/// `char::len_utf8`: the number of bytes of the character in UTF-8.
pub open spec fn utf8_width(c: char) -> nat {
    let u = c as u32;
    if u < 0x80 {
        1
    } else if u < 0x800 {
        2
    } else if u < 0x10000 {
        3
    } else {
        4
    }
}

/// Byte length of the UTF-8 encoding of `s` (`str::len`).
pub open spec fn utf8_len(s: Seq<char>) -> nat
    decreases s.len(),
{
    if s.len() == 0 {
        0
    } else {
        utf8_len(s.drop_last()) + utf8_width(s.last())
    }
}

pub proof fn lemma_utf8_len_bounds(s: Seq<char>)
    ensures
        s.len() <= utf8_len(s) <= 4 * s.len(),
    decreases s.len(),
{
    if s.len() > 0 {
        lemma_utf8_len_bounds(s.drop_last());
    }
}

pub proof fn lemma_utf8_len_take(s: Seq<char>, i: int)
    requires
        0 <= i < s.len(),
    ensures
        utf8_len(s.take(i + 1)) == utf8_len(s.take(i)) + utf8_width(s[i]),
{
    assert(s.take(i + 1).drop_last() =~= s.take(i));
}

pub fn char_utf8_width(c: char) -> (w: usize)
    ensures
        w == utf8_width(c),
{
    let u = c as u32;
    if u < 0x80 {
        1
    } else if u < 0x800 {
        2
    } else if u < 0x10000 {
        3
    } else {
        4
    }
}

/// The byte length of the text held in `v`.
pub fn utf8_len_of(v: &Vec<char>) -> (n: usize)
    requires
        v@.len() <= usize::MAX / 4,
    ensures
        n == utf8_len(v@),
{
    let mut n: usize = 0;
    let mut i: usize = 0;
    while i < v.len()
        invariant
            i <= v@.len() <= usize::MAX / 4,
            n == utf8_len(v@.take(i as int)),
        decreases v@.len() - i,
    {
        proof {
            lemma_utf8_len_take(v@, i as int);
            lemma_utf8_len_bounds(v@.take(i as int));
        }
        n = n + char_utf8_width(v[i]);
        i = i + 1;
    }
    assert(v@.take(i as int) =~= v@);
    n
}

// ---------------------------------------------------------------------------
// Sequences of characters
// ---------------------------------------------------------------------------

pub open spec fn lower_ascii(s: Seq<char>) -> Seq<char> {
    s.map_values(|c: char| ascii_lower(c))
}

pub open spec fn all_ascii(s: Seq<char>) -> bool {
    forall|i: int| 0 <= i < s.len() ==> (s[i] as u32) < 0x80
}

/// The characters that trimming removes: `"` when `quotes`, whitespace otherwise.
pub open spec fn strippable(c: char, quotes: bool) -> bool {
    if quotes {
        c == '"'
    } else {
        is_ws(c)
    }
}

/// Number of strippable characters at the front of `s`.
pub open spec fn leading_count(s: Seq<char>, quotes: bool) -> nat
    decreases s.len(),
{
    if s.len() > 0 && strippable(s[0], quotes) {
        1 + leading_count(s.drop_first(), quotes)
    } else {
        0
    }
}

/// Number of strippable characters at the back of `s`.
pub open spec fn trailing_count(s: Seq<char>, quotes: bool) -> nat
    decreases s.len(),
{
    if s.len() > 0 && strippable(s.last(), quotes) {
        1 + trailing_count(s.drop_last(), quotes)
    } else {
        0
    }
}

/// `s` without strippable characters at either end: `str::trim`, or
/// `str::trim_matches('"')` when `quotes`.
pub open spec fn trim_by(s: Seq<char>, quotes: bool) -> Seq<char> {
    let t = s.skip(leading_count(s, quotes) as int);
    t.take(t.len() - trailing_count(t, quotes))
}

/// `str::trim`.
pub open spec fn trim(s: Seq<char>) -> Seq<char> {
    trim_by(s, false)
}

/// `str::trim_matches('"')`.
pub open spec fn trim_quotes(s: Seq<char>) -> Seq<char> {
    trim_by(s, true)
}

/// If `k` strippable characters start `s` and `s[k]` is not one, `k` is the count.
pub proof fn lemma_leading_count_is(s: Seq<char>, quotes: bool, k: int)
    requires
        0 <= k <= s.len(),
        forall|i: int| 0 <= i < k ==> strippable(#[trigger] s[i], quotes),
        k < s.len() ==> !strippable(s[k], quotes),
    ensures
        leading_count(s, quotes) == k,
    decreases k,
{
    if k > 0 {
        assert forall|i: int| 0 <= i < k - 1 implies strippable(#[trigger] s.drop_first()[i], quotes) by {
            assert(s.drop_first()[i] == s[i + 1]);
        }
        if k - 1 < s.drop_first().len() {
            assert(s.drop_first()[k - 1] == s[k]);
        }
        lemma_leading_count_is(s.drop_first(), quotes, k - 1);
    }
}

pub proof fn lemma_trailing_count_is(s: Seq<char>, quotes: bool, k: int)
    requires
        0 <= k <= s.len(),
        forall|i: int| s.len() - k <= i < s.len() ==> strippable(#[trigger] s[i], quotes),
        k < s.len() ==> !strippable(s[s.len() - k - 1], quotes),
    ensures
        trailing_count(s, quotes) == k,
    decreases k,
{
    if k > 0 {
        let d = s.drop_last();
        assert forall|i: int| d.len() - (k - 1) <= i < d.len() implies strippable(#[trigger] d[i], quotes) by {
            assert(d[i] == s[i]);
        }
        if k - 1 < d.len() {
            assert(d[d.len() - (k - 1) - 1] == s[s.len() - k - 1]);
        }
        lemma_trailing_count_is(d, quotes, k - 1);
    }
}

/// The characters of `s`.
pub fn chars_of(s: &str) -> (v: Vec<char>)
    ensures
        v@ == s@,
{
    let mut v: Vec<char> = Vec::new();
    for c in it: s.chars()
        invariant
            v@ == it.seq().take(it.index() as int),
    {
        v.push(c);
    }
    assert(v@ =~= s@);
    v
}

/// Appends `c` to `s` (`String::push`).
#[verifier::external_body]
pub(crate) fn push_char(s: &mut String, c: char)
    ensures
        final(s)@ == old(s)@.push(c),
{
    s.push(c)
}

/// Appends the characters of `s` to `out`.
pub fn push_str(out: &mut String, s: &str)
    ensures
        final(out)@ == old(out)@ + s@,
{
    let v = chars_of(s);
    let mut i: usize = 0;
    while i < v.len()
        invariant
            i <= v@.len(),
            v@ == s@,
            out@ == old(out)@ + v@.take(i as int),
        decreases v@.len() - i,
    {
        push_char(out, v[i]);
        i = i + 1;
        assert(out@ =~= old(out)@ + v@.take(i as int));
    }
    assert(v@.take(i as int) =~= v@);
}

/// `a` followed by `b`.
pub fn concat_str(a: &str, b: &str) -> (r: String)
    ensures
        r@ == a@ + b@,
{
    let mut r = String::from_str(a);
    push_str(&mut r, b);
    r
}

/// The decimal digits of `n`, most significant first.
pub open spec fn decimal(n: nat) -> Seq<char>
    decreases n,
{
    if n < 10 {
        seq![digit_char(n)]
    } else {
        decimal(n / 10).push(digit_char(n % 10))
    }
}

pub open spec fn digit_char(d: nat) -> char {
    ((d % 10) + 48) as char
}

/// `n` written in decimal.
pub fn decimal_string(n: u64) -> (r: String)
    ensures
        r@ == decimal(n as nat),
{
    let mut digits: Vec<char> = Vec::new();
    let mut m = n;
    let ghost mut rest: Seq<char> = Seq::empty();
    loop
        invariant_except_break
            decimal(n as nat) == decimal(m as nat) + rest,
            digits@ == rest.reverse(),
        ensures
            decimal(n as nat) == rest,
            digits@ == rest.reverse(),
        decreases m,
    {
        let d = (m % 10) as u8;
        let c = (d + 48) as char;
        assert(c == digit_char(m as nat));
        if m < 10 {
            proof {
                assert(decimal(m as nat) == seq![c]);
            }
            digits.push(c);
            proof {
                assert(decimal(n as nat) =~= seq![c] + rest);
                rest = seq![c] + rest;
                assert(digits@ =~= rest.reverse());
            }
            break;
        }
        proof {
            assert(decimal(m as nat) == decimal((m / 10) as nat).push(c));
            assert(decimal(m as nat) + rest =~= decimal((m / 10) as nat) + (seq![c] + rest));
        }
        digits.push(c);
        m = m / 10;
        proof {
            rest = seq![c] + rest;
            assert(digits@ =~= rest.reverse());
        }
    }
    let mut s = String::new();
    let mut i = digits.len();
    while i > 0
        invariant
            i <= digits@.len(),
            digits@ == rest.reverse(),
            s@ == rest.take(digits@.len() - i),
            decimal(n as nat) == rest,
        decreases i,
    {
        i = i - 1;
        push_char(&mut s, digits[i]);
        proof {
            assert(s@ =~= rest.take(digits@.len() - i));
        }
    }
    assert(rest.take(digits@.len() as int) =~= rest);
    s
}

/// The characters `v[from..to]` as a `String`.
pub fn string_of_range(v: &Vec<char>, from: usize, to: usize) -> (s: String)
    requires
        from <= to <= v@.len(),
    ensures
        s@ == v@.subrange(from as int, to as int),
{
    let mut s = String::new();
    let mut i = from;
    while i < to
        invariant
            from <= i <= to <= v@.len(),
            s@ == v@.subrange(from as int, i as int),
        decreases to - i,
    {
        push_char(&mut s, v[i]);
        i = i + 1;
        assert(s@ =~= v@.subrange(from as int, i as int));
    }
    s
}

/// The characters of `v` as a `String`.
pub fn string_of(v: &Vec<char>) -> (s: String)
    ensures
        s@ == v@,
{
    let s = string_of_range(v, 0, v.len());
    assert(v@.subrange(0, v@.len() as int) =~= v@);
    s
}

fn is_strippable(c: char, quotes: bool) -> (r: bool)
    ensures
        r == strippable(c, quotes),
{
    if quotes {
        c == '"'
    } else {
        is_whitespace(c)
    }
}

/// Bounds `[start, end)` of `v[from..to]` once strippable characters are
/// removed from both ends.
pub fn trim_bounds_by(v: &Vec<char>, from: usize, to: usize, quotes: bool) -> (r: (usize, usize))
    requires
        from <= to <= v@.len(),
    ensures
        from <= r.0 <= r.1 <= to,
        v@.subrange(r.0 as int, r.1 as int) == trim_by(v@.subrange(from as int, to as int), quotes),
{
    let ghost s = v@.subrange(from as int, to as int);
    let mut a = from;
    while a < to && is_strippable(v[a], quotes)
        invariant
            from <= a <= to <= v@.len(),
            forall|i: int| from <= i < a ==> strippable(#[trigger] v@[i], quotes),
        decreases to - a,
    {
        a = a + 1;
    }
    proof {
        assert forall|i: int| 0 <= i < a - from implies strippable(#[trigger] s[i], quotes) by {
            assert(s[i] == v@[from + i]);
        }
        lemma_leading_count_is(s, quotes, a - from);
    }
    let ghost t = s.skip(leading_count(s, quotes) as int);
    assert(t =~= v@.subrange(a as int, to as int));
    let mut b = to;
    while b > a && is_strippable(v[b - 1], quotes)
        invariant
            a <= b <= to <= v@.len(),
            forall|i: int| b <= i < to ==> strippable(#[trigger] v@[i], quotes),
        decreases b,
    {
        b = b - 1;
    }
    proof {
        assert forall|i: int| t.len() - (to - b) <= i < t.len() implies strippable(#[trigger] t[i], quotes) by {
            assert(t[i] == v@[a + i]);
        }
        if to - b < t.len() {
            assert(t[t.len() - (to - b) - 1] == v@[b - 1]);
        }
        lemma_trailing_count_is(t, quotes, to - b);
        assert(trim_by(s, quotes) =~= v@.subrange(a as int, b as int));
    }
    (a, b)
}

/// Bounds `[start, end)` of `v[from..to]` once whitespace is trimmed from both ends.
pub fn trim_bounds(v: &Vec<char>, from: usize, to: usize) -> (r: (usize, usize))
    requires
        from <= to <= v@.len(),
    ensures
        from <= r.0 <= r.1 <= to,
        v@.subrange(r.0 as int, r.1 as int) == trim(v@.subrange(from as int, to as int)),
{
    trim_bounds_by(v, from, to, false)
}

/// `str::trim`, returning an owned string.
pub fn trim_string(s: &str) -> (r: String)
    ensures
        r@ == trim(s@),
{
    let v = chars_of(s);
    let (a, b) = trim_bounds(&v, 0, v.len());
    assert(v@.subrange(0, v@.len() as int) =~= v@);
    string_of_range(&v, a, b)
}

/// Whether `p` is a prefix of `s`.
pub open spec fn has_prefix(s: Seq<char>, p: Seq<char>) -> bool {
    p.len() <= s.len() && s.take(p.len() as int) == p
}

/// Whether `v[at..]` starts with `p`.
pub fn matches_at(v: &Vec<char>, at: usize, p: &Vec<char>) -> (r: bool)
    requires
        at <= v@.len(),
    ensures
        r == has_prefix(v@.skip(at as int), p@),
{
    let n = v.len();
    if p.len() > n - at {
        return false;
    }
    let mut i: usize = 0;
    while i < p.len()
        invariant
            n == v@.len(),
            at <= v@.len(),
            p@.len() <= v@.len() - at,
            i <= p@.len(),
            forall|j: int| 0 <= j < i ==> v@[at + j] == p@[j],
        decreases p@.len() - i,
    {
        assert(at + i < v@.len());
        if v[at + i] != p[i] {
            assert(v@.skip(at as int).take(p@.len() as int)[i as int] != p@[i as int]);
            return false;
        }
        i = i + 1;
    }
    assert(v@.skip(at as int).take(p@.len() as int) =~= p@);
    true
}

/// Lexicographic order of character sequences by code point; for UTF-8 text this
/// is the byte order that `str`'s `Ord` uses.
pub open spec fn seq_lt(a: Seq<char>, b: Seq<char>) -> bool
    decreases a.len(),
{
    if a.len() == 0 {
        b.len() > 0
    } else if b.len() == 0 {
        false
    } else if a[0] != b[0] {
        (a[0] as u32) < (b[0] as u32)
    } else {
        seq_lt(a.drop_first(), b.drop_first())
    }
}

/// `a < b` in `str` order: -1, 0 or 1 for less, equal, greater.
pub fn compare_chars(a: &Vec<char>, b: &Vec<char>) -> (r: i8)
    ensures
        r == -1 <==> seq_lt(a@, b@),
        r == 0 <==> a@ == b@,
        r == 1 <==> seq_lt(b@, a@),
        r == -1 || r == 0 || r == 1,
{
    let mut i: usize = 0;
    while i < a.len() && i < b.len() && a[i] == b[i]
        invariant
            i <= a@.len(),
            i <= b@.len(),
            a@.take(i as int) == b@.take(i as int),
        decreases a@.len() - i,
    {
        i = i + 1;
        assert(a@.take(i as int) =~= a@.take(i - 1).push(a@[i - 1]));
        assert(b@.take(i as int) =~= b@.take(i - 1).push(b@[i - 1]));
    }
    proof {
        lemma_seq_lt_common_prefix(a@, b@, i as int);
        if i == a@.len() && i == b@.len() {
            assert(a@ =~= a@.take(i as int));
            assert(b@ =~= b@.take(i as int));
        }
    }
    if i == a.len() {
        if i == b.len() {
            0
        } else {
            proof {
                assert(a@.len() != b@.len());
            }
            -1
        }
    } else if i == b.len() {
        1
    } else {
        proof {
            assert(a@[i as int] != b@[i as int]);
            lemma_char_u32_injective(a@[i as int], b@[i as int]);
        }
        if (a[i] as u32) < (b[i] as u32) {
            -1
        } else {
            1
        }
    }
}

/// Order of two sequences that share their first `i` characters is decided from `i` on.
pub proof fn lemma_seq_lt_common_prefix(a: Seq<char>, b: Seq<char>, i: int)
    requires
        0 <= i <= a.len(),
        i <= b.len(),
        a.take(i) == b.take(i),
    ensures
        seq_lt(a, b) == seq_lt(a.skip(i), b.skip(i)),
        seq_lt(b, a) == seq_lt(b.skip(i), a.skip(i)),
    decreases i,
{
    if i > 0 {
        assert(a[0] == a.take(i)[0]);
        assert(b[0] == b.take(i)[0]);
        assert(a.drop_first().take(i - 1) =~= a.take(i).drop_first());
        assert(b.drop_first().take(i - 1) =~= b.take(i).drop_first());
        lemma_seq_lt_common_prefix(a.drop_first(), b.drop_first(), i - 1);
        assert(a.drop_first().skip(i - 1) =~= a.skip(i));
        assert(b.drop_first().skip(i - 1) =~= b.skip(i));
    } else {
        assert(a.skip(0) =~= a);
        assert(b.skip(0) =~= b);
    }
}

/// Distinct characters have distinct code points.
pub proof fn lemma_char_u32_injective(a: char, b: char)
    ensures
        a != b ==> (a as u32) != (b as u32),
{
    broadcast use vstd::utf8::char_u32_cast;

    let ua = a as u32;
    let ub = b as u32;
    assert(ua as char == a);
    assert(ub as char == b);
}

/// `seq_lt` is a strict total order.
pub proof fn lemma_seq_lt_total(a: Seq<char>, b: Seq<char>)
    ensures
        a == b || seq_lt(a, b) || seq_lt(b, a),
        !(seq_lt(a, b) && seq_lt(b, a)),
        !seq_lt(a, a),
    decreases a.len(),
{
    lemma_seq_lt_irreflexive(a);
    if a.len() > 0 && b.len() > 0 {
        lemma_seq_lt_total(a.drop_first(), b.drop_first());
        if a[0] == b[0] && a.drop_first() == b.drop_first() {
            assert(a =~= seq![a[0]] + a.drop_first());
            assert(b =~= seq![b[0]] + b.drop_first());
        }
        lemma_char_u32_injective(a[0], b[0]);
    } else if a.len() == 0 && b.len() == 0 {
        assert(a =~= b);
    }
}

pub proof fn lemma_seq_lt_irreflexive(a: Seq<char>)
    ensures
        !seq_lt(a, a),
    decreases a.len(),
{
    if a.len() > 0 {
        lemma_seq_lt_irreflexive(a.drop_first());
    }
}

pub proof fn lemma_seq_lt_trans(a: Seq<char>, b: Seq<char>, c: Seq<char>)
    requires
        seq_lt(a, b),
        seq_lt(b, c),
    ensures
        seq_lt(a, c),
    decreases a.len(),
{
    if a.len() > 0 && b.len() > 0 && c.len() > 0 {
        if a[0] == b[0] && b[0] == c[0] {
            lemma_seq_lt_trans(a.drop_first(), b.drop_first(), c.drop_first());
        }
    }
}

// ---------------------------------------------------------------------------
// Lines
// ---------------------------------------------------------------------------

/// Position of the first `ch` in `s`, if any.
pub open spec fn first_index_of(s: Seq<char>, ch: char) -> Option<int>
    decreases s.len(),
{
    if s.len() == 0 {
        None
    } else if s[0] == ch {
        Some(0)
    } else {
        match first_index_of(s.drop_first(), ch) {
            None => None,
            Some(k) => Some(k + 1),
        }
    }
}

pub proof fn lemma_first_index_of(s: Seq<char>, ch: char)
    ensures
        match first_index_of(s, ch) {
            None => forall|i: int| 0 <= i < s.len() ==> #[trigger] s[i] != ch,
            Some(k) => 0 <= k < s.len() && s[k] == ch && forall|i: int|
                0 <= i < k ==> #[trigger] s[i] != ch,
        },
    decreases s.len(),
{
    if s.len() > 0 && s[0] != ch {
        lemma_first_index_of(s.drop_first(), ch);
        assert forall|i: int| 1 <= i < s.len() implies #[trigger] s[i] == s.drop_first()[i - 1] by {}
    }
}

pub proof fn lemma_first_index_of_is(s: Seq<char>, ch: char, k: int)
    requires
        0 <= k <= s.len(),
        forall|i: int| 0 <= i < k ==> #[trigger] s[i] != ch,
        k < s.len() ==> s[k] == ch,
    ensures
        first_index_of(s, ch) == if k < s.len() { Some(k) } else { None::<int> },
    decreases k,
{
    if k > 0 {
        assert forall|i: int| 0 <= i < k - 1 implies #[trigger] s.drop_first()[i] != ch by {
            assert(s.drop_first()[i] == s[i + 1]);
        }
        if k < s.len() {
            assert(s.drop_first()[k - 1] == s[k]);
        }
        lemma_first_index_of_is(s.drop_first(), ch, k - 1);
    }
}

/// A line without its `\r` when the line ended in `\r\n`.
pub open spec fn strip_cr(line: Seq<char>) -> Seq<char> {
    if line.len() > 0 && line.last() == '\r' {
        line.drop_last()
    } else {
        line
    }
}

/// `str::lines`: the text split at each `\n`, a `\r` before the `\n` dropped,
/// and no empty line after a final `\n`.
pub open spec fn lines(s: Seq<char>) -> Seq<Seq<char>>
    decreases s.len(),
{
    if s.len() == 0 {
        Seq::empty()
    } else {
        match first_index_of(s, '\n') {
            None => seq![s],
            Some(k) => {
                proof {
                    lemma_first_index_of(s, '\n');
                }
                seq![strip_cr(s.take(k))] + lines(s.skip(k + 1))
            },
        }
    }
}

/// The `[start, end)` ranges of the lines of `v` (`str::lines`).
pub fn line_ranges(v: &Vec<char>) -> (r: Vec<(usize, usize)>)
    ensures
        r@.len() == lines(v@).len(),
        forall|i: int|
            0 <= i < r@.len() ==> (#[trigger] r@[i]).0 <= r@[i].1 <= v@.len() && v@.subrange(
                r@[i].0 as int,
                r@[i].1 as int,
            ) == lines(v@)[i],
{
    let mut r: Vec<(usize, usize)> = Vec::new();
    let mut start: usize = 0;
    let ghost mut done: Seq<Seq<char>> = Seq::empty();
    assert(v@.skip(0) =~= v@);
    assert(done + lines(v@) =~= lines(v@));
    while start < v.len()
        invariant
            start <= v@.len(),
            done + lines(v@.skip(start as int)) == lines(v@),
            r@.len() == done.len(),
            forall|i: int|
                0 <= i < r@.len() ==> (#[trigger] r@[i]).0 <= r@[i].1 <= v@.len() && v@.subrange(
                    r@[i].0 as int,
                    r@[i].1 as int,
                ) == done[i],
        decreases v@.len() - start,
    {
        let ghost rest = v@.skip(start as int);
        let mut k = start;
        while k < v.len() && v[k] != '\n'
            invariant
                start <= k <= v@.len(),
                forall|i: int| start <= i < k ==> v@[i] != '\n',
            decreases v@.len() - k,
        {
            k = k + 1;
        }
        proof {
            assert forall|i: int| 0 <= i < k - start implies #[trigger] rest[i] != '\n' by {
                assert(rest[i] == v@[start + i]);
            }
            if k < v@.len() {
                assert(rest[k - start] == v@[k as int]);
            }
            lemma_first_index_of_is(rest, '\n', k - start);
        }
        let end = if k > start && v[k - 1] == '\r' && k < v.len() {
            k - 1
        } else {
            k
        };
        proof {
            let line = v@.subrange(start as int, end as int);
            if k < v@.len() {
                assert(rest.take(k - start) =~= v@.subrange(start as int, k as int));
                assert(strip_cr(rest.take(k - start)) =~= line);
                assert(rest.skip(k - start + 1) =~= v@.skip(k + 1));
                assert(lines(rest) == seq![line] + lines(v@.skip(k + 1)));
            } else {
                assert(rest =~= line);
                assert(v@.skip(k as int) =~= Seq::<char>::empty());
                assert(lines(rest) == seq![line]);
            }
            done = done.push(line);
        }
        r.push((start, end));
        proof {
            if k < v@.len() {
                assert(done + lines(v@.skip(k + 1)) =~= done.drop_last() + (seq![done.last()] + lines(v@.skip(k + 1))));
            } else {
                assert(lines(v@.skip(k as int)) =~= Seq::<Seq<char>>::empty());
                assert(done =~= done.drop_last() + seq![done.last()]);
            }
        }
        if k < v.len() {
            start = k + 1;
        } else {
            start = k;
        }
    }
    proof {
        assert(v@.skip(start as int) =~= Seq::<char>::empty());
        assert(done + Seq::<Seq<char>>::empty() =~= done);
    }
    r
}

/// `str::to_lowercase`: the lowercase mapping of the Unicode character database.
pub uninterp spec fn unicode_lowercase(s: Seq<char>) -> Seq<char>;

/// Calls `str::to_lowercase`. Its result is named by `unicode_lowercase`; on text
/// made only of ASCII characters the mapping is the ASCII one (`A`..`Z` to `a`..`z`),
/// as the Unicode tables give it.
#[verifier::external_body]
pub(crate) fn to_lowercase(s: &str) -> (r: String)
    ensures
        r@ == unicode_lowercase(s@),
        all_ascii(s@) ==> r@ == lower_ascii(s@),
{
    s.to_lowercase()
}


/// The first line of `s` (`s.lines().next()`).
pub fn first_line(s: &str) -> (r: Option<String>)
    ensures
        lines(s@).len() == 0 ==> r is None,
        lines(s@).len() > 0 ==> (r matches Some(x) && x@ == lines(s@)[0]),
{
    let v = chars_of(s);
    let rs = line_ranges(&v);
    if rs.len() == 0 {
        None
    } else {
        let (a, b) = rs[0];
        Some(string_of_range(&v, a, b))
    }
}


/// The number of terminal columns that `s` takes, by the rules of
/// `unicode_width`'s `UnicodeWidthStr::width`.
pub uninterp spec fn display_width(s: Seq<char>) -> nat;

/// Printable ASCII only: space to tilde.
pub open spec fn printable_ascii(s: Seq<char>) -> bool {
    forall|i: int| 0 <= i < s.len() ==> ' ' <= #[trigger] s[i] <= '~'
}

/// `UnicodeWidthStr::width`: the columns `s` takes on a terminal. Its result
/// is named; of the rules it follows only one is stated: every printable ASCII
/// character is one column wide and joins with no other.
#[verifier::external_body]
pub(crate) fn str_width(s: &str) -> (w: usize)
    ensures
        w == display_width(s@),
        printable_ascii(s@) ==> w == s@.len(),
{
    unicode_width::UnicodeWidthStr::width(s)
}
} // verus!
