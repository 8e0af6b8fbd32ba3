//! Byte-level text primitives shared by the scanner, the grammar and the
//! renderer. All text in this crate is UTF-8 held as bytes, and every position
//! is a byte offset.

use vstd::prelude::*;
use vstd::slice::slice_subrange;
use vstd::slice::slice_to_vec;
use vstd::string::StringSliceAdditionalSpecFns;

verus! {

/// The classes of bytes that the scanners skip over or collect.
#[derive(Clone, Copy, Debug, PartialEq, Eq)]
pub enum ByteClass {
    /// ASCII whitespace: space, tab, line feed, form feed, carriage return.
    Space,
    /// `0` to `9`.
    Digit,
    /// ASCII letters and digits.
    Alnum,
    /// ASCII letters, digits and `_`.
    Word,
}

/// ASCII whitespace.
pub open spec fn is_space(b: u8) -> bool {
    b == 32 || b == 9 || b == 10 || b == 12 || b == 13
}

/// `0` to `9`.
pub open spec fn is_digit(b: u8) -> bool {
    48 <= b <= 57
}

/// An ASCII letter.
pub open spec fn is_letter(b: u8) -> bool {
    (65 <= b <= 90) || (97 <= b <= 122)
}

/// An ASCII letter or digit.
pub open spec fn is_alnum(b: u8) -> bool {
    is_digit(b) || is_letter(b)
}

/// An ASCII letter, a digit or `_`.
pub open spec fn is_word(b: u8) -> bool {
    is_alnum(b) || b == 95
}

/// The byte `b` belongs to `class`.
pub open spec fn in_class(class: ByteClass, b: u8) -> bool {
    match class {
        ByteClass::Space => is_space(b),
        ByteClass::Digit => is_digit(b),
        ByteClass::Alnum => is_alnum(b),
        ByteClass::Word => is_word(b),
    }
}

/// Whether the byte `b` belongs to `class`.
pub fn class_has(class: ByteClass, b: u8) -> (r: bool)
    ensures
        r == in_class(class, b),
{
    let digit = 48 <= b && b <= 57;
    let letter = (65 <= b && b <= 90) || (97 <= b && b <= 122);
    match class {
        ByteClass::Space => b == 32 || b == 9 || b == 10 || b == 12 || b == 13,
        ByteClass::Digit => digit,
        ByteClass::Alnum => digit || letter,
        ByteClass::Word => digit || letter || b == 95,
    }
}

/// Length of the longest run of bytes of `class` that starts at `pos`.
pub open spec fn run_at(s: Seq<u8>, pos: int, class: ByteClass) -> nat
    decreases s.len() - pos,
{
    if 0 <= pos < s.len() && in_class(class, s[pos]) {
        1 + run_at(s, pos + 1, class)
    } else {
        0
    }
}

/// Number of whitespace bytes at `pos`.
pub open spec fn spaces_at(s: Seq<u8>, pos: int) -> nat {
    run_at(s, pos, ByteClass::Space)
}

/// A run ends in the text, holds only bytes of its class, and stops before a byte of another class.
pub proof fn lemma_run_bound(s: Seq<u8>, pos: int, class: ByteClass)
    requires
        0 <= pos <= s.len(),
    ensures
        pos + run_at(s, pos, class) <= s.len(),
        forall|i: int| pos <= i < pos + run_at(s, pos, class) ==> in_class(class, #[trigger] s[i]),
        pos + run_at(s, pos, class) < s.len() ==> !in_class(
            class,
            s[pos + run_at(s, pos, class)],
        ),
    decreases s.len() - pos,
{
    if pos < s.len() && in_class(class, s[pos]) {
        lemma_run_bound(s, pos + 1, class);
    }
}

/// Position of the first byte at or after `pos` that is not of `class`.
pub fn scan_run(s: &[u8], pos: usize, class: ByteClass) -> (r: usize)
    requires
        pos <= s@.len(),
    ensures
        r == pos + run_at(s@, pos as int, class),
        pos <= r <= s@.len(),
{
    let mut i: usize = pos;
    while i < s.len() && class_has(class, s[i])
        invariant
            pos <= i <= s@.len(),
            pos + run_at(s@, pos as int, class) == i + run_at(s@, i as int, class),
        decreases s@.len() - i,
    {
        i += 1;
    }
    i
}

/// Position of the first non-whitespace byte at or after `pos`.
pub fn skip_spaces(s: &[u8], pos: usize) -> (r: usize)
    requires
        pos <= s@.len(),
    ensures
        r == pos + spaces_at(s@, pos as int),
        pos <= r <= s@.len(),
{
    scan_run(s, pos, ByteClass::Space)
}

/// `pat` occurs in `s` at `pos`.
pub open spec fn matches_at(s: Seq<u8>, pos: int, pat: Seq<u8>) -> bool {
    0 <= pos && pos + pat.len() <= s.len() && s.subrange(pos, pos + pat.len()) == pat
}

/// Whether `pat` occurs in `s` at `pos`.
pub fn starts_with_at(s: &[u8], pos: usize, pat: &[u8]) -> (r: bool)
    ensures
        r == matches_at(s@, pos as int, pat@),
{
    if pos > s.len() || pat.len() > s.len() - pos {
        return false;
    }
    let mut i: usize = 0;
    while i < pat.len()
        invariant
            pos + pat@.len() <= s@.len() <= usize::MAX,
            i <= pat@.len(),
            forall|j: int| 0 <= j < i ==> s@[pos + j] == pat@[j],
        decreases pat@.len() - i,
    {
        if s[pos + i] != pat[i] {
            assert(s@.subrange(pos as int, pos + pat@.len())[i as int] != pat@[i as int]);
            return false;
        }
        i += 1;
    }
    assert(s@.subrange(pos as int, pos + pat@.len()) =~= pat@);
    true
}

/// The byte at `pos` is `b`.
pub open spec fn byte_at(s: Seq<u8>, pos: int, b: u8) -> bool {
    0 <= pos < s.len() && s[pos] == b
}

/// Whether the byte at `pos` is `b`.
pub fn is_byte_at(s: &[u8], pos: usize, b: u8) -> (r: bool)
    ensures
        r == byte_at(s@, pos as int, b),
{
    pos < s.len() && s[pos] == b
}

/// First position at or after `pos` where `pat` occurs.
pub open spec fn find_from(s: Seq<u8>, pos: int, pat: Seq<u8>) -> Option<int>
    decreases s.len() - pos,
{
    if pos < 0 || pos + pat.len() > s.len() {
        None
    } else if matches_at(s, pos, pat) {
        Some(pos)
    } else if pos < s.len() {
        find_from(s, pos + 1, pat)
    } else {
        None
    }
}

/// `find_from` gives the first occurrence, and `None` only where there is none.
pub proof fn lemma_find_from(s: Seq<u8>, pos: int, pat: Seq<u8>)
    requires
        0 <= pos,
    ensures
        match find_from(s, pos, pat) {
            Some(i) => pos <= i && matches_at(s, i, pat) && forall|j: int|
                pos <= j < i ==> !matches_at(s, j, pat),
            None => forall|j: int| pos <= j ==> !matches_at(s, j, pat),
        },
    decreases s.len() - pos,
{
    if pos + pat.len() > s.len() {
    } else if matches_at(s, pos, pat) {
    } else if pos < s.len() {
        lemma_find_from(s, pos + 1, pat);
    }
}

/// The first position at or after `pos` where `pat` occurs.
pub fn find(s: &[u8], pos: usize, pat: &[u8]) -> (r: Option<usize>)
    requires
        pos <= s@.len(),
    ensures
        r.is_some() == find_from(s@, pos as int, pat@).is_some(),
        r matches Some(i) ==> find_from(s@, pos as int, pat@) == Some(i as int) && pos <= i && i
            + pat@.len() <= s@.len(),
{
    let mut i: usize = pos;
    loop
        invariant
            pos <= i <= s@.len(),
            find_from(s@, pos as int, pat@) == find_from(s@, i as int, pat@),
        decreases s@.len() - i,
    {
        if starts_with_at(s, i, pat) {
            return Some(i);
        }
        if i >= s.len() {
            return None;
        }
        i += 1;
    }
}

/// Whether two texts are the same.
pub fn bytes_eq(a: &[u8], b: &[u8]) -> (r: bool)
    ensures
        r == (a@ == b@),
{
    if a.len() != b.len() {
        return false;
    }
    let r = starts_with_at(a, 0, b);
    proof {
        if a@.len() == b@.len() {
            assert(a@.subrange(0, a@.len() as int) =~= a@);
        }
    }
    r
}

/// Copy of `s[from..to]`.
pub fn copy_range(s: &[u8], from: usize, to: usize) -> (r: Vec<u8>)
    requires
        from <= to <= s@.len(),
    ensures
        r@ == s@.subrange(from as int, to as int),
{
    slice_to_vec(slice_subrange(s, from, to))
}

/// A copy of `s`.
pub fn copy_bytes(s: &[u8]) -> (r: Vec<u8>)
    ensures
        r@ == s@,
{
    slice_to_vec(s)
}

/// Appends `s` to `out`.
pub fn append(out: &mut Vec<u8>, s: &[u8])
    ensures
        final(out)@ == old(out)@ + s@,
{
    let ghost before = out@;
    let mut i: usize = 0;
    while i < s.len()
        invariant
            i <= s@.len(),
            out@ == before + s@.subrange(0, i as int),
        decreases s@.len() - i,
    {
        out.push(s[i]);
        i += 1;
        assert(out@ =~= before + s@.subrange(0, i as int));
    }
    assert(s@.subrange(0, s@.len() as int) =~= s@);
}

/// The bytes of a piece of fixed text.
pub open spec fn lit(s: &str) -> Seq<u8> {
    s.spec_bytes()
}

/// Appends the bytes of `s` to `out`.
pub fn append_str(out: &mut Vec<u8>, s: &str)
    ensures
        final(out)@ == old(out)@ + lit(s),
{
    append(out, s.as_bytes());
}

/// Appends `'`, `s` and `'` to `out`.
pub fn append_quoted(out: &mut Vec<u8>, s: &[u8])
    ensures
        final(out)@ == old(out)@ + quoted(s@),
{
    out.push(39);
    append(out, s);
    out.push(39);
    assert(out@ =~= old(out)@ + quoted(s@));
}

/// `s` between two single quotes.
pub open spec fn quoted(s: Seq<u8>) -> Seq<u8> {
    seq![39u8] + s + seq![39u8]
}

/// Decimal digits of `n`, most significant first.
pub open spec fn decimal(n: nat) -> Seq<u8>
    decreases n,
{
    if n < 10 {
        seq![(48 + n) as u8]
    } else {
        decimal(n / 10).push((48 + n % 10) as u8)
    }
}

/// Decimal text of an integer, with `-` in front of a negative one.
pub open spec fn number_text(n: int) -> Seq<u8> {
    if n < 0 {
        seq![45u8] + decimal((-n) as nat)
    } else {
        decimal(n as nat)
    }
}

/// Appends the decimal digits of `n` to `out`.
pub fn push_decimal(out: &mut Vec<u8>, n: u64)
    ensures
        final(out)@ == old(out)@ + decimal(n as nat),
    decreases n,
{
    if n >= 10 {
        push_decimal(out, n / 10);
    }
    let d: u8 = (n % 10) as u8;
    let ghost mid = out@;
    out.push(48 + d);
    proof {
        if n >= 10 {
            assert(out@ =~= old(out)@ + decimal(n as nat));
        } else {
            assert(out@ =~= old(out)@ + decimal(n as nat));
        }
    }
}

/// Appends the decimal text of `n` to `out`.
pub fn push_number(out: &mut Vec<u8>, n: i64)
    ensures
        final(out)@ == old(out)@ + number_text(n as int),
{
    if n < 0 {
        out.push(45);
        let m: u64 = (-(n + 1)) as u64 + 1;
        push_decimal(out, m);
        assert(out@ =~= old(out)@ + number_text(n as int));
    } else {
        push_decimal(out, n as u64);
    }
}

/// Value of the decimal digits `s[from..to]`.
pub open spec fn digits_value(s: Seq<u8>, from: int, to: int) -> nat
    decreases to - from,
{
    if from >= to {
        0
    } else {
        digits_value(s, from, to - 1) * 10 + (s[to - 1] - 48) as nat
    }
}

/// Reads the digits `s[from..to]` as a number, or `None` where it exceeds `i64`.
pub fn read_digits(s: &[u8], from: usize, to: usize) -> (r: Option<i64>)
    requires
        from <= to <= s@.len(),
        forall|i: int| from <= i < to ==> is_digit(#[trigger] s@[i]),
    ensures
        r is Some <==> digits_value(s@, from as int, to as int) <= i64::MAX,
        r matches Some(v) ==> v == digits_value(s@, from as int, to as int),
{
    let mut v: i64 = 0;
    let mut i: usize = from;
    while i < to
        invariant
            from <= i <= to <= s@.len(),
            forall|j: int| from <= j < to ==> is_digit(#[trigger] s@[j]),
            v == digits_value(s@, from as int, i as int),
        decreases to - i,
    {
        let d: i64 = (s[i] - 48) as i64;
        proof {
            lemma_digits_monotone(s@, from as int, i + 1, to as int);
        }
        if v > (i64::MAX - d) / 10 {
            assert(digits_value(s@, from as int, i + 1) > i64::MAX);
            return None;
        }
        v = v * 10 + d;
        i += 1;
    }
    Some(v)
}

/// More digits make no smaller a number.
pub proof fn lemma_digits_monotone(s: Seq<u8>, from: int, mid: int, to: int)
    requires
        from <= mid <= to,
    ensures
        digits_value(s, from, mid) <= digits_value(s, from, to),
    decreases to - mid,
{
    if mid < to {
        lemma_digits_monotone(s, from, mid, to - 1);
        assert(digits_value(s, from, to - 1) <= digits_value(s, from, to - 1) * 10)
            by (nonlinear_arith);
    }
}

/// Number of whitespace bytes at the end of `s`.
pub open spec fn trailing_spaces(s: Seq<u8>) -> nat
    decreases s.len(),
{
    if s.len() > 0 && is_space(s.last()) {
        1 + trailing_spaces(s.drop_last())
    } else {
        0
    }
}

/// The text holds a line feed.
pub open spec fn has_line_break(s: Seq<u8>) -> bool {
    exists|i: int| 0 <= i < s.len() && s[i] == 10
}

/// A text chunk with its leading whitespace dropped where that whitespace
/// holds a line break, and likewise its trailing whitespace.
pub open spec fn trimmed(t: Seq<u8>) -> Seq<u8> {
    let lead = spaces_at(t, 0);
    let a = if has_line_break(t.subrange(0, lead as int)) {
        t.subrange(lead as int, t.len() as int)
    } else {
        t
    };
    let trail = trailing_spaces(a);
    if has_line_break(a.subrange(a.len() - trail, a.len() as int)) {
        a.subrange(0, a.len() - trail)
    } else {
        a
    }
}

/// Whether `s[from..to]` holds a line feed.
pub fn range_has_line_break(s: &[u8], from: usize, to: usize) -> (r: bool)
    requires
        from <= to <= s@.len(),
    ensures
        r == has_line_break(s@.subrange(from as int, to as int)),
{
    let mut i: usize = from;
    while i < to
        invariant
            from <= i <= to <= s@.len(),
            forall|j: int| from <= j < i ==> s@[j] != 10,
        decreases to - i,
    {
        if s[i] == 10 {
            assert(s@.subrange(from as int, to as int)[i - from] == 10);
            return true;
        }
        i += 1;
    }
    assert(forall|j: int|
        0 <= j < to - from ==> s@.subrange(from as int, to as int)[j] == s@[from + j]);
    false
}

/// Start of the trailing whitespace of `s[from..to]`.
pub fn scan_back(s: &[u8], from: usize, to: usize) -> (r: usize)
    requires
        from <= to <= s@.len(),
    ensures
        from <= r <= to,
        r == to - trailing_spaces(s@.subrange(from as int, to as int)),
{
    let mut i: usize = to;
    while i > from && class_has(ByteClass::Space, s[i - 1])
        invariant
            from <= i <= to <= s@.len(),
            to - trailing_spaces(s@.subrange(from as int, to as int)) == i - trailing_spaces(
                s@.subrange(from as int, i as int),
            ),
        decreases i,
    {
        proof {
            let cur = s@.subrange(from as int, i as int);
            assert(cur.last() == s@[i - 1]);
            assert(cur.drop_last() =~= s@.subrange(from as int, i - 1));
        }
        i -= 1;
    }
    proof {
        let cur = s@.subrange(from as int, i as int);
        if i > from {
            assert(cur.last() == s@[i - 1]);
        }
    }
    i
}

/// The bounds of `trimmed(s[from..to])` within `s`.
pub fn trim_range(s: &[u8], from: usize, to: usize) -> (r: (usize, usize))
    requires
        from <= to <= s@.len(),
    ensures
        from <= r.0 <= r.1 <= to,
        s@.subrange(r.0 as int, r.1 as int) == trimmed(s@.subrange(from as int, to as int)),
{
    let ghost t = s@.subrange(from as int, to as int);
    let lead_end = scan_run(slice_subrange(s, from, to), 0, ByteClass::Space) + from;
    let a0 = if range_has_line_break(s, from, lead_end) {
        lead_end
    } else {
        from
    };
    proof {
        assert(t.subrange(0, spaces_at(t, 0) as int) =~= s@.subrange(from as int, lead_end as int));
        assert(t.subrange(lead_end - from, t.len() as int) =~= s@.subrange(
            lead_end as int,
            to as int,
        ));
    }
    let ghost a = s@.subrange(a0 as int, to as int);
    let back = scan_back(s, a0, to);
    let a1 = if range_has_line_break(s, back, to) {
        back
    } else {
        to
    };
    proof {
        assert(a.subrange(a.len() - trailing_spaces(a), a.len() as int) =~= s@.subrange(
            back as int,
            to as int,
        ));
        assert(a.subrange(0, a.len() - trailing_spaces(a)) =~= s@.subrange(a0 as int, back as int));
    }
    (a0, a1)
}

} // verus!
