use vstd::prelude::*;
use vstd::string::StringSliceAdditionalSpecFns;

verus! {

/// An ASCII letter.
pub open spec fn is_alpha(b: u8) -> bool {
    (0x41 <= b <= 0x5a) || (0x61 <= b <= 0x7a)
}

/// An ASCII decimal digit.
pub open spec fn is_digit(b: u8) -> bool {
    0x30 <= b <= 0x39
}

/// A blank: space, tab, line feed or carriage return.
pub open spec fn is_space(b: u8) -> bool {
    b == 0x20 || b == 0x09 || b == 0x0a || b == 0x0d
}

/// A byte that may stand in a name: a letter, a digit or an underscore.
pub open spec fn is_word(b: u8) -> bool {
    is_alpha(b) || is_digit(b) || b == 0x5f
}

/// The byte with an upper-case ASCII letter turned into its lower-case form.
pub open spec fn lower(b: u8) -> u8 {
    if 0x41 <= b <= 0x5a {
        (b + 0x20) as u8
    } else {
        b
    }
}

/// Whether the two texts are equal once ASCII letters are lower-cased.
pub open spec fn eq_ignore_case(a: Seq<u8>, b: Seq<u8>) -> bool {
    a.len() == b.len() && forall|i: int| 0 <= i < a.len() ==> lower(a[i]) == lower(b[i])
}

/// Whether the two texts are the same, with or without regard to case.
pub open spec fn same_text(a: Seq<u8>, b: Seq<u8>, ignore_case: bool) -> bool {
    if ignore_case {
        eq_ignore_case(a, b)
    } else {
        a == b
    }
}

/// Whether `p` stands in `s` at index `pos`.
pub open spec fn occurs_at(s: Seq<u8>, pos: int, p: Seq<u8>, ignore_case: bool) -> bool {
    0 <= pos && pos + p.len() <= s.len() && same_text(
        s.subrange(pos, pos + p.len()),
        p,
        ignore_case,
    )
}

/// First index at or after `pos` whose byte is not a blank, or the length.
pub open spec fn skip_blanks(s: Seq<u8>, pos: int) -> int
    decreases s.len() - pos,
{
    if 0 <= pos < s.len() && is_space(s[pos]) {
        skip_blanks(s, pos + 1)
    } else {
        pos
    }
}

/// Least index at or before `end` after which only blanks stand before `end`.
pub open spec fn skip_blanks_back(s: Seq<u8>, end: int) -> int
    decreases end,
{
    if 0 < end <= s.len() && is_space(s[end - 1]) {
        skip_blanks_back(s, end - 1)
    } else {
        end
    }
}

/// The text without the blanks at its start.
pub open spec fn trim_start(s: Seq<u8>) -> Seq<u8> {
    s.subrange(skip_blanks(s, 0), s.len() as int)
}

/// The text without the blanks at its end.
pub open spec fn trim_end(s: Seq<u8>) -> Seq<u8> {
    s.subrange(0, skip_blanks_back(s, s.len() as int))
}

/// The text without the blanks at its start and end.
pub open spec fn trim(s: Seq<u8>) -> Seq<u8> {
    trim_end(trim_start(s))
}

/// A set of bytes that a run is made of.
#[derive(Clone, Copy, Debug)]
pub enum ByteClass {
    /// The decimal digits.
    Digit,
    /// The letters.
    Alpha,
    /// The bytes of a name.
    Word,
    /// Every byte but the given one.
    Except(u8),
}

/// Whether the byte belongs to the class.
pub open spec fn in_class(c: ByteClass, b: u8) -> bool {
    match c {
        ByteClass::Digit => is_digit(b),
        ByteClass::Alpha => is_alpha(b),
        ByteClass::Word => is_word(b),
        ByteClass::Except(x) => b != x,
    }
}

/// First index at or after `pos` whose byte is not of the class, or the length.
pub open spec fn run_end(s: Seq<u8>, pos: int, c: ByteClass) -> int
    decreases s.len() - pos,
{
    if 0 <= pos < s.len() && in_class(c, s[pos]) {
        run_end(s, pos + 1, c)
    } else {
        pos
    }
}

pub proof fn lemma_run_end(s: Seq<u8>, pos: int, c: ByteClass)
    requires
        0 <= pos <= s.len(),
    ensures
        pos <= run_end(s, pos, c) <= s.len(),
        forall|j: int| pos <= j < run_end(s, pos, c) ==> in_class(c, s[j]),
        run_end(s, pos, c) < s.len() ==> !in_class(c, s[run_end(s, pos, c)]),
        pos < s.len() && in_class(c, s[pos]) ==> pos < run_end(s, pos, c),
    decreases s.len() - pos,
{
    if pos < s.len() && in_class(c, s[pos]) {
        lemma_run_end(s, pos + 1, c);
    }
}

/// Number of times that `b` stands in `s`.
pub open spec fn count_of(s: Seq<u8>, b: u8) -> nat
    decreases s.len(),
{
    if s.len() == 0 {
        0
    } else {
        count_of(s.drop_last(), b) + (if s.last() == b {
            1nat
        } else {
            0nat
        })
    }
}

pub proof fn lemma_skip_blanks_bounds(s: Seq<u8>, pos: int)
    requires
        0 <= pos <= s.len(),
    ensures
        pos <= skip_blanks(s, pos) <= s.len(),
        forall|j: int| pos <= j < skip_blanks(s, pos) ==> is_space(s[j]),
        skip_blanks(s, pos) < s.len() ==> !is_space(s[skip_blanks(s, pos)]),
    decreases s.len() - pos,
{
    if pos < s.len() && is_space(s[pos]) {
        lemma_skip_blanks_bounds(s, pos + 1);
    }
}

pub proof fn lemma_skip_blanks_back_bounds(s: Seq<u8>, end: int)
    requires
        0 <= end <= s.len(),
    ensures
        0 <= skip_blanks_back(s, end) <= end,
        forall|j: int| skip_blanks_back(s, end) <= j < end ==> is_space(s[j]),
        skip_blanks_back(s, end) > 0 ==> !is_space(s[skip_blanks_back(s, end) - 1]),
    decreases end,
{
    if 0 < end && is_space(s[end - 1]) {
        lemma_skip_blanks_back_bounds(s, end - 1);
    }
}

/// The count over a text in two parts is the sum of the counts over the parts.
pub proof fn lemma_count_of_concat(a: Seq<u8>, b: Seq<u8>, x: u8)
    ensures
        count_of(a + b, x) == count_of(a, x) + count_of(b, x),
    decreases b.len(),
{
    if b.len() == 0 {
        assert(a + b =~= a);
    } else {
        assert((a + b).drop_last() =~= a + b.drop_last());
        assert((a + b).last() == b.last());
        lemma_count_of_concat(a, b.drop_last(), x);
    }
}

/// A text in which `x` does not stand counts none of it.
pub proof fn lemma_count_of_absent(s: Seq<u8>, x: u8)
    requires
        forall|i: int| 0 <= i < s.len() ==> s[i] != x,
    ensures
        count_of(s, x) == 0,
    decreases s.len(),
{
    if s.len() > 0 {
        lemma_count_of_absent(s.drop_last(), x);
    }
}

/// A part of a text holds no more of `x` than the whole.
pub proof fn lemma_count_of_subrange(s: Seq<u8>, from: int, to: int, x: u8)
    requires
        0 <= from <= to <= s.len(),
    ensures
        count_of(s, x) == count_of(s.subrange(0, from), x) + count_of(s.subrange(from, to), x)
            + count_of(s.subrange(to, s.len() as int), x),
{
    let a = s.subrange(0, from);
    let b = s.subrange(from, to);
    let c = s.subrange(to, s.len() as int);
    assert(s =~= (a + b) + c);
    lemma_count_of_concat(a + b, c, x);
    lemma_count_of_concat(a, b, x);
}

pub fn byte_is_alpha(b: u8) -> (r: bool)
    ensures
        r == is_alpha(b),
{
    (0x41 <= b && b <= 0x5a) || (0x61 <= b && b <= 0x7a)
}

pub fn byte_is_digit(b: u8) -> (r: bool)
    ensures
        r == is_digit(b),
{
    0x30 <= b && b <= 0x39
}

pub fn byte_is_space(b: u8) -> (r: bool)
    ensures
        r == is_space(b),
{
    b == 0x20 || b == 0x09 || b == 0x0a || b == 0x0d
}

pub fn byte_is_word(b: u8) -> (r: bool)
    ensures
        r == is_word(b),
{
    byte_is_alpha(b) || byte_is_digit(b) || b == 0x5f
}

pub fn byte_lower(b: u8) -> (r: u8)
    ensures
        r == lower(b),
{
    if 0x41 <= b && b <= 0x5a {
        b + 0x20
    } else {
        b
    }
}

pub fn byte_in_class(c: ByteClass, b: u8) -> (r: bool)
    ensures
        r == in_class(c, b),
{
    match c {
        ByteClass::Digit => byte_is_digit(b),
        ByteClass::Alpha => byte_is_alpha(b),
        ByteClass::Word => byte_is_word(b),
        ByteClass::Except(x) => b != x,
    }
}

/// First index at or after `pos` whose byte is not of the class, or the length.
pub fn scan_run(s: &[u8], pos: usize, c: ByteClass) -> (r: usize)
    requires
        pos <= s.len(),
    ensures
        r == run_end(s@, pos as int, c),
        pos <= r <= s.len(),
        pos < s.len() && in_class(c, s@[pos as int]) ==> pos < r,
{
    let mut i: usize = pos;
    while i < s.len() && byte_in_class(c, s[i])
        invariant
            pos <= i <= s.len(),
            run_end(s@, pos as int, c) == run_end(s@, i as int, c),
            pos < s.len() && in_class(c, s@[pos as int]) && i == pos ==> in_class(c, s@[i as int]),
        decreases s.len() - i,
    {
        i += 1;
    }
    i
}

/// Whether two texts hold the same bytes.
pub fn bytes_eq(a: &[u8], b: &[u8]) -> (r: bool)
    ensures
        r == (a@ == b@),
{
    if a.len() != b.len() {
        return false;
    }
    let mut i: usize = 0;
    while i < a.len()
        invariant
            a.len() == b.len(),
            i <= a.len(),
            forall|j: int| 0 <= j < i ==> a@[j] == b@[j],
        decreases a.len() - i,
    {
        if a[i] != b[i] {
            return false;
        }
        i += 1;
    }
    assert(a@ =~= b@);
    true
}

/// Whether `p` stands in `s` at index `pos`, with or without regard to case.
pub fn bytes_occur_at(s: &[u8], pos: usize, p: &[u8], ignore_case: bool) -> (r: bool)
    ensures
        r == occurs_at(s@, pos as int, p@, ignore_case),
{
    if pos > s.len() || p.len() > s.len() - pos {
        return false;
    }
    let ghost part = s@.subrange(pos as int, pos + p.len());
    let mut i: usize = 0;
    while i < p.len()
        invariant
            pos + p.len() <= s.len(),
            i <= p.len(),
            part == s@.subrange(pos as int, pos + p.len()),
            ignore_case ==> forall|j: int| 0 <= j < i ==> lower(part[j]) == lower(p@[j]),
            !ignore_case ==> forall|j: int| 0 <= j < i ==> part[j] == p@[j],
        decreases p.len() - i,
    {
        let x = s[pos + i];
        let y = p[i];
        assert(x == part[i as int]);
        if ignore_case {
            if byte_lower(x) != byte_lower(y) {
                return false;
            }
        } else {
            if x != y {
                assert(part[i as int] != p@[i as int]);
                return false;
            }
        }
        i += 1;
    }
    if !ignore_case {
        assert(part =~= p@);
    }
    true
}

/// Appends `src` to `dst`.
pub fn push_bytes(dst: &mut Vec<u8>, src: &[u8])
    ensures
        final(dst)@ == old(dst)@ + src@,
{
    let mut i: usize = 0;
    while i < src.len()
        invariant
            i <= src.len(),
            dst@ == old(dst)@ + src@.subrange(0, i as int),
        decreases src.len() - i,
    {
        dst.push(src[i]);
        i += 1;
        assert(dst@ =~= old(dst)@ + src@.subrange(0, i as int));
    }
    assert(src@.subrange(0, src.len() as int) =~= src@);
}

/// The bytes of `s` from `from` up to `to`, as a text of their own.
pub fn copy_range(s: &[u8], from: usize, to: usize) -> (r: Vec<u8>)
    requires
        from <= to <= s.len(),
    ensures
        r@ == s@.subrange(from as int, to as int),
{
    let mut r: Vec<u8> = Vec::new();
    let mut i: usize = from;
    while i < to
        invariant
            from <= i <= to <= s.len(),
            r@ == s@.subrange(from as int, i as int),
        decreases to - i,
    {
        r.push(s[i]);
        i += 1;
        assert(r@ =~= s@.subrange(from as int, i as int));
    }
    r
}

/// A copy of the whole text.
pub fn copy_bytes(s: &[u8]) -> (r: Vec<u8>)
    ensures
        r@ == s@,
{
    let r = copy_range(s, 0, s.len());
    assert(s@.subrange(0, s.len() as int) =~= s@);
    r
}

/// The text of a string literal, byte for byte.
pub fn literal_bytes(s: &str) -> (r: Vec<u8>)
    ensures
        r@ == s.spec_bytes(),
{
    copy_bytes(s.as_bytes())
}

/// First index at or after `pos` whose byte is not a blank.
pub fn skip_blanks_from(s: &[u8], pos: usize) -> (r: usize)
    requires
        pos <= s.len(),
    ensures
        r == skip_blanks(s@, pos as int),
        pos <= r <= s.len(),
{
    let mut i: usize = pos;
    while i < s.len() && byte_is_space(s[i])
        invariant
            pos <= i <= s.len(),
            skip_blanks(s@, pos as int) == skip_blanks(s@, i as int),
        decreases s.len() - i,
    {
        i += 1;
    }
    i
}

/// Least index at or before `end` after which only blanks stand before `end`.
pub fn skip_blanks_back_from(s: &[u8], end: usize) -> (r: usize)
    requires
        end <= s.len(),
    ensures
        r == skip_blanks_back(s@, end as int),
        r <= end,
{
    let mut i: usize = end;
    while i > 0 && byte_is_space(s[i - 1])
        invariant
            i <= end <= s.len(),
            skip_blanks_back(s@, end as int) == skip_blanks_back(s@, i as int),
        decreases i,
    {
        i -= 1;
    }
    i
}

/// The text without the blanks at its start and end.
pub fn trim_bytes(s: &[u8]) -> (r: Vec<u8>)
    ensures
        r@ == trim(s@),
{
    let a = skip_blanks_from(s, 0);
    let ghost mid = s@.subrange(a as int, s.len() as int);
    let mid_vec = copy_range(s, a, s.len());
    let b = skip_blanks_back_from(mid_vec.as_slice(), mid_vec.len());
    copy_range(mid_vec.as_slice(), 0, b)
}

/// Whether every byte of the text is a blank.
pub open spec fn all_blank(s: Seq<u8>) -> bool {
    forall|i: int| 0 <= i < s.len() ==> is_space(#[trigger] s[i])
}

/// Whether every byte of the text is a blank.
pub fn is_blank(s: &[u8]) -> (r: bool)
    ensures
        r == all_blank(s@),
{
    let mut i: usize = 0;
    while i < s.len()
        invariant
            i <= s.len(),
            forall|j: int| 0 <= j < i ==> is_space(s@[j]),
        decreases s.len() - i,
    {
        if !byte_is_space(s[i]) {
            return false;
        }
        i += 1;
    }
    true
}

} // verus!
