use crate::text::is_digit;
use vstd::prelude::*;

verus! {

/// Whether the text is made of decimal digits only.
pub open spec fn all_digits(s: Seq<u8>) -> bool {
    forall|i: int| 0 <= i < s.len() ==> is_digit(#[trigger] s[i])
}

/// The number that a run of decimal digits denotes; the empty run denotes zero.
pub open spec fn digits_value(s: Seq<u8>) -> int
    decreases s.len(),
{
    if s.len() == 0 {
        0
    } else {
        digits_value(s.drop_last()) * 10 + (s.last() - 0x30)
    }
}

/// The decimal digits of a natural number, without leading zeros.
pub open spec fn nat_text(n: nat) -> Seq<u8>
    decreases n,
{
    if n < 10 {
        seq![(0x30 + n) as u8]
    } else {
        nat_text(n / 10).push((0x30 + n % 10) as u8)
    }
}

/// The decimal text of an integer: a minus sign before the digits of a negative one.
pub open spec fn int_text(n: int) -> Seq<u8> {
    if n < 0 {
        seq![0x2du8] + nat_text((-n) as nat)
    } else {
        nat_text(n as nat)
    }
}

/// The integer that a text denotes: digits, with or without a minus sign before
/// them. Any other text denotes none.
pub open spec fn int_of_text(s: Seq<u8>) -> Option<int> {
    if s.len() > 1 && s[0] == 0x2d && all_digits(s.drop_first()) {
        Some(-digits_value(s.drop_first()))
    } else if s.len() > 0 && all_digits(s) {
        Some(digits_value(s))
    } else {
        None
    }
}

/// A run of digits denotes no less than any of its prefixes.
pub proof fn lemma_digits_value_prefix(s: Seq<u8>, k: int)
    requires
        all_digits(s),
        0 <= k <= s.len(),
    ensures
        0 <= digits_value(s.subrange(0, k)) <= digits_value(s),
    decreases s.len(),
{
    if k == s.len() {
        assert(s.subrange(0, k) =~= s);
        if s.len() > 0 {
            lemma_digits_value_prefix(s.drop_last(), k - 1);
        }
    } else {
        assert(s.drop_last().subrange(0, k) =~= s.subrange(0, k));
        lemma_digits_value_prefix(s.drop_last(), k);
    }
}

/// The digits of a number denote that number.
pub proof fn law_digits_denote_their_number(n: nat)
    ensures
        all_digits(nat_text(n)),
        nat_text(n).len() > 0,
        digits_value(nat_text(n)) == n,
        int_of_text(nat_text(n)) == Some(n as int),
    decreases n,
{
    if n < 10 {
        let t = nat_text(n);
        assert(t.drop_last() =~= Seq::<u8>::empty());
        assert(digits_value(t.drop_last()) == 0);
    } else {
        law_digits_denote_their_number(n / 10);
        let t = nat_text(n);
        assert(t.drop_last() =~= nat_text(n / 10));
    }
}

/// The decimal digits of `n`.
pub fn u64_text(n: u64) -> (r: Vec<u8>)
    ensures
        r@ == nat_text(n as nat),
{
    let mut out: Vec<u8> = Vec::new();
    let mut m: u64 = n;
    while m >= 10
        invariant
            nat_text(n as nat) == nat_text(m as nat) + out@,
        decreases m,
    {
        let d: u8 = (m % 10) as u8;
        out.insert(0, 0x30 + d);
        proof {
            let prev = out@.drop_first();
            assert(nat_text(m as nat) == nat_text((m / 10) as nat).push((0x30 + m % 10) as u8));
            assert(nat_text((m / 10) as nat).push((0x30 + d) as u8) + prev =~= nat_text(
                (m / 10) as nat,
            ) + out@);
        }
        m = m / 10;
    }
    out.insert(0, 0x30 + (m as u8));
    assert(nat_text(n as nat) =~= out@);
    out
}

/// The decimal text of `n`.
pub fn i64_text(n: i64) -> (r: Vec<u8>)
    ensures
        r@ == int_text(n as int),
{
    if n < 0 {
        let magnitude: u64 = ((-(n + 1)) as u64) + 1;
        let mut out = u64_text(magnitude);
        out.insert(0, 0x2d);
        assert(out@ =~= int_text(n as int));
        out
    } else {
        u64_text(n as u64)
    }
}

/// The number that a run of digits denotes, where it fits into 64 bits.
pub fn parse_digits(s: &[u8]) -> (r: Option<u64>)
    ensures
        r matches Some(v) ==> s@.len() > 0 && all_digits(s@) && digits_value(s@) == v,
        r is None ==> !(s@.len() > 0 && all_digits(s@) && digits_value(s@) <= u64::MAX),
{
    if s.len() == 0 {
        return None;
    }
    let mut acc: u64 = 0;
    let mut i: usize = 0;
    while i < s.len()
        invariant
            i <= s.len(),
            all_digits(s@.subrange(0, i as int)),
            acc == digits_value(s@.subrange(0, i as int)),
        decreases s.len() - i,
    {
        let b = s[i];
        if !(0x30 <= b && b <= 0x39) {
            return None;
        }
        let d: u64 = (b - 0x30) as u64;
        proof {
            let next = s@.subrange(0, i + 1);
            assert(next.drop_last() =~= s@.subrange(0, i as int));
            assert(next.last() == b);
            assert(all_digits(next)) by {
                assert forall|j: int| 0 <= j < next.len() implies is_digit(#[trigger] next[j]) by {
                    if j < i {
                        assert(next[j] == s@.subrange(0, i as int)[j]);
                    }
                }
            }
            if all_digits(s@) {
                lemma_digits_value_prefix(s@, i + 1);
            }
        }
        if acc > (u64::MAX - d) / 10 {
            return None;
        }
        acc = acc * 10 + d;
        i += 1;
    }
    assert(s@.subrange(0, s.len() as int) =~= s@);
    Some(acc)
}

} // verus!
