use crate::text::{byte_is_alpha, copy_range, is_alpha};
use vstd::prelude::*;

verus! {

/// Least index at or before `end` after which only letters stand before `end`.
pub open spec fn suffix_start(s: Seq<u8>, end: int) -> int
    decreases end,
{
    if 0 < end <= s.len() && is_alpha(s[end - 1]) {
        suffix_start(s, end - 1)
    } else {
        end
    }
}

/// The text of a number without the letters at its end, which say its kind.
pub open spec fn numeric_part(s: Seq<u8>) -> Seq<u8> {
    s.subrange(0, suffix_start(s, s.len() as int))
}

/// The letters at the end are cut and nothing else: what is left and the run of
/// letters make up the text, and what is left does not end in a letter.
pub proof fn law_only_trailing_letters_are_cut(s: Seq<u8>)
    ensures
        numeric_part(s).len() <= s.len(),
        numeric_part(s) == s.subrange(0, numeric_part(s).len() as int),
        forall|i: int| numeric_part(s).len() <= i < s.len() ==> is_alpha(s[i]),
        numeric_part(s).len() > 0 ==> !is_alpha(numeric_part(s).last()),
{
    lemma_suffix_start(s, s.len() as int);
}

proof fn lemma_suffix_start(s: Seq<u8>, end: int)
    requires
        0 <= end <= s.len(),
    ensures
        0 <= suffix_start(s, end) <= end,
        forall|i: int| suffix_start(s, end) <= i < end ==> is_alpha(s[i]),
        suffix_start(s, end) > 0 ==> !is_alpha(s[suffix_start(s, end) - 1]),
    decreases end,
{
    if 0 < end && is_alpha(s[end - 1]) {
        lemma_suffix_start(s, end - 1);
    }
}

/// The text of a number without the letters at its end: what is left of
/// `1.2332ESF` is `1.2332`, and of letters alone nothing.
pub fn extract_number(s: &[u8]) -> (r: Vec<u8>)
    ensures
        r@ == numeric_part(s@),
{
    let mut end: usize = s.len();
    while end > 0 && byte_is_alpha(s[end - 1])
        invariant
            end <= s.len(),
            suffix_start(s@, s@.len() as int) == suffix_start(s@, end as int),
        decreases end,
    {
        end -= 1;
    }
    copy_range(s, 0, end)
}

} // verus!
