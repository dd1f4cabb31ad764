//! The text rules of the trimming directives.

use crate::text::{
    byte_is_word, bytes_occur_at, copy_bytes, copy_range, is_space, is_word, occurs_at, push_bytes,
    skip_blanks, skip_blanks_back, skip_blanks_back_from, skip_blanks_from, trim, trim_bytes,
    trim_end, trim_start,
};
use vstd::prelude::*;

verus! {

/// Whether the token `t` opens the text `s`: `t` stands at the start, and where
/// it ends in a name byte the text does not go on with one.
pub open spec fn token_at_start(s: Seq<u8>, t: Seq<u8>, ignore_case: bool) -> bool {
    &&& t.len() > 0
    &&& occurs_at(s, 0, t, ignore_case)
    &&& (is_word(t.last()) && s.len() > t.len() ==> !is_word(s[t.len() as int]))
}

/// Whether the token `t` closes the text `s`: `t` stands at the end, and where
/// it starts with a name byte the text before it does not end in one.
pub open spec fn token_at_end(s: Seq<u8>, t: Seq<u8>, ignore_case: bool) -> bool {
    &&& t.len() > 0
    &&& occurs_at(s, s.len() - t.len(), t, ignore_case)
    &&& (is_word(t[0]) && s.len() > t.len() ==> !is_word(s[s.len() - t.len() - 1]))
}

/// The text without the first of `tokens` that opens it, and without the blanks
/// that follow that token; the text itself where none of them opens it.
pub open spec fn strip_start(s: Seq<u8>, tokens: Seq<Seq<u8>>, ignore_case: bool) -> Seq<u8>
    decreases tokens.len(),
{
    if tokens.len() == 0 {
        s
    } else if token_at_start(s, tokens[0], ignore_case) {
        trim_start(s.subrange(tokens[0].len() as int, s.len() as int))
    } else {
        strip_start(s, tokens.drop_first(), ignore_case)
    }
}

/// The text without the first of `tokens` that closes it, and without the blanks
/// before that token; the text itself where none of them closes it.
pub open spec fn strip_end(s: Seq<u8>, tokens: Seq<Seq<u8>>, ignore_case: bool) -> Seq<u8>
    decreases tokens.len(),
{
    if tokens.len() == 0 {
        s
    } else if token_at_end(s, tokens[0], ignore_case) {
        trim_end(s.subrange(0, s.len() - tokens[0].len()))
    } else {
        strip_end(s, tokens.drop_first(), ignore_case)
    }
}

/// What is left of a body once its blanks, one leading `prefix`, one trailing
/// `suffix`, one leading override and one trailing override are taken off.
pub open spec fn shaped_core(
    body: Seq<u8>,
    prefix: Seq<u8>,
    suffix: Seq<u8>,
    prefix_overrides: Seq<Seq<u8>>,
    suffix_overrides: Seq<Seq<u8>>,
    ignore_case: bool,
) -> Seq<u8> {
    let b0 = trim(body);
    let b1 = strip_start(b0, seq![prefix], ignore_case);
    let b2 = strip_end(b1, seq![suffix], ignore_case);
    let b3 = strip_start(b2, prefix_overrides, ignore_case);
    strip_end(b3, suffix_overrides, ignore_case)
}

/// The core between `prefix` and `suffix`, each set off by one space; nothing at
/// all where the core is empty.
pub open spec fn framed(core: Seq<u8>, prefix: Seq<u8>, suffix: Seq<u8>) -> Seq<u8> {
    if core.len() == 0 {
        Seq::empty()
    } else {
        (if prefix.len() > 0 {
            prefix + seq![0x20u8]
        } else {
            Seq::empty()
        }) + core + (if suffix.len() > 0 {
            seq![0x20u8] + suffix
        } else {
            Seq::empty()
        })
    }
}

/// The text that a trimming directive makes of the text of its body.
pub open spec fn shaped(
    body: Seq<u8>,
    prefix: Seq<u8>,
    suffix: Seq<u8>,
    prefix_overrides: Seq<Seq<u8>>,
    suffix_overrides: Seq<Seq<u8>>,
    ignore_case: bool,
) -> Seq<u8> {
    framed(
        shaped_core(body, prefix, suffix, prefix_overrides, suffix_overrides, ignore_case),
        prefix,
        suffix,
    )
}

/// What each text of a list stands for.
pub open spec fn texts(s: Seq<Vec<u8>>) -> Seq<Seq<u8>>
    decreases s.len(),
{
    if s.len() == 0 {
        Seq::empty()
    } else {
        texts(s.drop_last()).push(s.last()@)
    }
}

/// The views of a list of texts are the views of its texts, one for one.
pub proof fn lemma_texts(s: Seq<Vec<u8>>)
    ensures
        texts(s).len() == s.len(),
        forall|i: int| 0 <= i < s.len() ==> (#[trigger] texts(s)[i]) == s[i]@,
    decreases s.len(),
{
    if s.len() > 0 {
        lemma_texts(s.drop_last());
    }
}

/// A list with one more text at its end stands for one more view.
pub proof fn lemma_texts_push(s: Seq<Vec<u8>>, t: Vec<u8>)
    ensures
        texts(s.push(t)) == texts(s).push(t@),
{
    assert(s.push(t).drop_last() =~= s);
}

fn opens_with(s: &[u8], t: &[u8], ignore_case: bool) -> (r: bool)
    ensures
        r == token_at_start(s@, t@, ignore_case),
{
    if t.len() == 0 || !bytes_occur_at(s, 0, t, ignore_case) {
        return false;
    }
    if byte_is_word(t[t.len() - 1]) && s.len() > t.len() {
        !byte_is_word(s[t.len()])
    } else {
        true
    }
}

fn closes_with(s: &[u8], t: &[u8], ignore_case: bool) -> (r: bool)
    ensures
        r == token_at_end(s@, t@, ignore_case),
{
    if t.len() == 0 || t.len() > s.len() || !bytes_occur_at(
        s,
        s.len() - t.len(),
        t,
        ignore_case,
    ) {
        return false;
    }
    if byte_is_word(t[0]) && s.len() > t.len() {
        !byte_is_word(s[s.len() - t.len() - 1])
    } else {
        true
    }
}

/// Takes the first of `tokens` that opens the text off its start.
pub fn strip_start_bytes(s: Vec<u8>, tokens: &[Vec<u8>], ignore_case: bool) -> (r: Vec<u8>)
    ensures
        r@ == strip_start(s@, texts(tokens@), ignore_case),
{
    proof {
        lemma_texts(tokens@);
        assert(texts(tokens@).subrange(0, tokens@.len() as int) =~= texts(tokens@));
    }
    let mut i: usize = 0;
    while i < tokens.len()
        invariant
            i <= tokens.len(),
            texts(tokens@).len() == tokens@.len(),
            forall|j: int| 0 <= j < tokens@.len() ==> (#[trigger] texts(tokens@)[j]) == tokens@[j]@,
            strip_start(s@, texts(tokens@), ignore_case) == strip_start(
                s@,
                texts(tokens@).subrange(i as int, tokens@.len() as int),
                ignore_case,
            ),
        decreases tokens.len() - i,
    {
        let ghost rest = texts(tokens@).subrange(i as int, tokens@.len() as int);
        assert(rest[0] == tokens@[i as int]@);
        assert(rest.drop_first() =~= texts(tokens@).subrange(i + 1, tokens@.len() as int));
        if opens_with(s.as_slice(), tokens[i].as_slice(), ignore_case) {
            let from = skip_blanks_from(s.as_slice(), tokens[i].len());
            let out = copy_range(s.as_slice(), from, s.len());
            proof {
                let cut = s@.subrange(tokens@[i as int]@.len() as int, s@.len() as int);
                lemma_skip_blanks_shift(s@, tokens@[i as int]@.len() as int, 0);
                assert(out@ =~= trim_start(cut));
            }
            return out;
        }
        i += 1;
    }
    assert(texts(tokens@).subrange(tokens@.len() as int, tokens@.len() as int) =~= Seq::<
        Seq<u8>,
    >::empty());
    s
}

/// Takes the first of `tokens` that closes the text off its end.
pub fn strip_end_bytes(s: Vec<u8>, tokens: &[Vec<u8>], ignore_case: bool) -> (r: Vec<u8>)
    ensures
        r@ == strip_end(s@, texts(tokens@), ignore_case),
{
    proof {
        lemma_texts(tokens@);
        assert(texts(tokens@).subrange(0, tokens@.len() as int) =~= texts(tokens@));
    }
    let mut i: usize = 0;
    while i < tokens.len()
        invariant
            i <= tokens.len(),
            texts(tokens@).len() == tokens@.len(),
            forall|j: int| 0 <= j < tokens@.len() ==> (#[trigger] texts(tokens@)[j]) == tokens@[j]@,
            strip_end(s@, texts(tokens@), ignore_case) == strip_end(
                s@,
                texts(tokens@).subrange(i as int, tokens@.len() as int),
                ignore_case,
            ),
        decreases tokens.len() - i,
    {
        let ghost rest = texts(tokens@).subrange(i as int, tokens@.len() as int);
        assert(rest[0] == tokens@[i as int]@);
        assert(rest.drop_first() =~= texts(tokens@).subrange(i + 1, tokens@.len() as int));
        if closes_with(s.as_slice(), tokens[i].as_slice(), ignore_case) {
            let cut_len = s.len() - tokens[i].len();
            let to = skip_blanks_back_from(s.as_slice(), cut_len);
            let out = copy_range(s.as_slice(), 0, to);
            proof {
                let cut = s@.subrange(0, cut_len as int);
                lemma_skip_blanks_back_prefix(s@, cut_len as int, cut_len as int);
                assert(out@ =~= trim_end(cut));
            }
            return out;
        }
        i += 1;
    }
    assert(texts(tokens@).subrange(tokens@.len() as int, tokens@.len() as int) =~= Seq::<
        Seq<u8>,
    >::empty());
    s
}

/// Skipping blanks in the tail of a text is skipping them in the text, moved by
/// where the tail starts.
pub proof fn lemma_skip_blanks_shift(s: Seq<u8>, from: int, pos: int)
    requires
        0 <= from <= s.len(),
        0 <= pos <= s.len() - from,
    ensures
        skip_blanks(s.subrange(from, s.len() as int), pos) + from == skip_blanks(s, from + pos),
    decreases s.len() - from - pos,
{
    let t = s.subrange(from, s.len() as int);
    if pos < t.len() && is_space_at(t, pos) {
        lemma_skip_blanks_shift(s, from, pos + 1);
    }
}

/// Whether a blank stands at `pos`.
pub open spec fn is_space_at(s: Seq<u8>, pos: int) -> bool {
    0 <= pos < s.len() && is_space(s[pos])
}

/// Skipping blanks backwards in a prefix of a text is skipping them in the text.
pub proof fn lemma_skip_blanks_back_prefix(s: Seq<u8>, to: int, end: int)
    requires
        0 <= end <= to <= s.len(),
    ensures
        skip_blanks_back(s.subrange(0, to), end) == skip_blanks_back(s, end),
    decreases end,
{
    let t = s.subrange(0, to);
    if 0 < end && is_space_at(t, end - 1) {
        lemma_skip_blanks_back_prefix(s, to, end - 1);
    }
}

/// The text that a trimming directive makes of the text of its body.
pub fn shape_bytes(
    body: &[u8],
    prefix: &[u8],
    suffix: &[u8],
    prefix_overrides: &[Vec<u8>],
    suffix_overrides: &[Vec<u8>],
    ignore_case: bool,
) -> (r: Vec<u8>)
    ensures
        r@ == shaped(
            body@,
            prefix@,
            suffix@,
            texts(prefix_overrides@),
            texts(suffix_overrides@),
            ignore_case,
        ),
{
    let b0 = trim_bytes(body);
    let mut own_prefix: Vec<Vec<u8>> = Vec::new();
    own_prefix.push(copy_bytes(prefix));
    let mut own_suffix: Vec<Vec<u8>> = Vec::new();
    own_suffix.push(copy_bytes(suffix));
    proof {
        lemma_texts(own_prefix@);
        lemma_texts(own_suffix@);
        assert(texts(own_prefix@) =~= seq![prefix@]);
        assert(texts(own_suffix@) =~= seq![suffix@]);
    }
    let b1 = strip_start_bytes(b0, own_prefix.as_slice(), ignore_case);
    let b2 = strip_end_bytes(b1, own_suffix.as_slice(), ignore_case);
    let b3 = strip_start_bytes(b2, prefix_overrides, ignore_case);
    let b4 = strip_end_bytes(b3, suffix_overrides, ignore_case);
    let mut out: Vec<u8> = Vec::new();
    if b4.len() == 0 {
        return out;
    }
    if prefix.len() > 0 {
        push_bytes(&mut out, prefix);
        out.push(0x20);
    }
    push_bytes(&mut out, b4.as_slice());
    if suffix.len() > 0 {
        out.push(0x20);
        push_bytes(&mut out, suffix);
    }
    assert(out@ =~= framed(b4@, prefix@, suffix@));
    out
}

} // verus!
