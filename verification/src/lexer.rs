//! Cuts a template into segments.
//!
//! A template is text with directives in it. `<name attr="value">` opens a
//! directive, `</name>` closes it and `<name attr="value"/>` is one without
//! children. `#{expr}` stands for the value of an expression, bound to a
//! placeholder; `${expr}` for its text, written in place. A `<` that no letter,
//! underscore or slash follows is text like any other byte.

use crate::text::{
    byte_is_alpha, copy_range, is_alpha, run_end, scan_run, skip_blanks, skip_blanks_from,
    ByteClass,
};
use vstd::prelude::*;

verus! {

/// An attribute of a tag: its name and its value.
#[derive(Debug)]
pub struct Attr {
    pub name: Vec<u8>,
    pub value: Vec<u8>,
}

/// A segment of a template.
#[derive(Debug)]
pub enum Token {
    /// Text between directives, byte for byte.
    Literal(Vec<u8>),
    /// A substitution marker with its expression: `#{..}` is bound, `${..}` is not.
    Subst { expr: Vec<u8>, bound: bool },
    /// `<name attr="value" ..>`, with the index of its `<`.
    TagOpen { name: Vec<u8>, attrs: Vec<Attr>, pos: usize },
    /// `</name>`, with the index of its `<`.
    TagClose { name: Vec<u8>, pos: usize },
    /// `<name attr="value" ../>`, with the index of its `<`.
    SelfClosing { name: Vec<u8>, attrs: Vec<Attr>, pos: usize },
}

/// Why a text is no sequence of segments; each with the index of the byte at
/// which the unfinished part starts.
#[derive(Clone, Copy, Debug, PartialEq, Eq)]
pub enum LexError {
    /// A tag that does not end in `>`.
    UnterminatedTag(usize),
    /// An attribute value whose closing quote is missing.
    UnterminatedQuote(usize),
    /// A substitution marker whose closing brace is missing.
    UnterminatedMarker(usize),
}

/// What a token stands for.
pub enum TokenView {
    Literal(Seq<u8>),
    Subst { expr: Seq<u8>, bound: bool },
    TagOpen { name: Seq<u8>, attrs: Seq<(Seq<u8>, Seq<u8>)>, pos: usize },
    TagClose { name: Seq<u8>, pos: usize },
    SelfClosing { name: Seq<u8>, attrs: Seq<(Seq<u8>, Seq<u8>)>, pos: usize },
}

/// What each attribute of a sequence stands for.
pub open spec fn attr_views(s: Seq<Attr>) -> Seq<(Seq<u8>, Seq<u8>)>
    decreases s.len(),
{
    if s.len() == 0 {
        Seq::empty()
    } else {
        attr_views(s.drop_last()).push((s.last().name@, s.last().value@))
    }
}

/// The views of a sequence of attributes are the views of its attributes, one for one.
pub proof fn lemma_attr_views(s: Seq<Attr>)
    ensures
        attr_views(s).len() == s.len(),
        forall|i: int|
            0 <= i < s.len() ==> (#[trigger] attr_views(s)[i]) == (s[i].name@, s[i].value@),
    decreases s.len(),
{
    if s.len() > 0 {
        lemma_attr_views(s.drop_last());
    }
}

impl View for Token {
    type V = TokenView;

    open spec fn view(&self) -> TokenView {
        match self {
            Token::Literal(t) => TokenView::Literal(t@),
            Token::Subst { expr, bound } => TokenView::Subst { expr: expr@, bound: *bound },
            Token::TagOpen { name, attrs, pos } => TokenView::TagOpen {
                name: name@,
                attrs: attr_views(attrs@),
                pos: *pos,
            },
            Token::TagClose { name, pos } => TokenView::TagClose { name: name@, pos: *pos },
            Token::SelfClosing { name, attrs, pos } => TokenView::SelfClosing {
                name: name@,
                attrs: attr_views(attrs@),
                pos: *pos,
            },
        }
    }
}

/// What each token of a sequence stands for.
pub open spec fn token_views(s: Seq<Token>) -> Seq<TokenView>
    decreases s.len(),
{
    if s.len() == 0 {
        Seq::empty()
    } else {
        token_views(s.drop_last()).push(s.last()@)
    }
}

/// The views of a sequence of tokens are the views of its tokens, one for one.
pub proof fn lemma_token_views(s: Seq<Token>)
    ensures
        token_views(s).len() == s.len(),
        forall|i: int| 0 <= i < s.len() ==> (#[trigger] token_views(s)[i]) == s[i]@,
    decreases s.len(),
{
    if s.len() > 0 {
        lemma_token_views(s.drop_last());
    }
}

/// Whether the byte `b` stands at index `q`.
pub open spec fn at(s: Seq<u8>, q: int, b: u8) -> bool {
    0 <= q < s.len() && s[q] == b
}

/// Whether a tag starts at index `i`: a `<` with a letter, an underscore or a
/// slash after it. Any other `<` is text.
pub open spec fn starts_tag(s: Seq<u8>, i: int) -> bool {
    at(s, i, 0x3c) && i + 1 < s.len() && (is_alpha(s[i + 1]) || s[i + 1] == 0x5f || s[i + 1]
        == 0x2f)
}

/// Whether a substitution marker starts at index `i`: `#{` or `${`.
pub open spec fn starts_marker(s: Seq<u8>, i: int) -> bool {
    (at(s, i, 0x23) || at(s, i, 0x24)) && at(s, i + 1, 0x7b)
}

/// First index at or after `pos` at which a tag or a marker starts, or the length.
pub open spec fn literal_end(s: Seq<u8>, pos: int) -> int
    decreases s.len() - pos,
{
    if 0 <= pos < s.len() && !starts_tag(s, pos) && !starts_marker(s, pos) {
        literal_end(s, pos + 1)
    } else {
        pos
    }
}

/// The attributes of a tag from `pos` on, after those in `acc`, and the index
/// at which they end. `start` is the index of the tag's `<`.
///
/// An attribute is a name, `=`, and a value between two quotes of one kind,
/// single or double; blanks may stand around each part.
pub open spec fn lex_attrs(s: Seq<u8>, pos: int, start: usize, acc: Seq<(Seq<u8>, Seq<u8>)>) -> Result<
    (Seq<(Seq<u8>, Seq<u8>)>, int),
    LexError,
>
    decreases s.len() - pos,
{
    let q = skip_blanks(s, pos);
    if 0 <= pos <= q < s.len() && (is_alpha(s[q]) || s[q] == 0x5f) {
        let name_end = run_end(s, q, ByteClass::Word);
        let eq = skip_blanks(s, name_end);
        let open = skip_blanks(s, eq + 1);
        if !(at(s, eq, 0x3d) && q < name_end <= eq < open) {
            Err(LexError::UnterminatedTag(start))
        } else if !(at(s, open, 0x22) || at(s, open, 0x27)) {
            Err(LexError::UnterminatedTag(start))
        } else {
            let close = run_end(s, open + 1, ByteClass::Except(s[open]));
            if open < close < s.len() {
                lex_attrs(
                    s,
                    close + 1,
                    start,
                    acc.push((s.subrange(q, name_end), s.subrange(open + 1, close))),
                )
            } else {
                Err(LexError::UnterminatedQuote(open as usize))
            }
        }
    } else {
        Ok((acc, q))
    }
}

/// The token that starts at `pos`, and the index after it.
pub open spec fn next_token(s: Seq<u8>, pos: int) -> Result<(TokenView, int), LexError> {
    if starts_marker(s, pos) {
        let end = run_end(s, pos + 2, ByteClass::Except(0x7d));
        if pos + 2 <= end < s.len() {
            Ok((TokenView::Subst { expr: s.subrange(pos + 2, end), bound: s[pos] == 0x23 }, end + 1))
        } else {
            Err(LexError::UnterminatedMarker(pos as usize))
        }
    } else if starts_tag(s, pos) {
        if s[pos + 1] == 0x2f {
            let name_end = run_end(s, pos + 2, ByteClass::Word);
            let close = skip_blanks(s, name_end);
            if pos + 2 < name_end <= close && at(s, close, 0x3e) {
                Ok(
                    (
                        TokenView::TagClose {
                            name: s.subrange(pos + 2, name_end),
                            pos: pos as usize,
                        },
                        close + 1,
                    ),
                )
            } else {
                Err(LexError::UnterminatedTag(pos as usize))
            }
        } else {
            let name_end = run_end(s, pos + 1, ByteClass::Word);
            if !(pos + 1 < name_end <= s.len()) {
                Err(LexError::UnterminatedTag(pos as usize))
            } else {
                match lex_attrs(s, name_end, pos as usize, Seq::empty()) {
                    Err(e) => Err(e),
                    Ok((attrs, q)) => if at(s, q, 0x3e) {
                        Ok(
                            (
                                TokenView::TagOpen {
                                    name: s.subrange(pos + 1, name_end),
                                    attrs,
                                    pos: pos as usize,
                                },
                                q + 1,
                            ),
                        )
                    } else if at(s, q, 0x2f) && at(s, q + 1, 0x3e) {
                        Ok(
                            (
                                TokenView::SelfClosing {
                                    name: s.subrange(pos + 1, name_end),
                                    attrs,
                                    pos: pos as usize,
                                },
                                q + 2,
                            ),
                        )
                    } else {
                        Err(LexError::UnterminatedTag(pos as usize))
                    },
                }
            }
        }
    } else {
        let end = literal_end(s, pos + 1);
        Ok((TokenView::Literal(s.subrange(pos, end)), end))
    }
}

/// The tokens of the text from `pos` on, after those in `acc`.
pub open spec fn lex_from(s: Seq<u8>, pos: int, acc: Seq<TokenView>) -> Result<
    Seq<TokenView>,
    LexError,
>
    decreases s.len() - pos,
{
    if pos < 0 || pos >= s.len() {
        Ok(acc)
    } else {
        match next_token(s, pos) {
            Err(e) => Err(e),
            Ok((token, next)) => if pos < next <= s.len() {
                lex_from(s, next, acc.push(token))
            } else {
                Err(LexError::UnterminatedTag(pos as usize))
            },
        }
    }
}

/// The tokens of a template.
pub open spec fn lex(s: Seq<u8>) -> Result<Seq<TokenView>, LexError> {
    lex_from(s, 0, Seq::empty())
}

fn byte_here(s: &[u8], q: usize, b: u8) -> (r: bool)
    ensures
        r == at(s@, q as int, b),
{
    q < s.len() && s[q] == b
}

fn tag_starts(s: &[u8], i: usize) -> (r: bool)
    ensures
        r == starts_tag(s@, i as int),
{
    if i < s.len() && s[i] == 0x3c && i + 1 < s.len() {
        let b = s[i + 1];
        byte_is_alpha(b) || b == 0x5f || b == 0x2f
    } else {
        false
    }
}

fn marker_starts(s: &[u8], i: usize) -> (r: bool)
    ensures
        r == starts_marker(s@, i as int),
{
    i < s.len() && (s[i] == 0x23 || s[i] == 0x24) && i + 1 < s.len() && s[i + 1] == 0x7b
}

fn scan_literal(s: &[u8], pos: usize) -> (r: usize)
    requires
        pos <= s.len(),
    ensures
        r == literal_end(s@, pos as int),
        pos <= r <= s.len(),
{
    let mut i: usize = pos;
    while i < s.len() && !tag_starts(s, i) && !marker_starts(s, i)
        invariant
            pos <= i <= s.len(),
            literal_end(s@, pos as int) == literal_end(s@, i as int),
        decreases s.len() - i,
    {
        i += 1;
    }
    i
}

fn attrs_from(s: &[u8], pos: usize, start: usize) -> (r: Result<(Vec<Attr>, usize), LexError>)
    requires
        pos <= s.len(),
    ensures
        match r {
            Ok((attrs, q)) => lex_attrs(s@, pos as int, start, Seq::empty()) == Ok::<
                (Seq<(Seq<u8>, Seq<u8>)>, int),
                LexError,
            >((attr_views(attrs@), q as int)) && pos <= q <= s.len(),
            Err(e) => lex_attrs(s@, pos as int, start, Seq::empty()) == Err::<
                (Seq<(Seq<u8>, Seq<u8>)>, int),
                LexError,
            >(e),
        },
{
    let mut attrs: Vec<Attr> = Vec::new();
    let mut cur: usize = pos;
    loop
        invariant
            pos <= cur <= s.len(),
            lex_attrs(s@, pos as int, start, Seq::empty()) == lex_attrs(
                s@,
                cur as int,
                start,
                attr_views(attrs@),
            ),
        decreases s.len() - cur,
    {
        let q = skip_blanks_from(s, cur);
        if !(q < s.len() && (byte_is_alpha(s[q]) || s[q] == 0x5f)) {
            return Ok((attrs, q));
        }
        let name_end = scan_run(s, q, ByteClass::Word);
        let eq = skip_blanks_from(s, name_end);
        if !byte_here(s, eq, 0x3d) {
            return Err(LexError::UnterminatedTag(start));
        }
        let open = skip_blanks_from(s, eq + 1);
        if !(byte_here(s, open, 0x22) || byte_here(s, open, 0x27)) {
            return Err(LexError::UnterminatedTag(start));
        }
        let close = scan_run(s, open + 1, ByteClass::Except(s[open]));
        if close >= s.len() {
            return Err(LexError::UnterminatedQuote(open));
        }
        let attr = Attr { name: copy_range(s, q, name_end), value: copy_range(s, open + 1, close) };
        assert(attrs@.push(attr).drop_last() =~= attrs@);
        attrs.push(attr);
        cur = close + 1;
    }
}

fn token_at(s: &[u8], pos: usize) -> (r: Result<(Token, usize), LexError>)
    requires
        pos < s.len(),
    ensures
        match r {
            Ok((token, next)) => next_token(s@, pos as int) == Ok::<(TokenView, int), LexError>(
                (token@, next as int),
            ) && pos < next <= s.len(),
            Err(e) => next_token(s@, pos as int) == Err::<(TokenView, int), LexError>(e),
        },
{
    if marker_starts(s, pos) {
        let end = scan_run(s, pos + 2, ByteClass::Except(0x7d));
        if end < s.len() {
            Ok((Token::Subst { expr: copy_range(s, pos + 2, end), bound: s[pos] == 0x23 }, end + 1))
        } else {
            Err(LexError::UnterminatedMarker(pos))
        }
    } else if tag_starts(s, pos) {
        if s[pos + 1] == 0x2f {
            let name_end = scan_run(s, pos + 2, ByteClass::Word);
            let close = skip_blanks_from(s, name_end);
            if pos + 2 < name_end && byte_here(s, close, 0x3e) {
                Ok((Token::TagClose { name: copy_range(s, pos + 2, name_end), pos }, close + 1))
            } else {
                Err(LexError::UnterminatedTag(pos))
            }
        } else {
            let name_end = scan_run(s, pos + 1, ByteClass::Word);
            match attrs_from(s, name_end, pos) {
                Err(e) => Err(e),
                Ok((attrs, q)) => {
                    if byte_here(s, q, 0x3e) {
                        Ok(
                            (
                                Token::TagOpen {
                                    name: copy_range(s, pos + 1, name_end),
                                    attrs,
                                    pos,
                                },
                                q + 1,
                            ),
                        )
                    } else if byte_here(s, q, 0x2f) && byte_here(s, q + 1, 0x3e) {
                        Ok(
                            (
                                Token::SelfClosing {
                                    name: copy_range(s, pos + 1, name_end),
                                    attrs,
                                    pos,
                                },
                                q + 2,
                            ),
                        )
                    } else {
                        Err(LexError::UnterminatedTag(pos))
                    }
                },
            }
        }
    } else {
        let end = scan_literal(s, pos + 1);
        Ok((Token::Literal(copy_range(s, pos, end)), end))
    }
}

/// Cuts a template into its tokens.
pub fn tokenize(s: &[u8]) -> (r: Result<Vec<Token>, LexError>)
    ensures
        match r {
            Ok(tokens) => lex(s@) == Ok::<Seq<TokenView>, LexError>(token_views(tokens@)),
            Err(e) => lex(s@) == Err::<Seq<TokenView>, LexError>(e),
        },
{
    let mut tokens: Vec<Token> = Vec::new();
    let mut pos: usize = 0;
    while pos < s.len()
        invariant
            pos <= s.len(),
            lex(s@) == lex_from(s@, pos as int, token_views(tokens@)),
        decreases s.len() - pos,
    {
        match token_at(s, pos) {
            Err(e) => {
                return Err(e);
            },
            Ok((token, next)) => {
                assert(tokens@.push(token).drop_last() =~= tokens@);
                tokens.push(token);
                pos = next;
            },
        }
    }
    Ok(tokens)
}

} // verus!
