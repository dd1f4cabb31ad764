//! Builds the syntax tree of a template from its segments.
//!
//! The directives are `if` (test), `choose` with its branches `when` (test)
//! and `otherwise`, `trim` (prefix, suffix, prefixOverrides, suffixOverrides),
//! `where`, `set`, `foreach` (collection; index, item, open, close,
//! separator), `bind` (name, value) and `include` (refid). Override lists are
//! written with `|` between their tokens.

use crate::lexer::{
    attr_views, lemma_attr_views, lemma_token_views, lex, token_views, tokenize, Attr, LexError,
    Token, TokenView,
};
use crate::shaping::{lemma_texts_push, texts};
use crate::syntax_tree::{
    lemma_node_views_push, lemma_when_views_push, node_views, otherwise_view, when_views, BindNode,
    ChooseNode, DefName, ForEachNode, IfNode, IncludeNode, Name, NodeType, NodeView, OtherwiseNode,
    SetNode, StringNode, SubstNode, SyntaxTree, TrimNode, WhenNode, WhereNode,
};
use crate::text::{
    all_blank, bytes_eq, copy_bytes, copy_range, is_blank, literal_bytes, run_end, scan_run, trim,
    trim_bytes, ByteClass,
};
use vstd::prelude::*;
use vstd::string::StringSliceAdditionalSpecFns;
use vstd::utf8::encode_utf8;

verus! {

/// Why a template is no syntax tree.
#[derive(Debug)]
pub enum ParseError {
    /// The text is no sequence of segments.
    Lex(LexError),
    /// A tag whose name is that of no directive.
    UnknownDirective { name: Vec<u8>, pos: usize },
    /// A tag that lacks an attribute which its directive has to have.
    MissingAttribute { name: Vec<u8>, attribute: Vec<u8>, pos: usize },
    /// An opening tag and the closing tag that was met in place of its own. The
    /// expected name is empty where no tag was open, and the found name is empty
    /// where the template ended.
    UnbalancedTag { expected: Vec<u8>, expected_pos: usize, found: Vec<u8>, found_pos: usize },
    /// A branch outside a choice, or anything but a branch inside one; for text
    /// inside a choice, the name and index are those of the choice.
    Misplaced { name: Vec<u8>, pos: usize },
}

/// What a `ParseError` stands for.
pub enum ParseErrorView {
    Lex(LexError),
    UnknownDirective { name: Seq<u8>, pos: usize },
    MissingAttribute { name: Seq<u8>, attribute: Seq<u8>, pos: usize },
    UnbalancedTag { expected: Seq<u8>, expected_pos: usize, found: Seq<u8>, found_pos: usize },
    Misplaced { name: Seq<u8>, pos: usize },
}

impl View for ParseError {
    type V = ParseErrorView;

    open spec fn view(&self) -> ParseErrorView {
        match self {
            ParseError::Lex(e) => ParseErrorView::Lex(*e),
            ParseError::UnknownDirective { name, pos } => ParseErrorView::UnknownDirective {
                name: name@,
                pos: *pos,
            },
            ParseError::MissingAttribute { name, attribute, pos } => {
                ParseErrorView::MissingAttribute { name: name@, attribute: attribute@, pos: *pos }
            },
            ParseError::UnbalancedTag { expected, expected_pos, found, found_pos } => {
                ParseErrorView::UnbalancedTag {
                    expected: expected@,
                    expected_pos: *expected_pos,
                    found: found@,
                    found_pos: *found_pos,
                }
            },
            ParseError::Misplaced { name, pos } => ParseErrorView::Misplaced {
                name: name@,
                pos: *pos,
            },
        }
    }
}

/// The tag of a kind of node, as bytes.
pub open spec fn tag_name<T: Name>() -> Seq<u8> {
    encode_utf8(T::name_spec())
}

/// The short tag of a kind of node, as bytes.
pub open spec fn short_tag_name<T: DefName>() -> Seq<u8> {
    encode_utf8(T::def_name_spec())
}

/// The value of the first attribute at or after `from` that has the name.
pub open spec fn attr_value(attrs: Seq<(Seq<u8>, Seq<u8>)>, name: Seq<u8>, from: int) -> Option<
    Seq<u8>,
>
    decreases attrs.len() - from,
{
    if from < 0 || from >= attrs.len() {
        None
    } else if attrs[from].0 == name {
        Some(attrs[from].1)
    } else {
        attr_value(attrs, name, from + 1)
    }
}

/// The value of an attribute, or a default where the tag does not have it.
pub open spec fn attr_or(attrs: Seq<(Seq<u8>, Seq<u8>)>, name: Seq<u8>, default: Seq<u8>) -> Seq<
    u8,
> {
    match attr_value(attrs, name, 0) {
        Some(v) => v,
        None => default,
    }
}

/// The tokens of a list that is written with `|` between them, from `pos` on
/// and after those in `acc`: each without the blanks around it, the empty ones
/// left out.
pub open spec fn split_list(s: Seq<u8>, pos: int, acc: Seq<Seq<u8>>) -> Seq<Seq<u8>>
    decreases s.len() - pos,
{
    if pos < 0 || pos > s.len() {
        acc
    } else {
        let end = run_end(s, pos, ByteClass::Except(0x7c));
        let piece = trim(s.subrange(pos, if pos <= end <= s.len() {
            end
        } else {
            pos
        }));
        let next = if piece.len() > 0 {
            acc.push(piece)
        } else {
            acc
        };
        if pos <= end < s.len() {
            split_list(s, end + 1, next)
        } else {
            next
        }
    }
}

/// Whether the name is that of a branch of a choice.
pub open spec fn is_branch(name: Seq<u8>) -> bool {
    name == tag_name::<WhenNode>() || name == tag_name::<OtherwiseNode>() || name
        == short_tag_name::<OtherwiseNode>()
}

/// The node that a tag with its attributes and its children makes; a choice
/// is made of its branches and not here.
pub open spec fn element(
    name: Seq<u8>,
    attrs: Seq<(Seq<u8>, Seq<u8>)>,
    pos: usize,
    childs: Seq<NodeView>,
) -> Result<NodeView, ParseErrorView> {
    if name == tag_name::<IfNode>() {
        match attr_value(attrs, "test".spec_bytes(), 0) {
            Some(test) => Ok(NodeView::If { test, childs }),
            None => Err(
                ParseErrorView::MissingAttribute { name, attribute: "test".spec_bytes(), pos },
            ),
        }
    } else if name == tag_name::<TrimNode>() {
        Ok(
            NodeView::Trim {
                prefix: attr_or(attrs, "prefix".spec_bytes(), Seq::empty()),
                suffix: attr_or(attrs, "suffix".spec_bytes(), Seq::empty()),
                prefix_overrides: split_list(
                    attr_or(attrs, "prefixOverrides".spec_bytes(), Seq::empty()),
                    0,
                    Seq::empty(),
                ),
                suffix_overrides: split_list(
                    attr_or(attrs, "suffixOverrides".spec_bytes(), Seq::empty()),
                    0,
                    Seq::empty(),
                ),
                childs,
            },
        )
    } else if name == tag_name::<WhereNode>() {
        Ok(NodeView::WhereClause { childs })
    } else if name == tag_name::<SetNode>() {
        Ok(NodeView::SetClause { childs })
    } else if name == tag_name::<ForEachNode>() {
        match attr_value(attrs, "collection".spec_bytes(), 0) {
            Some(collection) => Ok(
                NodeView::ForEach {
                    collection,
                    index: attr_or(attrs, "index".spec_bytes(), "index".spec_bytes()),
                    item: attr_or(attrs, "item".spec_bytes(), "item".spec_bytes()),
                    open: attr_or(attrs, "open".spec_bytes(), Seq::empty()),
                    close: attr_or(attrs, "close".spec_bytes(), Seq::empty()),
                    separator: attr_or(attrs, "separator".spec_bytes(), Seq::empty()),
                    childs,
                },
            ),
            None => Err(
                ParseErrorView::MissingAttribute {
                    name,
                    attribute: "collection".spec_bytes(),
                    pos,
                },
            ),
        }
    } else if name == tag_name::<BindNode>() {
        match attr_value(attrs, "name".spec_bytes(), 0) {
            Some(bound) => match attr_value(attrs, "value".spec_bytes(), 0) {
                Some(value) => Ok(NodeView::Bind { name: bound, value }),
                None => Err(
                    ParseErrorView::MissingAttribute {
                        name,
                        attribute: "value".spec_bytes(),
                        pos,
                    },
                ),
            },
            None => Err(
                ParseErrorView::MissingAttribute { name, attribute: "name".spec_bytes(), pos },
            ),
        }
    } else if name == tag_name::<IncludeNode>() {
        match attr_value(attrs, "refid".spec_bytes(), 0) {
            Some(refid) => Ok(NodeView::Include { refid }),
            None => Err(
                ParseErrorView::MissingAttribute { name, attribute: "refid".spec_bytes(), pos },
            ),
        }
    } else if is_branch(name) {
        Err(ParseErrorView::Misplaced { name, pos })
    } else {
        Err(ParseErrorView::UnknownDirective { name, pos })
    }
}

/// The index after the closing tag at `stop`, where that tag closes `name`;
/// an unbalanced tag where another tag or the end of the template is there.
pub open spec fn close_of(tokens: Seq<TokenView>, stop: int, name: Seq<u8>, pos: usize, end: usize) -> Result<
    int,
    ParseErrorView,
> {
    if 0 <= stop < tokens.len() {
        match tokens[stop] {
            TokenView::TagClose { name: found, pos: found_pos } => if found == name {
                Ok(stop + 1)
            } else {
                Err(
                    ParseErrorView::UnbalancedTag {
                        expected: name,
                        expected_pos: pos,
                        found,
                        found_pos,
                    },
                )
            },
            _ => Err(
                ParseErrorView::UnbalancedTag {
                    expected: name,
                    expected_pos: pos,
                    found: Seq::empty(),
                    found_pos: end,
                },
            ),
        }
    } else {
        Err(
            ParseErrorView::UnbalancedTag {
                expected: name,
                expected_pos: pos,
                found: Seq::empty(),
                found_pos: end,
            },
        )
    }
}

/// The children of the tag that opens at token `at`, and the index after the
/// tag that closes it.
pub open spec fn parse_body(tokens: Seq<TokenView>, at: int, name: Seq<u8>, pos: usize, end: usize) -> Result<
    (Seq<NodeView>, int),
    ParseErrorView,
>
    decreases tokens.len() - at, 0int,
{
    if at < 0 || at >= tokens.len() {
        Err(ParseErrorView::Misplaced { name, pos })
    } else {
        match parse_nodes(tokens, at + 1, Seq::empty(), end) {
            Err(e) => Err(e),
            Ok((childs, stop)) => match close_of(tokens, stop, name, pos, end) {
                Err(e) => Err(e),
                Ok(next) => Ok((childs, next)),
            },
        }
    }
}

/// The branches of a choice from token `at` on, after those in `whens` and
/// `otherwise`, and the index of the token at which they end.
///
/// Between the branches only blanks may stand, and after the fallback no
/// branch may follow.
pub open spec fn parse_branches(
    tokens: Seq<TokenView>,
    at: int,
    whens: Seq<(Seq<u8>, Seq<NodeView>)>,
    otherwise: Option<Seq<NodeView>>,
    choice: Seq<u8>,
    choice_pos: usize,
    end: usize,
) -> Result<(Seq<(Seq<u8>, Seq<NodeView>)>, Option<Seq<NodeView>>, int), ParseErrorView>
    decreases tokens.len() - at, 1int,
{
    if at < 0 || at >= tokens.len() {
        Ok((whens, otherwise, at))
    } else {
        match tokens[at] {
            TokenView::TagClose { .. } => Ok((whens, otherwise, at)),
            TokenView::Literal(t) => if all_blank(t) {
                parse_branches(tokens, at + 1, whens, otherwise, choice, choice_pos, end)
            } else {
                Err(ParseErrorView::Misplaced { name: choice, pos: choice_pos })
            },
            TokenView::Subst { .. } => Err(
                ParseErrorView::Misplaced { name: choice, pos: choice_pos },
            ),
            TokenView::SelfClosing { name, attrs, pos } => Err(
                ParseErrorView::Misplaced { name, pos },
            ),
            TokenView::TagOpen { name, attrs, pos } => if otherwise is Some || !is_branch(name) {
                Err(ParseErrorView::Misplaced { name, pos })
            } else if name == tag_name::<WhenNode>() {
                match attr_value(attrs, "test".spec_bytes(), 0) {
                    None => Err(
                        ParseErrorView::MissingAttribute {
                            name,
                            attribute: "test".spec_bytes(),
                            pos,
                        },
                    ),
                    Some(test) => match parse_body(tokens, at, name, pos, end) {
                        Err(e) => Err(e),
                        Ok((childs, next)) => if at < next <= tokens.len() {
                            parse_branches(
                                tokens,
                                next,
                                whens.push((test, childs)),
                                otherwise,
                                choice,
                                choice_pos,
                                end,
                            )
                        } else {
                            Err(ParseErrorView::Misplaced { name, pos })
                        },
                    },
                }
            } else {
                match parse_body(tokens, at, name, pos, end) {
                    Err(e) => Err(e),
                    Ok((childs, next)) => if at < next <= tokens.len() {
                        parse_branches(tokens, next, whens, Some(childs), choice, choice_pos, end)
                    } else {
                        Err(ParseErrorView::Misplaced { name, pos })
                    },
                }
            },
        }
    }
}

/// The nodes from token `at` on, after those in `acc`, up to a closing tag or
/// the end of the tokens, and the index of the token at which they end.
pub open spec fn parse_nodes(tokens: Seq<TokenView>, at: int, acc: Seq<NodeView>, end: usize) -> Result<
    (Seq<NodeView>, int),
    ParseErrorView,
>
    decreases tokens.len() - at, 2int,
{
    if at < 0 || at >= tokens.len() {
        Ok((acc, at))
    } else {
        match tokens[at] {
            TokenView::TagClose { .. } => Ok((acc, at)),
            TokenView::Literal(t) => parse_nodes(tokens, at + 1, acc.push(NodeView::Text(t)), end),
            TokenView::Subst { expr, bound } => parse_nodes(
                tokens,
                at + 1,
                acc.push(NodeView::Subst { expr, bound }),
                end,
            ),
            TokenView::SelfClosing { name, attrs, pos } => if name == tag_name::<ChooseNode>() {
                parse_nodes(
                    tokens,
                    at + 1,
                    acc.push(NodeView::Choose { whens: Seq::empty(), otherwise: None }),
                    end,
                )
            } else {
                match element(name, attrs, pos, Seq::empty()) {
                    Err(e) => Err(e),
                    Ok(node) => parse_nodes(tokens, at + 1, acc.push(node), end),
                }
            },
            TokenView::TagOpen { name, attrs, pos } => if name == tag_name::<ChooseNode>() {
                match parse_branches(tokens, at + 1, Seq::empty(), None, name, pos, end) {
                    Err(e) => Err(e),
                    Ok((whens, otherwise, stop)) => match close_of(tokens, stop, name, pos, end) {
                        Err(e) => Err(e),
                        Ok(next) => if at < next {
                            parse_nodes(
                                tokens,
                                next,
                                acc.push(NodeView::Choose { whens, otherwise }),
                                end,
                            )
                        } else {
                            Err(ParseErrorView::Misplaced { name, pos })
                        },
                    },
                }
            } else {
                match element(name, attrs, pos, Seq::empty()) {
                    Err(e) => Err(e),
                    Ok(_) => match parse_body(tokens, at, name, pos, end) {
                        Err(e) => Err(e),
                        Ok((childs, next)) => match element(name, attrs, pos, childs) {
                            Err(e) => Err(e),
                            Ok(node) => if at < next <= tokens.len() {
                                parse_nodes(tokens, next, acc.push(node), end)
                            } else {
                                Err(ParseErrorView::Misplaced { name, pos })
                            },
                        },
                    },
                }
            },
        }
    }
}

/// The syntax tree of the tokens of a template that is `end` bytes long.
pub open spec fn parse_tokens(tokens: Seq<TokenView>, end: usize) -> Result<
    Seq<NodeView>,
    ParseErrorView,
> {
    match parse_nodes(tokens, 0, Seq::empty(), end) {
        Err(e) => Err(e),
        Ok((nodes, stop)) => if 0 <= stop < tokens.len() {
            match tokens[stop] {
                TokenView::TagClose { name, pos } => Err(
                    ParseErrorView::UnbalancedTag {
                        expected: Seq::empty(),
                        expected_pos: pos,
                        found: name,
                        found_pos: pos,
                    },
                ),
                _ => Ok(nodes),
            }
        } else {
            Ok(nodes)
        },
    }
}

/// The syntax tree of a template.
pub open spec fn parse_template(s: Seq<u8>) -> Result<Seq<NodeView>, ParseErrorView> {
    match lex(s) {
        Err(e) => Err(ParseErrorView::Lex(e)),
        Ok(tokens) => parse_tokens(tokens, s.len() as usize),
    }
}

/// Parsing is a function of the text: the same text has the same tree, or the
/// same error.
pub proof fn law_parsing_is_deterministic(a: Seq<u8>, b: Seq<u8>)
    requires
        a == b,
    ensures
        parse_template(a) == parse_template(b),
{
}

fn is_named<T: Name>(name: &[u8]) -> (r: bool)
    ensures
        r == (name@ == tag_name::<T>()),
{
    bytes_eq(name, T::name().as_bytes())
}

fn is_short_named<T: DefName>(name: &[u8]) -> (r: bool)
    ensures
        r == (name@ == short_tag_name::<T>()),
{
    bytes_eq(name, T::def_name().as_bytes())
}

fn branch_name(name: &[u8]) -> (r: bool)
    ensures
        r == is_branch(name@),
{
    is_named::<WhenNode>(name) || is_named::<OtherwiseNode>(name) || is_short_named::<
        OtherwiseNode,
    >(name)
}

fn find_attr(attrs: &Vec<Attr>, name: &[u8]) -> (r: Option<Vec<u8>>)
    ensures
        match r {
            Some(v) => attr_value(attr_views(attrs@), name@, 0) == Some(v@),
            None => attr_value(attr_views(attrs@), name@, 0) is None,
        },
{
    proof {
        lemma_attr_views(attrs@);
    }
    let mut i: usize = 0;
    while i < attrs.len()
        invariant
            i <= attrs.len(),
            attr_views(attrs@).len() == attrs@.len(),
            forall|j: int|
                0 <= j < attrs@.len() ==> (#[trigger] attr_views(attrs@)[j]) == (
                    attrs@[j].name@,
                    attrs@[j].value@,
                ),
            attr_value(attr_views(attrs@), name@, 0) == attr_value(
                attr_views(attrs@),
                name@,
                i as int,
            ),
        decreases attrs.len() - i,
    {
        if bytes_eq(attrs[i].name.as_slice(), name) {
            return Some(copy_bytes(attrs[i].value.as_slice()));
        }
        i += 1;
    }
    None
}

fn attr_or_default(attrs: &Vec<Attr>, name: &[u8], default: &[u8]) -> (r: Vec<u8>)
    ensures
        r@ == attr_or(attr_views(attrs@), name@, default@),
{
    match find_attr(attrs, name) {
        Some(v) => v,
        None => copy_bytes(default),
    }
}

/// The tokens of a list that is written with `|` between them.
pub fn split(s: &[u8]) -> (r: Vec<Vec<u8>>)
    ensures
        texts(r@) == split_list(s@, 0, Seq::empty()),
{
    let mut out: Vec<Vec<u8>> = Vec::new();
    let mut pos: usize = 0;
    loop
        invariant
            pos <= s.len(),
            split_list(s@, 0, Seq::empty()) == split_list(s@, pos as int, texts(out@)),
        decreases s.len() - pos,
    {
        let end = scan_run(s, pos, ByteClass::Except(0x7c));
        let part = copy_range(s, pos, end);
        let piece = trim_bytes(part.as_slice());
        if piece.len() > 0 {
            proof {
                lemma_texts_push(out@, piece);
            }
            out.push(piece);
        }
        if end < s.len() {
            pos = end + 1;
        } else {
            return out;
        }
    }
}

fn missing(name: &[u8], attribute: &str, pos: usize) -> (r: ParseError)
    ensures
        r@ == (ParseErrorView::MissingAttribute {
            name: name@,
            attribute: attribute.spec_bytes(),
            pos,
        }),
{
    ParseError::MissingAttribute { name: copy_bytes(name), attribute: literal_bytes(attribute), pos }
}

fn build(name: &[u8], attrs: &Vec<Attr>, pos: usize, childs: Vec<NodeType>) -> (r: Result<
    NodeType,
    ParseError,
>)
    ensures
        match r {
            Ok(n) => element(name@, attr_views(attrs@), pos, node_views(childs@)) == Ok::<
                NodeView,
                ParseErrorView,
            >(n@),
            Err(e) => element(name@, attr_views(attrs@), pos, node_views(childs@)) == Err::<
                NodeView,
                ParseErrorView,
            >(e@),
        },
{
    let none: Vec<u8> = Vec::new();
    if is_named::<IfNode>(name) {
        match find_attr(attrs, "test".as_bytes()) {
            Some(test) => Ok(NodeType::NIf(IfNode { childs, test })),
            None => Err(missing(name, "test", pos)),
        }
    } else if is_named::<TrimNode>(name) {
        let before = attr_or_default(attrs, "prefixOverrides".as_bytes(), none.as_slice());
        let after = attr_or_default(attrs, "suffixOverrides".as_bytes(), none.as_slice());
        Ok(
            NodeType::NTrim(
                TrimNode {
                    childs,
                    prefix: attr_or_default(attrs, "prefix".as_bytes(), none.as_slice()),
                    suffix: attr_or_default(attrs, "suffix".as_bytes(), none.as_slice()),
                    prefix_overrides: split(before.as_slice()),
                    suffix_overrides: split(after.as_slice()),
                },
            ),
        )
    } else if is_named::<WhereNode>(name) {
        Ok(NodeType::NWhere(WhereNode { childs }))
    } else if is_named::<SetNode>(name) {
        Ok(NodeType::NSet(SetNode { childs }))
    } else if is_named::<ForEachNode>(name) {
        match find_attr(attrs, "collection".as_bytes()) {
            Some(collection) => Ok(
                NodeType::NForEach(
                    ForEachNode {
                        childs,
                        collection,
                        index: attr_or_default(attrs, "index".as_bytes(), "index".as_bytes()),
                        item: attr_or_default(attrs, "item".as_bytes(), "item".as_bytes()),
                        open: attr_or_default(attrs, "open".as_bytes(), none.as_slice()),
                        close: attr_or_default(attrs, "close".as_bytes(), none.as_slice()),
                        separator: attr_or_default(
                            attrs,
                            "separator".as_bytes(),
                            none.as_slice(),
                        ),
                    },
                ),
            ),
            None => Err(missing(name, "collection", pos)),
        }
    } else if is_named::<BindNode>(name) {
        match find_attr(attrs, "name".as_bytes()) {
            Some(bound) => match find_attr(attrs, "value".as_bytes()) {
                Some(value) => Ok(NodeType::NBind(BindNode { name: bound, value })),
                None => Err(missing(name, "value", pos)),
            },
            None => Err(missing(name, "name", pos)),
        }
    } else if is_named::<IncludeNode>(name) {
        match find_attr(attrs, "refid".as_bytes()) {
            Some(refid) => Ok(NodeType::NInclude(IncludeNode { refid })),
            None => Err(missing(name, "refid", pos)),
        }
    } else if branch_name(name) {
        Err(ParseError::Misplaced { name: copy_bytes(name), pos })
    } else {
        Err(ParseError::UnknownDirective { name: copy_bytes(name), pos })
    }
}

fn closing(tokens: &Vec<Token>, stop: usize, name: &[u8], pos: usize, end: usize) -> (r: Result<
    usize,
    ParseError,
>)
    ensures
        match r {
            Ok(next) => close_of(token_views(tokens@), stop as int, name@, pos, end) == Ok::<
                int,
                ParseErrorView,
            >(next as int) && next == stop + 1 && stop < tokens@.len(),
            Err(e) => close_of(token_views(tokens@), stop as int, name@, pos, end) == Err::<
                int,
                ParseErrorView,
            >(e@),
        },
{
    proof {
        lemma_token_views(tokens@);
    }
    if stop < tokens.len() {
        match &tokens[stop] {
            Token::TagClose { name: found, pos: found_pos } => {
                if bytes_eq(found.as_slice(), name) {
                    Ok(stop + 1)
                } else {
                    Err(
                        ParseError::UnbalancedTag {
                            expected: copy_bytes(name),
                            expected_pos: pos,
                            found: copy_bytes(found.as_slice()),
                            found_pos: *found_pos,
                        },
                    )
                }
            },
            _ => Err(
                ParseError::UnbalancedTag {
                    expected: copy_bytes(name),
                    expected_pos: pos,
                    found: Vec::new(),
                    found_pos: end,
                },
            ),
        }
    } else {
        Err(
            ParseError::UnbalancedTag {
                expected: copy_bytes(name),
                expected_pos: pos,
                found: Vec::new(),
                found_pos: end,
            },
        )
    }
}

fn body(tokens: &Vec<Token>, at: usize, name: &[u8], pos: usize, end: usize) -> (r: Result<
    (Vec<NodeType>, usize),
    ParseError,
>)
    requires
        at < tokens@.len(),
    ensures
        match r {
            Ok((childs, next)) => parse_body(token_views(tokens@), at as int, name@, pos, end)
                == Ok::<(Seq<NodeView>, int), ParseErrorView>((node_views(childs@), next as int))
                && at < next <= tokens@.len(),
            Err(e) => parse_body(token_views(tokens@), at as int, name@, pos, end) == Err::<
                (Seq<NodeView>, int),
                ParseErrorView,
            >(e@),
        },
    decreases tokens@.len() - at, 0int,
{
    proof {
        lemma_token_views(tokens@);
    }
    let count = tokens.len();
    match nodes(tokens, at + 1, end) {
        Err(e) => Err(e),
        Ok((childs, stop)) => match closing(tokens, stop, name, pos, end) {
            Err(e) => Err(e),
            Ok(next) => Ok((childs, next)),
        },
    }
}

fn branches(tokens: &Vec<Token>, at: usize, choice: &[u8], choice_pos: usize, end: usize) -> (r:
    Result<(Vec<WhenNode>, Option<OtherwiseNode>, usize), ParseError>)
    requires
        at <= tokens@.len(),
    ensures
        match r {
            Ok((whens, otherwise, stop)) => parse_branches(
                token_views(tokens@),
                at as int,
                Seq::empty(),
                None,
                choice@,
                choice_pos,
                end,
            ) == Ok::<
                (Seq<(Seq<u8>, Seq<NodeView>)>, Option<Seq<NodeView>>, int),
                ParseErrorView,
            >((when_views(whens@), otherwise_view(otherwise), stop as int)) && at <= stop
                <= tokens@.len(),
            Err(e) => parse_branches(
                token_views(tokens@),
                at as int,
                Seq::empty(),
                None,
                choice@,
                choice_pos,
                end,
            ) == Err::<
                (Seq<(Seq<u8>, Seq<NodeView>)>, Option<Seq<NodeView>>, int),
                ParseErrorView,
            >(e@),
        },
    decreases tokens@.len() - at, 1int,
{
    proof {
        lemma_token_views(tokens@);
    }
    let ghost tv = token_views(tokens@);
    let mut whens: Vec<WhenNode> = Vec::new();
    let mut otherwise: Option<OtherwiseNode> = None;
    let mut cur: usize = at;
    while cur < tokens.len()
        invariant
            at <= cur <= tokens@.len(),
            tv == token_views(tokens@),
            tv.len() == tokens@.len(),
            forall|j: int| 0 <= j < tokens@.len() ==> (#[trigger] tv[j]) == tokens@[j]@,
            parse_branches(tv, at as int, Seq::empty(), None, choice@, choice_pos, end)
                == parse_branches(
                tv,
                cur as int,
                when_views(whens@),
                otherwise_view(otherwise),
                choice@,
                choice_pos,
                end,
            ),
        decreases tokens@.len() - cur,
    {
        match &tokens[cur] {
            Token::TagClose { .. } => {
                return Ok((whens, otherwise, cur));
            },
            Token::Literal(t) => {
                if !is_blank(t.as_slice()) {
                    return Err(ParseError::Misplaced { name: copy_bytes(choice), pos: choice_pos });
                }
                cur += 1;
            },
            Token::Subst { .. } => {
                return Err(ParseError::Misplaced { name: copy_bytes(choice), pos: choice_pos });
            },
            Token::SelfClosing { name, attrs, pos } => {
                return Err(ParseError::Misplaced { name: copy_bytes(name.as_slice()), pos: *pos });
            },
            Token::TagOpen { name, attrs, pos } => {
                if otherwise.is_some() || !branch_name(name.as_slice()) {
                    return Err(
                        ParseError::Misplaced { name: copy_bytes(name.as_slice()), pos: *pos },
                    );
                }
                if is_named::<WhenNode>(name.as_slice()) {
                    match find_attr(attrs, "test".as_bytes()) {
                        None => {
                            return Err(missing(name.as_slice(), "test", *pos));
                        },
                        Some(test) => match body(tokens, cur, name.as_slice(), *pos, end) {
                            Err(e) => {
                                return Err(e);
                            },
                            Ok((childs, next)) => {
                                let when = WhenNode { childs, test };
                                proof {
                                    lemma_when_views_push(whens@, when);
                                }
                                whens.push(when);
                                cur = next;
                            },
                        },
                    }
                } else {
                    match body(tokens, cur, name.as_slice(), *pos, end) {
                        Err(e) => {
                            return Err(e);
                        },
                        Ok((childs, next)) => {
                            otherwise = Some(OtherwiseNode { childs });
                            cur = next;
                        },
                    }
                }
            },
        }
    }
    Ok((whens, otherwise, cur))
}

fn nodes(tokens: &Vec<Token>, at: usize, end: usize) -> (r: Result<
    (Vec<NodeType>, usize),
    ParseError,
>)
    requires
        at <= tokens@.len(),
    ensures
        match r {
            Ok((list, stop)) => parse_nodes(token_views(tokens@), at as int, Seq::empty(), end)
                == Ok::<(Seq<NodeView>, int), ParseErrorView>((node_views(list@), stop as int))
                && at <= stop <= tokens@.len(),
            Err(e) => parse_nodes(token_views(tokens@), at as int, Seq::empty(), end) == Err::<
                (Seq<NodeView>, int),
                ParseErrorView,
            >(e@),
        },
    decreases tokens@.len() - at, 2int,
{
    proof {
        lemma_token_views(tokens@);
    }
    let ghost tv = token_views(tokens@);
    let mut list: Vec<NodeType> = Vec::new();
    let mut cur: usize = at;
    while cur < tokens.len()
        invariant
            at <= cur <= tokens@.len(),
            tv == token_views(tokens@),
            tv.len() == tokens@.len(),
            forall|j: int| 0 <= j < tokens@.len() ==> (#[trigger] tv[j]) == tokens@[j]@,
            parse_nodes(tv, at as int, Seq::empty(), end) == parse_nodes(
                tv,
                cur as int,
                node_views(list@),
                end,
            ),
        decreases tokens@.len() - cur,
    {
        let node: NodeType;
        let next: usize;
        match &tokens[cur] {
            Token::TagClose { .. } => {
                return Ok((list, cur));
            },
            Token::Literal(t) => {
                node = NodeType::NString(StringNode { value: copy_bytes(t.as_slice()) });
                next = cur + 1;
            },
            Token::Subst { expr, bound } => {
                node = NodeType::NSubst(
                    SubstNode { expr: copy_bytes(expr.as_slice()), bound: *bound },
                );
                next = cur + 1;
            },
            Token::SelfClosing { name, attrs, pos } => {
                if is_named::<ChooseNode>(name.as_slice()) {
                    node = NodeType::NChoose(
                        ChooseNode { when_nodes: Vec::new(), otherwise_node: None },
                    );
                } else {
                    match build(name.as_slice(), attrs, *pos, Vec::new()) {
                        Err(e) => {
                            return Err(e);
                        },
                        Ok(n) => {
                            node = n;
                        },
                    }
                }
                next = cur + 1;
            },
            Token::TagOpen { name, attrs, pos } => {
                if is_named::<ChooseNode>(name.as_slice()) {
                    match branches(tokens, cur + 1, name.as_slice(), *pos, end) {
                        Err(e) => {
                            return Err(e);
                        },
                        Ok((whens, otherwise, stop)) => match closing(
                            tokens,
                            stop,
                            name.as_slice(),
                            *pos,
                            end,
                        ) {
                            Err(e) => {
                                return Err(e);
                            },
                            Ok(after) => {
                                node = NodeType::NChoose(
                                    ChooseNode { when_nodes: whens, otherwise_node: otherwise },
                                );
                                next = after;
                            },
                        },
                    }
                } else {
                    match build(name.as_slice(), attrs, *pos, Vec::new()) {
                        Err(e) => {
                            return Err(e);
                        },
                        Ok(_) => {},
                    }
                    match body(tokens, cur, name.as_slice(), *pos, end) {
                        Err(e) => {
                            return Err(e);
                        },
                        Ok((childs, after)) => match build(name.as_slice(), attrs, *pos, childs) {
                            Err(e) => {
                                return Err(e);
                            },
                            Ok(n) => {
                                node = n;
                                next = after;
                            },
                        },
                    }
                }
            },
        }
        proof {
            lemma_node_views_push(list@, node);
        }
        list.push(node);
        cur = next;
    }
    Ok((list, cur))
}

/// Parses a template into its syntax tree.
pub fn parse(s: &[u8]) -> (r: Result<SyntaxTree, ParseError>)
    ensures
        match r {
            Ok(tree) => parse_template(s@) == Ok::<Seq<NodeView>, ParseErrorView>(tree@),
            Err(e) => parse_template(s@) == Err::<Seq<NodeView>, ParseErrorView>(e@),
        },
{
    let tokens = match tokenize(s) {
        Err(e) => {
            return Err(ParseError::Lex(e));
        },
        Ok(tokens) => tokens,
    };
    proof {
        lemma_token_views(tokens@);
    }
    match nodes(&tokens, 0, s.len()) {
        Err(e) => Err(e),
        Ok((list, stop)) => {
            if stop < tokens.len() {
                match &tokens[stop] {
                    Token::TagClose { name, pos } => Err(
                        ParseError::UnbalancedTag {
                            expected: Vec::new(),
                            expected_pos: *pos,
                            found: copy_bytes(name.as_slice()),
                            found_pos: *pos,
                        },
                    ),
                    _ => Ok(SyntaxTree { childs: list }),
                }
            } else {
                Ok(SyntaxTree { childs: list })
            }
        },
    }
}

} // verus!
