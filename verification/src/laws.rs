//! What holds of every rendering.

use crate::eval::{eval_text, truthy};
use crate::render::{
    chosen, entries_of, find_fragment, placeholder, render_each, render_node, render_nodes,
    set_overrides, set_word, then, where_overrides, where_word, Output, RenderError,
};
use crate::shaping::{shaped, strip_end, strip_start, token_at_end, token_at_start};
use crate::syntax_tree::NodeView;
use crate::text::{
    all_blank, count_of, is_space, lemma_count_of_absent, lemma_count_of_concat,
    lemma_count_of_subrange, lemma_skip_blanks_back_bounds, lemma_skip_blanks_bounds, lower,
    same_text, skip_blanks, skip_blanks_back, trim, trim_end, trim_start,
};
use crate::value::ValueView;
use crate::expr::EvalError;
use vstd::prelude::*;

verus! {

/// The byte of the placeholder, `?`.
pub open spec fn mark() -> u8 {
    0x3f
}

/// Whether the text holds no placeholder byte.
pub open spec fn unmarked(s: Seq<u8>) -> bool {
    forall|i: int| 0 <= i < s.len() ==> s[i] != mark()
}

/// Whether no text of the list holds a placeholder byte.
pub open spec fn all_unmarked(tokens: Seq<Seq<u8>>) -> bool {
    forall|i: int| 0 <= i < tokens.len() ==> unmarked(#[trigger] tokens[i])
}

/// Whether a node writes a placeholder byte only where it binds a value: its
/// literal text, and that of all below it, holds none, and no expression is
/// written into the text.
pub open spec fn plain(n: NodeView) -> bool
    decreases n,
{
    match n {
        NodeView::Text(t) => unmarked(t),
        NodeView::Subst { expr, bound } => bound,
        NodeView::If { test, childs } => plain_all(childs),
        NodeView::Choose { whens, otherwise } => plain_branches(whens) && (match otherwise {
            Some(childs) => plain_all(childs),
            None => true,
        }),
        NodeView::Trim { prefix, suffix, prefix_overrides, suffix_overrides, childs } => {
            &&& unmarked(prefix)
            &&& unmarked(suffix)
            &&& all_unmarked(prefix_overrides)
            &&& all_unmarked(suffix_overrides)
            &&& plain_all(childs)
        },
        NodeView::WhereClause { childs } => plain_all(childs),
        NodeView::SetClause { childs } => plain_all(childs),
        NodeView::ForEach { collection, index, item, open, close, separator, childs } => {
            &&& unmarked(open)
            &&& unmarked(close)
            &&& unmarked(separator)
            &&& plain_all(childs)
        },
        NodeView::Bind { .. } => true,
        NodeView::Include { .. } => true,
    }
}

/// Whether every node of the sequence is plain.
pub open spec fn plain_all(nodes: Seq<NodeView>) -> bool
    decreases nodes,
{
    nodes.len() == 0 || (plain(nodes[0]) && plain_all(nodes.drop_first()))
}

/// Whether the children of every branch are plain.
pub open spec fn plain_branches(whens: Seq<(Seq<u8>, Seq<NodeView>)>) -> bool
    decreases whens,
{
    whens.len() == 0 || (plain_all(whens[0].1) && plain_branches(whens.drop_first()))
}

/// Whether every fragment of the registry is plain.
pub open spec fn plain_registry(reg: Seq<(Seq<u8>, Seq<NodeView>)>) -> bool {
    forall|k: int| 0 <= k < reg.len() ==> plain_all(#[trigger] reg[k].1)
}

/// Whether the output has as many placeholder bytes as values.
pub open spec fn balanced(o: Output) -> bool {
    count_of(o.text, mark()) == o.args.len()
}

proof fn lemma_plain_branch(whens: Seq<(Seq<u8>, Seq<NodeView>)>, i: int)
    requires
        plain_branches(whens),
        0 <= i < whens.len(),
    ensures
        plain_all(whens[i].1),
    decreases whens.len(),
{
    if i > 0 {
        lemma_plain_branch(whens.drop_first(), i - 1);
    }
}

proof fn lemma_chosen_in_range(
    whens: Seq<(Seq<u8>, Seq<NodeView>)>,
    scope: Seq<(Seq<u8>, ValueView)>,
    from: int,
)
    requires
        0 <= from,
    ensures
        chosen(whens, scope, from) matches Ok(Some(i)) ==> from <= i < whens.len(),
    decreases whens.len() - from,
{
    if from < whens.len() {
        lemma_chosen_in_range(whens, scope, from + 1);
    }
}

proof fn lemma_count_trim_start(s: Seq<u8>)
    ensures
        count_of(trim_start(s), mark()) == count_of(s, mark()),
{
    lemma_skip_blanks_bounds(s, 0);
    let k = skip_blanks(s, 0);
    lemma_count_of_subrange(s, 0, k, mark());
    lemma_count_of_absent(s.subrange(0, k), mark());
    assert(s.subrange(0, 0) =~= Seq::<u8>::empty());
    assert(s.subrange(k, s.len() as int) =~= trim_start(s));
    lemma_count_of_subrange(s, k, s.len() as int, mark());
    assert(s.subrange(s.len() as int, s.len() as int) =~= Seq::<u8>::empty());
}

proof fn lemma_count_trim_end(s: Seq<u8>)
    ensures
        count_of(trim_end(s), mark()) == count_of(s, mark()),
{
    lemma_skip_blanks_back_bounds(s, s.len() as int);
    let k = skip_blanks_back(s, s.len() as int);
    lemma_count_of_subrange(s, 0, k, mark());
    lemma_count_of_absent(s.subrange(k, s.len() as int), mark());
    assert(s.subrange(0, 0) =~= Seq::<u8>::empty());
}

proof fn lemma_count_trim(s: Seq<u8>)
    ensures
        count_of(trim(s), mark()) == count_of(s, mark()),
{
    lemma_count_trim_start(s);
    lemma_count_trim_end(trim_start(s));
}

proof fn lemma_same_text_unmarked(part: Seq<u8>, token: Seq<u8>, ignore_case: bool)
    requires
        same_text(part, token, ignore_case),
        unmarked(token),
    ensures
        unmarked(part),
{
    if ignore_case {
        assert forall|i: int| 0 <= i < part.len() implies part[i] != mark() by {
            assert(lower(part[i]) == lower(token[i]));
            assert(token[i] != mark());
        }
    }
}

proof fn lemma_count_strip_start(s: Seq<u8>, tokens: Seq<Seq<u8>>, ignore_case: bool)
    requires
        all_unmarked(tokens),
    ensures
        count_of(strip_start(s, tokens, ignore_case), mark()) == count_of(s, mark()),
    decreases tokens.len(),
{
    if tokens.len() == 0 {
    } else if token_at_start(s, tokens[0], ignore_case) {
        let k = tokens[0].len() as int;
        assert(unmarked(tokens[0]));
        lemma_same_text_unmarked(s.subrange(0, k), tokens[0], ignore_case);
        lemma_count_of_absent(s.subrange(0, k), mark());
        lemma_count_of_subrange(s, 0, k, mark());
        assert(s.subrange(0, 0) =~= Seq::<u8>::empty());
        lemma_count_trim_start(s.subrange(k, s.len() as int));
    } else {
        assert forall|i: int| 0 <= i < tokens.drop_first().len() implies unmarked(
            #[trigger] tokens.drop_first()[i],
        ) by {
            assert(tokens.drop_first()[i] == tokens[i + 1]);
        }
        lemma_count_strip_start(s, tokens.drop_first(), ignore_case);
    }
}

proof fn lemma_count_strip_end(s: Seq<u8>, tokens: Seq<Seq<u8>>, ignore_case: bool)
    requires
        all_unmarked(tokens),
    ensures
        count_of(strip_end(s, tokens, ignore_case), mark()) == count_of(s, mark()),
    decreases tokens.len(),
{
    if tokens.len() == 0 {
    } else if token_at_end(s, tokens[0], ignore_case) {
        let k = s.len() - tokens[0].len();
        assert(unmarked(tokens[0]));
        lemma_same_text_unmarked(s.subrange(k, s.len() as int), tokens[0], ignore_case);
        lemma_count_of_absent(s.subrange(k, s.len() as int), mark());
        lemma_count_of_subrange(s, 0, k, mark());
        assert(s.subrange(0, 0) =~= Seq::<u8>::empty());
        lemma_count_trim_end(s.subrange(0, k));
    } else {
        assert forall|i: int| 0 <= i < tokens.drop_first().len() implies unmarked(
            #[trigger] tokens.drop_first()[i],
        ) by {
            assert(tokens.drop_first()[i] == tokens[i + 1]);
        }
        lemma_count_strip_end(s, tokens.drop_first(), ignore_case);
    }
}

/// Trimming and framing with texts that hold no placeholder byte leaves the
/// number of placeholder bytes as it was.
pub proof fn lemma_count_shaped(
    body: Seq<u8>,
    prefix: Seq<u8>,
    suffix: Seq<u8>,
    prefix_overrides: Seq<Seq<u8>>,
    suffix_overrides: Seq<Seq<u8>>,
    ignore_case: bool,
)
    requires
        unmarked(prefix),
        unmarked(suffix),
        all_unmarked(prefix_overrides),
        all_unmarked(suffix_overrides),
    ensures
        count_of(
            shaped(body, prefix, suffix, prefix_overrides, suffix_overrides, ignore_case),
            mark(),
        ) == count_of(body, mark()),
{
    let b0 = trim(body);
    let b1 = strip_start(b0, seq![prefix], ignore_case);
    let b2 = strip_end(b1, seq![suffix], ignore_case);
    let b3 = strip_start(b2, prefix_overrides, ignore_case);
    let b4 = strip_end(b3, suffix_overrides, ignore_case);
    lemma_count_trim(body);
    assert(all_unmarked(seq![prefix]));
    assert(all_unmarked(seq![suffix]));
    lemma_count_strip_start(b0, seq![prefix], ignore_case);
    lemma_count_strip_end(b1, seq![suffix], ignore_case);
    lemma_count_strip_start(b2, prefix_overrides, ignore_case);
    lemma_count_strip_end(b3, suffix_overrides, ignore_case);
    if b4.len() > 0 {
        let head = if prefix.len() > 0 {
            prefix + seq![0x20u8]
        } else {
            Seq::<u8>::empty()
        };
        let tail = if suffix.len() > 0 {
            seq![0x20u8] + suffix
        } else {
            Seq::<u8>::empty()
        };
        assert(unmarked(head));
        assert(unmarked(tail));
        lemma_count_of_absent(head, mark());
        lemma_count_of_absent(tail, mark());
        lemma_count_of_concat(head, b4, mark());
        lemma_count_of_concat(head + b4, tail, mark());
    }
}

proof fn lemma_balanced_join(a: Output, b: Output)
    requires
        balanced(a),
        balanced(b),
    ensures
        balanced(a.join(b)),
{
    lemma_count_of_concat(a.text, b.text, mark());
}

/// In what a plain node renders to, with a registry of plain fragments, the
/// placeholders are as many as the bound values.
pub proof fn law_node_placeholders_match_values(
    n: NodeView,
    scope: Seq<(Seq<u8>, ValueView)>,
    reg: Seq<(Seq<u8>, Seq<NodeView>)>,
    depth: int,
)
    requires
        plain(n),
        plain_registry(reg),
    ensures
        render_node(n, scope, reg, depth) matches Ok(o) ==> balanced(o),
    decreases depth, n, 0int,
{
    match n {
        NodeView::Text(t) => {
            lemma_count_of_absent(t, mark());
        },
        NodeView::Subst { expr, bound } => {
            reveal_with_fuel(count_of, 3);
            assert(placeholder().drop_last() =~= Seq::<u8>::empty());
            assert(count_of(placeholder(), mark()) == 1);
        },
        NodeView::If { test, childs } => {
            law_placeholders_match_values(childs, scope, reg, depth);
        },
        NodeView::Choose { whens, otherwise } => {
            lemma_chosen_in_range(whens, scope, 0);
            match chosen(whens, scope, 0) {
                Ok(Some(i)) => {
                    lemma_plain_branch(whens, i);
                    law_placeholders_match_values(whens[i].1, scope, reg, depth);
                },
                Ok(None) => {
                    if let Some(childs) = otherwise {
                        law_placeholders_match_values(childs, scope, reg, depth);
                    }
                },
                Err(_) => {},
            }
        },
        NodeView::Trim { prefix, suffix, prefix_overrides, suffix_overrides, childs } => {
            law_placeholders_match_values(childs, scope, reg, depth);
            if let Ok(o) = render_nodes(childs, scope, reg, depth) {
                lemma_count_shaped(o.text, prefix, suffix, prefix_overrides, suffix_overrides, false);
            }
        },
        NodeView::WhereClause { childs } => {
            law_placeholders_match_values(childs, scope, reg, depth);
            if let Ok(o) = render_nodes(childs, scope, reg, depth) {
                assert(unmarked(where_overrides()[0]));
                assert(unmarked(where_overrides()[1]));
                lemma_count_shaped(
                    o.text,
                    where_word(),
                    Seq::empty(),
                    where_overrides(),
                    Seq::empty(),
                    true,
                );
            }
        },
        NodeView::SetClause { childs } => {
            law_placeholders_match_values(childs, scope, reg, depth);
            if let Ok(o) = render_nodes(childs, scope, reg, depth) {
                assert(unmarked(set_overrides()[0]));
                lemma_count_shaped(
                    o.text,
                    set_word(),
                    Seq::empty(),
                    Seq::empty(),
                    set_overrides(),
                    true,
                );
            }
        },
        NodeView::ForEach { collection, index, item, open, close, separator, childs } => {
            if let Ok(c) = eval_text(collection, scope) {
                if let Some(entries) = entries_of(c) {
                    lemma_each_placeholders_match_values(
                        childs,
                        entries,
                        0,
                        index,
                        item,
                        separator,
                        scope,
                        reg,
                        depth,
                    );
                    if let Ok(o) = render_each(
                        childs,
                        entries,
                        0,
                        index,
                        item,
                        separator,
                        scope,
                        reg,
                        depth,
                    ) {
                        lemma_count_of_absent(open, mark());
                        lemma_count_of_absent(close, mark());
                        lemma_count_of_concat(open, o.text, mark());
                        lemma_count_of_concat(open + o.text, close, mark());
                    }
                }
            }
        },
        NodeView::Bind { .. } => {},
        NodeView::Include { refid } => {
            let k = find_fragment(reg, refid, reg.len() as int);
            if 0 <= k < reg.len() && 0 < depth {
                law_placeholders_match_values(reg[k].1, scope, reg, depth - 1);
            }
        },
    }
}

/// In what a sequence of plain nodes renders to, with a registry of plain
/// fragments, the placeholders are as many as the bound values.
pub proof fn law_placeholders_match_values(
    nodes: Seq<NodeView>,
    scope: Seq<(Seq<u8>, ValueView)>,
    reg: Seq<(Seq<u8>, Seq<NodeView>)>,
    depth: int,
)
    requires
        plain_all(nodes),
        plain_registry(reg),
    ensures
        render_nodes(nodes, scope, reg, depth) matches Ok(o) ==> balanced(o),
    decreases depth, nodes, 0int,
{
    if nodes.len() > 0 {
        match nodes[0] {
            NodeView::Bind { name, value } => {
                if let Ok(v) = eval_text(value, scope) {
                    law_placeholders_match_values(
                        nodes.drop_first(),
                        scope.push((name, v)),
                        reg,
                        depth,
                    );
                }
            },
            first => {
                law_node_placeholders_match_values(first, scope, reg, depth);
                law_placeholders_match_values(nodes.drop_first(), scope, reg, depth);
                if let Ok(a) = render_node(first, scope, reg, depth) {
                    if let Ok(b) = render_nodes(nodes.drop_first(), scope, reg, depth) {
                        lemma_balanced_join(a, b);
                    }
                }
            },
        }
    }
}

proof fn lemma_each_placeholders_match_values(
    childs: Seq<NodeView>,
    entries: Seq<(ValueView, ValueView)>,
    k: int,
    index: Seq<u8>,
    item: Seq<u8>,
    separator: Seq<u8>,
    scope: Seq<(Seq<u8>, ValueView)>,
    reg: Seq<(Seq<u8>, Seq<NodeView>)>,
    depth: int,
)
    requires
        plain_all(childs),
        plain_registry(reg),
        unmarked(separator),
    ensures
        render_each(childs, entries, k, index, item, separator, scope, reg, depth) matches Ok(o)
            ==> balanced(o),
    decreases depth, childs, entries.len() - k + 1,
{
    if 0 <= k < entries.len() {
        let inner = scope.push((index, entries[k].0)).push((item, entries[k].1));
        law_placeholders_match_values(childs, inner, reg, depth);
        lemma_each_placeholders_match_values(
            childs,
            entries,
            k + 1,
            index,
            item,
            separator,
            scope,
            reg,
            depth,
        );
        if let Ok(o) = render_nodes(childs, inner, reg, depth) {
            let lead = if k > 0 {
                separator
            } else {
                Seq::<u8>::empty()
            };
            lemma_count_of_absent(lead, mark());
            lemma_count_of_concat(lead, o.text, mark());
            let round = Output { text: lead + o.text, args: o.args };
            if let Ok(rest) = render_each(
                childs,
                entries,
                k + 1,
                index,
                item,
                separator,
                scope,
                reg,
                depth,
            ) {
                lemma_balanced_join(round, rest);
            }
        }
    }
}

/// Whether every node of the sequence is literal text.
pub open spec fn all_text(nodes: Seq<NodeView>) -> bool {
    forall|i: int| 0 <= i < nodes.len() ==> (#[trigger] nodes[i]) is Text
}

/// The texts of a sequence of literal nodes, one after the other.
pub open spec fn joined_text(nodes: Seq<NodeView>) -> Seq<u8>
    decreases nodes.len(),
{
    if nodes.len() == 0 {
        Seq::empty()
    } else {
        (match nodes[0] {
            NodeView::Text(t) => t,
            _ => Seq::empty(),
        }) + joined_text(nodes.drop_first())
    }
}

/// A tree of literal text alone renders to its texts, one after the other,
/// and binds no value, whatever the context and the registry hold.
pub proof fn law_literals_render_verbatim(
    nodes: Seq<NodeView>,
    scope: Seq<(Seq<u8>, ValueView)>,
    reg: Seq<(Seq<u8>, Seq<NodeView>)>,
    depth: int,
)
    requires
        all_text(nodes),
    ensures
        render_nodes(nodes, scope, reg, depth) == Ok::<Output, RenderError>(
            Output { text: joined_text(nodes), args: Seq::empty() },
        ),
    decreases nodes.len(),
{
    if nodes.len() > 0 {
        let rest = nodes.drop_first();
        assert forall|i: int| 0 <= i < rest.len() implies (#[trigger] rest[i]) is Text by {
            assert(rest[i] == nodes[i + 1]);
        }
        law_literals_render_verbatim(rest, scope, reg, depth);
        assert(nodes[0] is Text);
        let first = Output { text: nodes[0]->Text_0, args: Seq::empty() };
        let tail = Output { text: joined_text(rest), args: Seq::empty() };
        assert(render_node(nodes[0], scope, reg, depth) == Ok::<Output, RenderError>(first));
        assert(first.join(tail).args =~= Seq::<ValueView>::empty());
        assert(first.join(tail).text =~= joined_text(nodes));
        assert(render_nodes(nodes, scope, reg, depth) == then(
            first,
            render_nodes(rest, scope, reg, depth),
        ));
    }
}

/// A condition whose test does not hold renders to nothing and binds no value.
pub proof fn law_false_condition_renders_nothing(
    test: Seq<u8>,
    childs: Seq<NodeView>,
    scope: Seq<(Seq<u8>, ValueView)>,
    reg: Seq<(Seq<u8>, Seq<NodeView>)>,
    depth: int,
)
    requires
        eval_text(test, scope) matches Ok(v) && !truthy(v),
    ensures
        render_node(NodeView::If { test, childs }, scope, reg, depth) == Ok::<
            Output,
            RenderError,
        >(Output::empty()),
{
}

/// A loop over an empty array renders to nothing, whatever it opens and closes with.
pub proof fn law_loop_over_nothing_renders_nothing(
    n: NodeView,
    scope: Seq<(Seq<u8>, ValueView)>,
    reg: Seq<(Seq<u8>, Seq<NodeView>)>,
    depth: int,
)
    requires
        n is ForEach,
        eval_text(n->collection, scope) == Ok::<ValueView, EvalError>(
            ValueView::Array(Seq::empty()),
        ),
    ensures
        render_node(n, scope, reg, depth) == Ok::<Output, RenderError>(Output::empty()),
{
    let entries = entries_of(ValueView::Array(Seq::empty())).unwrap();
    assert(entries.len() == 0);
}

proof fn lemma_strip_start_nothing(tokens: Seq<Seq<u8>>, ignore_case: bool)
    ensures
        strip_start(Seq::empty(), tokens, ignore_case) == Seq::<u8>::empty(),
    decreases tokens.len(),
{
    if tokens.len() > 0 {
        lemma_strip_start_nothing(tokens.drop_first(), ignore_case);
    }
}

proof fn lemma_strip_end_nothing(tokens: Seq<Seq<u8>>, ignore_case: bool)
    ensures
        strip_end(Seq::empty(), tokens, ignore_case) == Seq::<u8>::empty(),
    decreases tokens.len(),
{
    if tokens.len() > 0 {
        lemma_strip_end_nothing(tokens.drop_first(), ignore_case);
    }
}

/// A body of blanks alone is trimmed to nothing: neither prefix nor suffix is added.
pub proof fn law_blank_body_is_trimmed_to_nothing(
    body: Seq<u8>,
    prefix: Seq<u8>,
    suffix: Seq<u8>,
    prefix_overrides: Seq<Seq<u8>>,
    suffix_overrides: Seq<Seq<u8>>,
    ignore_case: bool,
)
    requires
        all_blank(body),
    ensures
        shaped(body, prefix, suffix, prefix_overrides, suffix_overrides, ignore_case) == Seq::<
            u8,
        >::empty(),
{
    lemma_skip_blanks_bounds(body, 0);
    assert(skip_blanks(body, 0) == body.len()) by {
        if skip_blanks(body, 0) < body.len() {
            assert(is_space(body[skip_blanks(body, 0)]));
        }
    }
    assert(trim_start(body) =~= Seq::<u8>::empty());
    assert(trim(body) =~= Seq::<u8>::empty());
    lemma_strip_start_nothing(seq![prefix], ignore_case);
    lemma_strip_end_nothing(seq![suffix], ignore_case);
    lemma_strip_start_nothing(prefix_overrides, ignore_case);
    lemma_strip_end_nothing(suffix_overrides, ignore_case);
}

/// A condition clause whose children render to no text is no text: the
/// keyword is not written.
pub proof fn law_empty_where_renders_nothing(
    childs: Seq<NodeView>,
    scope: Seq<(Seq<u8>, ValueView)>,
    reg: Seq<(Seq<u8>, Seq<NodeView>)>,
    depth: int,
)
    requires
        render_nodes(childs, scope, reg, depth) matches Ok(o) && o.text.len() == 0,
    ensures
        render_node(NodeView::WhereClause { childs }, scope, reg, depth) matches Ok(o)
            && o.text.len() == 0,
{
    let o = render_nodes(childs, scope, reg, depth).unwrap();
    assert(o.text =~= Seq::<u8>::empty());
    law_blank_body_is_trimmed_to_nothing(
        o.text,
        where_word(),
        Seq::empty(),
        where_overrides(),
        Seq::empty(),
        true,
    );
}

} // verus!
