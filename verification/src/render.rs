//! Renders a syntax tree against a context into text and bound values.

use crate::eval::{eval_text, evaluate, is_truthy, truthy, Context};
use crate::expr::EvalError;
use crate::shaping::{lemma_texts, shape_bytes, shaped, texts};
use crate::syntax_tree::{
    lemma_node_views, lemma_when_views, node_views, when_views, NodeType, NodeView, SyntaxTree,
};
use crate::text::{bytes_eq, copy_bytes, push_bytes};
use crate::value::{
    lemma_pair_views, lemma_views, lemma_views_concat, lemma_views_push, pair_views, value_text,
    views, Value, ValueView,
};
use vstd::prelude::*;

verus! {

/// Why a template was not rendered.
#[derive(Clone, Copy, Debug, PartialEq, Eq)]
pub enum RenderError {
    /// An expression of the template has no value.
    Eval(EvalError),
    /// A reference names no fragment, or leads back to its own fragment.
    MissingTemplate,
    /// The collection of a loop is neither an array nor pairs.
    CollectionTypeError,
}

/// A fragment that other templates may refer to by its id.
#[derive(Debug)]
pub struct Fragment {
    pub id: Vec<u8>,
    pub tree: SyntaxTree,
}

/// The fragments that references are resolved against, in the order in which
/// they were registered; of two with one id the later is meant.
#[derive(Debug)]
pub struct Registry {
    pub fragments: Vec<Fragment>,
}

/// What a rendering gives: the text, and the values of its placeholders in the
/// order in which they stand in the text.
#[derive(Debug)]
pub struct Rendered {
    pub text: Vec<u8>,
    pub args: Vec<Value>,
}

/// What a `Rendered` stands for.
pub struct Output {
    pub text: Seq<u8>,
    pub args: Seq<ValueView>,
}

impl View for Rendered {
    type V = Output;

    open spec fn view(&self) -> Output {
        Output { text: self.text@, args: views(self.args@) }
    }
}

/// What each fragment of a sequence stands for: its id and its nodes.
pub open spec fn fragment_views(s: Seq<Fragment>) -> Seq<(Seq<u8>, Seq<NodeView>)>
    decreases s.len(),
{
    if s.len() == 0 {
        Seq::empty()
    } else {
        fragment_views(s.drop_last()).push((s.last().id@, s.last().tree@))
    }
}

/// The views of a sequence of fragments are the views of its fragments, one for one.
pub proof fn lemma_fragment_views(s: Seq<Fragment>)
    ensures
        fragment_views(s).len() == s.len(),
        forall|i: int|
            0 <= i < s.len() ==> (#[trigger] fragment_views(s)[i]) == (s[i].id@, s[i].tree@),
    decreases s.len(),
{
    if s.len() > 0 {
        lemma_fragment_views(s.drop_last());
    }
}

impl View for Registry {
    type V = Seq<(Seq<u8>, Seq<NodeView>)>;

    open spec fn view(&self) -> Seq<(Seq<u8>, Seq<NodeView>)> {
        fragment_views(self.fragments@)
    }
}

/// The token that stands in the text for a bound value.
pub open spec fn placeholder() -> Seq<u8> {
    seq![0x3fu8]
}

/// The keyword `WHERE`.
pub open spec fn where_word() -> Seq<u8> {
    seq![0x57u8, 0x48u8, 0x45u8, 0x52u8, 0x45u8]
}

/// The keyword `SET`.
pub open spec fn set_word() -> Seq<u8> {
    seq![0x53u8, 0x45u8, 0x54u8]
}

/// The tokens that a condition clause does not start with: `AND` and `OR`.
pub open spec fn where_overrides() -> Seq<Seq<u8>> {
    seq![seq![0x41u8, 0x4eu8, 0x44u8], seq![0x4fu8, 0x52u8]]
}

/// The token that an assignment clause does not end with: a comma.
pub open spec fn set_overrides() -> Seq<Seq<u8>> {
    seq![seq![0x2cu8]]
}

impl Output {
    /// No text and no values.
    pub open spec fn empty() -> Output {
        Output { text: Seq::empty(), args: Seq::empty() }
    }

    /// This output with another after it.
    pub open spec fn join(self, other: Output) -> Output {
        Output { text: self.text + other.text, args: self.args + other.args }
    }
}

/// The output `first` with what `rest` gives after it; the error of `rest`
/// where it gives one.
pub open spec fn then(first: Output, rest: Result<Output, RenderError>) -> Result<
    Output,
    RenderError,
> {
    match rest {
        Ok(o) => Ok(first.join(o)),
        Err(e) => Err(e),
    }
}

pub proof fn lemma_then_empty(rest: Result<Output, RenderError>)
    ensures
        then(Output::empty(), rest) == rest,
{
    if let Ok(o) = rest {
        assert(Output::empty().join(o).text =~= o.text);
        assert(Output::empty().join(o).args =~= o.args);
    }
}

pub proof fn lemma_then_join(a: Output, b: Output, rest: Result<Output, RenderError>)
    ensures
        then(a, then(b, rest)) == then(a.join(b), rest),
{
    if let Ok(o) = rest {
        assert(a.join(b.join(o)).text =~= a.join(b).join(o).text);
        assert(a.join(b.join(o)).args =~= a.join(b).join(o).args);
    }
}

pub proof fn lemma_join_empty(a: Output)
    ensures
        a.join(Output::empty()) == a,
{
    assert(a.join(Output::empty()).text =~= a.text);
    assert(a.join(Output::empty()).args =~= a.args);
}

/// The index of the latest fragment before `limit` that has the id; below zero
/// where none has it.
pub open spec fn find_fragment(reg: Seq<(Seq<u8>, Seq<NodeView>)>, id: Seq<u8>, limit: int) -> int
    decreases limit,
{
    if limit <= 0 {
        -1
    } else if limit <= reg.len() && reg[limit - 1].0 == id {
        limit - 1
    } else {
        find_fragment(reg, id, limit - 1)
    }
}

/// The index of the first branch at or after `from` whose test holds; none
/// where no test holds.
pub open spec fn chosen(
    whens: Seq<(Seq<u8>, Seq<NodeView>)>,
    scope: Seq<(Seq<u8>, ValueView)>,
    from: int,
) -> Result<Option<int>, EvalError>
    decreases whens.len() - from,
{
    if from < 0 || from >= whens.len() {
        Ok(None)
    } else {
        match eval_text(whens[from].0, scope) {
            Err(e) => Err(e),
            Ok(v) => if truthy(v) {
                Ok(Some(from))
            } else {
                chosen(whens, scope, from + 1)
            },
        }
    }
}

/// What a loop runs over: the elements of an array, each with its index, or
/// the pairs of key and value.
pub open spec fn entries_of(c: ValueView) -> Option<Seq<(ValueView, ValueView)>> {
    match c {
        ValueView::Array(a) => Some(
            Seq::new(a.len(), |i: int| (ValueView::U64(i as u64), a[i])),
        ),
        ValueView::Pairs(m) => Some(m),
        _ => None,
    }
}

/// What one node renders to in a scope.
///
/// `depth` is how deep references may still be nested. A reference resolves
/// where a fragment has its id and the depth is not used up.
pub open spec fn render_node(
    n: NodeView,
    scope: Seq<(Seq<u8>, ValueView)>,
    reg: Seq<(Seq<u8>, Seq<NodeView>)>,
    depth: int,
) -> Result<Output, RenderError>
    decreases depth, n, 0int,
{
    match n {
        NodeView::Text(t) => Ok(Output { text: t, args: Seq::empty() }),
        NodeView::Subst { expr, bound } => match eval_text(expr, scope) {
            Err(e) => Err(RenderError::Eval(e)),
            Ok(v) => if bound {
                Ok(Output { text: placeholder(), args: seq![v] })
            } else {
                match value_text(v) {
                    Some(t) => Ok(Output { text: t, args: Seq::empty() }),
                    None => Err(RenderError::Eval(EvalError::TypeMismatch)),
                }
            },
        },
        NodeView::If { test, childs } => match eval_text(test, scope) {
            Err(e) => Err(RenderError::Eval(e)),
            Ok(v) => if truthy(v) {
                render_nodes(childs, scope, reg, depth)
            } else {
                Ok(Output::empty())
            },
        },
        NodeView::Choose { whens, otherwise } => match chosen(whens, scope, 0) {
            Err(e) => Err(RenderError::Eval(e)),
            Ok(Some(i)) => if 0 <= i < whens.len() {
                render_nodes(whens[i].1, scope, reg, depth)
            } else {
                Ok(Output::empty())
            },
            Ok(None) => match otherwise {
                Some(childs) => render_nodes(childs, scope, reg, depth),
                None => Ok(Output::empty()),
            },
        },
        NodeView::Trim { prefix, suffix, prefix_overrides, suffix_overrides, childs } => {
            match render_nodes(childs, scope, reg, depth) {
                Err(e) => Err(e),
                Ok(o) => Ok(
                    Output {
                        text: shaped(
                            o.text,
                            prefix,
                            suffix,
                            prefix_overrides,
                            suffix_overrides,
                            false,
                        ),
                        args: o.args,
                    },
                ),
            }
        },
        NodeView::WhereClause { childs } => match render_nodes(childs, scope, reg, depth) {
            Err(e) => Err(e),
            Ok(o) => Ok(
                Output {
                    text: shaped(
                        o.text,
                        where_word(),
                        Seq::empty(),
                        where_overrides(),
                        Seq::empty(),
                        true,
                    ),
                    args: o.args,
                },
            ),
        },
        NodeView::SetClause { childs } => match render_nodes(childs, scope, reg, depth) {
            Err(e) => Err(e),
            Ok(o) => Ok(
                Output {
                    text: shaped(
                        o.text,
                        set_word(),
                        Seq::empty(),
                        Seq::empty(),
                        set_overrides(),
                        true,
                    ),
                    args: o.args,
                },
            ),
        },
        NodeView::ForEach { collection, index, item, open, close, separator, childs } => {
            match eval_text(collection, scope) {
                Err(e) => Err(RenderError::Eval(e)),
                Ok(c) => match entries_of(c) {
                    None => Err(RenderError::CollectionTypeError),
                    Some(entries) => match render_each(
                        childs,
                        entries,
                        0,
                        index,
                        item,
                        separator,
                        scope,
                        reg,
                        depth,
                    ) {
                        Err(e) => Err(e),
                        Ok(o) => if entries.len() == 0 {
                            Ok(Output::empty())
                        } else {
                            Ok(Output { text: open + o.text + close, args: o.args })
                        },
                    },
                },
            }
        },
        NodeView::Bind { name, value } => match eval_text(value, scope) {
            Err(e) => Err(RenderError::Eval(e)),
            Ok(_) => Ok(Output::empty()),
        },
        NodeView::Include { refid } => {
            let k = find_fragment(reg, refid, reg.len() as int);
            if 0 <= k < reg.len() && 0 < depth {
                render_nodes(reg[k].1, scope, reg, depth - 1)
            } else {
                Err(RenderError::MissingTemplate)
            }
        },
    }
}

/// What a sequence of nodes renders to: the outputs of its nodes, one after
/// the other. A binding holds for the nodes after it in the sequence, and for
/// no other.
pub open spec fn render_nodes(
    nodes: Seq<NodeView>,
    scope: Seq<(Seq<u8>, ValueView)>,
    reg: Seq<(Seq<u8>, Seq<NodeView>)>,
    depth: int,
) -> Result<Output, RenderError>
    decreases depth, nodes, 0int,
{
    if nodes.len() == 0 {
        Ok(Output::empty())
    } else {
        match nodes[0] {
            NodeView::Bind { name, value } => match eval_text(value, scope) {
                Err(e) => Err(RenderError::Eval(e)),
                Ok(v) => render_nodes(nodes.drop_first(), scope.push((name, v)), reg, depth),
            },
            first => match render_node(first, scope, reg, depth) {
                Err(e) => Err(e),
                Ok(o) => then(o, render_nodes(nodes.drop_first(), scope, reg, depth)),
            },
        }
    }
}

/// What the rounds of a loop from round `k` on render to: the children once
/// for each entry, with the index and the item bound, and the separator before
/// every round but the first.
pub open spec fn render_each(
    childs: Seq<NodeView>,
    entries: Seq<(ValueView, ValueView)>,
    k: int,
    index: Seq<u8>,
    item: Seq<u8>,
    separator: Seq<u8>,
    scope: Seq<(Seq<u8>, ValueView)>,
    reg: Seq<(Seq<u8>, Seq<NodeView>)>,
    depth: int,
) -> Result<Output, RenderError>
    decreases depth, childs, entries.len() - k + 1,
{
    if k < 0 || k >= entries.len() {
        Ok(Output::empty())
    } else {
        match render_nodes(
            childs,
            scope.push((index, entries[k].0)).push((item, entries[k].1)),
            reg,
            depth,
        ) {
            Err(e) => Err(e),
            Ok(o) => then(
                Output {
                    text: (if k > 0 {
                        separator
                    } else {
                        Seq::empty()
                    }) + o.text,
                    args: o.args,
                },
                render_each(childs, entries, k + 1, index, item, separator, scope, reg, depth),
            ),
        }
    }
}

/// What a template renders to in a context, with a registry of fragments.
///
/// References may be nested as deep as the registry has fragments. A chain of
/// references that comes back to no fragment is never deeper, so what does not
/// resolve is a reference to no fragment or one that leads back to itself.
pub open spec fn render_tree(
    tree: Seq<NodeView>,
    scope: Seq<(Seq<u8>, ValueView)>,
    reg: Seq<(Seq<u8>, Seq<NodeView>)>,
) -> Result<Output, RenderError> {
    render_nodes(tree, scope, reg, reg.len() as int)
}

/// Whether an executable result is the output or the error that is owed.
pub open spec fn renders(r: Result<Rendered, RenderError>, owed: Result<Output, RenderError>) -> bool {
    match r {
        Ok(o) => owed == Ok::<Output, RenderError>(o@),
        Err(e) => owed == Err::<Output, RenderError>(e),
    }
}

impl Rendered {
    /// No text and no values.
    pub fn new() -> (r: Rendered)
        ensures
            r@ == Output::empty(),
    {
        Rendered { text: Vec::new(), args: Vec::new() }
    }

    /// Puts another rendering after this one.
    pub fn append(&mut self, part: Rendered)
        ensures
            final(self)@ == old(self)@.join(part@),
    {
        let mut part = part;
        proof {
            lemma_views_concat(self.args@, part.args@);
        }
        push_bytes(&mut self.text, part.text.as_slice());
        self.args.append(&mut part.args);
    }
}

impl Registry {
    /// A registry without fragments.
    pub fn new() -> (r: Registry)
        ensures
            r@ == Seq::<(Seq<u8>, Seq<NodeView>)>::empty(),
    {
        Registry { fragments: Vec::new() }
    }

    /// Registers a fragment under an id, after those that are there.
    pub fn register(&mut self, id: &[u8], tree: SyntaxTree)
        ensures
            final(self)@ == old(self)@.push((id@, tree@)),
    {
        let fragment = Fragment { id: copy_bytes(id), tree };
        assert(self.fragments@.push(fragment).drop_last() =~= self.fragments@);
        self.fragments.push(fragment);
    }

    /// Number of fragments.
    pub fn len(&self) -> (r: usize)
        ensures
            r == self@.len(),
    {
        proof {
            lemma_fragment_views(self.fragments@);
        }
        self.fragments.len()
    }

    /// The index of the latest fragment before `limit` that has the id.
    pub fn find(&self, id: &[u8], limit: usize) -> (r: Option<usize>)
        requires
            limit <= self@.len(),
        ensures
            match r {
                Some(k) => find_fragment(self@, id@, limit as int) == k && k < limit,
                None => find_fragment(self@, id@, limit as int) < 0,
            },
    {
        proof {
            lemma_fragment_views(self.fragments@);
        }
        let mut i: usize = limit;
        while i > 0
            invariant
                i <= limit <= self.fragments@.len(),
                fragment_views(self.fragments@).len() == self.fragments@.len(),
                forall|j: int|
                    0 <= j < self.fragments@.len() ==> (#[trigger] fragment_views(
                        self.fragments@,
                    )[j]) == (self.fragments@[j].id@, self.fragments@[j].tree@),
                find_fragment(self@, id@, limit as int) == find_fragment(self@, id@, i as int),
            decreases i,
        {
            if bytes_eq(self.fragments[i - 1].id.as_slice(), id) {
                return Some(i - 1);
            }
            i -= 1;
        }
        None
    }
}

fn placeholder_bytes() -> (r: Vec<u8>)
    ensures
        r@ == placeholder(),
{
    let mut r: Vec<u8> = Vec::new();
    r.push(0x3f);
    assert(r@ =~= placeholder());
    r
}

fn where_word_bytes() -> (r: Vec<u8>)
    ensures
        r@ == where_word(),
{
    let mut r: Vec<u8> = Vec::new();
    r.push(0x57);
    r.push(0x48);
    r.push(0x45);
    r.push(0x52);
    r.push(0x45);
    assert(r@ =~= where_word());
    r
}

fn set_word_bytes() -> (r: Vec<u8>)
    ensures
        r@ == set_word(),
{
    let mut r: Vec<u8> = Vec::new();
    r.push(0x53);
    r.push(0x45);
    r.push(0x54);
    assert(r@ =~= set_word());
    r
}

fn where_override_list() -> (r: Vec<Vec<u8>>)
    ensures
        texts(r@) == where_overrides(),
{
    let mut and: Vec<u8> = Vec::new();
    and.push(0x41);
    and.push(0x4e);
    and.push(0x44);
    let mut or: Vec<u8> = Vec::new();
    or.push(0x4f);
    or.push(0x52);
    let mut r: Vec<Vec<u8>> = Vec::new();
    r.push(and);
    r.push(or);
    proof {
        lemma_texts(r@);
        assert(r@[0]@ =~= where_overrides()[0]);
        assert(r@[1]@ =~= where_overrides()[1]);
        assert(texts(r@) =~= where_overrides());
    }
    r
}

fn set_override_list() -> (r: Vec<Vec<u8>>)
    ensures
        texts(r@) == set_overrides(),
{
    let mut comma: Vec<u8> = Vec::new();
    comma.push(0x2c);
    let mut r: Vec<Vec<u8>> = Vec::new();
    r.push(comma);
    proof {
        lemma_texts(r@);
        assert(r@[0]@ =~= set_overrides()[0]);
        assert(texts(r@) =~= set_overrides());
    }
    r
}

fn no_tokens() -> (r: Vec<Vec<u8>>)
    ensures
        texts(r@) == Seq::<Seq<u8>>::empty(),
{
    Vec::new()
}

/// What a loop runs over: the elements of an array, each with its index, or
/// the pairs of key and value.
fn entries(c: &Value) -> (r: Option<Vec<(Value, Value)>>)
    ensures
        match r {
            Some(e) => entries_of(c@) == Some(pair_views(e@)),
            None => entries_of(c@) is None,
        },
{
    match c {
        Value::Array(a) => {
            proof {
                lemma_views(a@);
            }
            let mut out: Vec<(Value, Value)> = Vec::new();
            let mut i: usize = 0;
            while i < a.len()
                invariant
                    i <= a.len(),
                    out@.len() == i,
                    forall|j: int|
                        0 <= j < i ==> (#[trigger] out@[j]).0@ == ValueView::U64(j as u64)
                            && out@[j].1@ == a@[j]@,
                decreases a.len() - i,
            {
                out.push((Value::U64(i as u64), a[i].copy()));
                i += 1;
            }
            proof {
                lemma_pair_views(out@);
                assert(pair_views(out@) =~= entries_of(c@).unwrap());
            }
            Some(out)
        },
        Value::Pairs(m) => {
            proof {
                lemma_pair_views(m@);
            }
            let mut out: Vec<(Value, Value)> = Vec::new();
            let mut i: usize = 0;
            while i < m.len()
                invariant
                    i <= m.len(),
                    out@.len() == i,
                    forall|j: int|
                        0 <= j < i ==> (#[trigger] out@[j]).0@ == m@[j].0@ && out@[j].1@
                            == m@[j].1@,
                decreases m.len() - i,
            {
                out.push((m[i].0.copy(), m[i].1.copy()));
                i += 1;
            }
            proof {
                lemma_pair_views(out@);
                assert(pair_views(out@) =~= pair_views(m@));
            }
            Some(out)
        },
        _ => None,
    }
}

fn render_one(n: &NodeType, ctx: &mut Context, reg: &Registry, depth: usize) -> (r: Result<
    Rendered,
    RenderError,
>)
    ensures
        renders(r, render_node(n@, old(ctx)@, reg@, depth as int)),
        r is Ok ==> final(ctx)@ == old(ctx)@,
    decreases depth, n, 0int,
{
    match n {
        NodeType::NString(x) => Ok(
            Rendered { text: copy_bytes(x.value.as_slice()), args: Vec::new() },
        ),
        NodeType::NSubst(x) => match evaluate(x.expr.as_slice(), ctx) {
            Err(e) => Err(RenderError::Eval(e)),
            Ok(v) => {
                if x.bound {
                    let mut args: Vec<Value> = Vec::new();
                    proof {
                        lemma_views_push(args@, v);
                    }
                    args.push(v);
                    assert(views(args@) =~= seq![v@]);
                    Ok(Rendered { text: placeholder_bytes(), args })
                } else {
                    match v.to_text() {
                        Some(t) => Ok(Rendered { text: t, args: Vec::new() }),
                        None => Err(RenderError::Eval(EvalError::TypeMismatch)),
                    }
                }
            },
        },
        NodeType::NIf(x) => match evaluate(x.test.as_slice(), ctx) {
            Err(e) => Err(RenderError::Eval(e)),
            Ok(v) => {
                if is_truthy(&v) {
                    render_seq(&x.childs, ctx, reg, depth)
                } else {
                    Ok(Rendered::new())
                }
            },
        },
        NodeType::NChoose(x) => {
            proof {
                lemma_when_views(x.when_nodes@);
            }
            let ghost whens = when_views(x.when_nodes@);
            let mut i: usize = 0;
            while i < x.when_nodes.len()
                invariant
                    i <= x.when_nodes.len(),
                    n is NChoose,
                    n->NChoose_0 == *x,
                    whens == when_views(x.when_nodes@),
                    whens.len() == x.when_nodes@.len(),
                    forall|j: int|
                        0 <= j < whens.len() ==> (#[trigger] whens[j]) == (
                            x.when_nodes@[j].test@,
                            node_views(x.when_nodes@[j].childs@),
                        ),
                    chosen(whens, ctx@, 0) == chosen(whens, ctx@, i as int),
                    ctx@ == old(ctx)@,
                decreases x.when_nodes.len() - i,
            {
                match evaluate(x.when_nodes[i].test.as_slice(), ctx) {
                    Err(e) => {
                        return Err(RenderError::Eval(e));
                    },
                    Ok(v) => {
                        if is_truthy(&v) {
                            return render_seq(&x.when_nodes[i].childs, ctx, reg, depth);
                        }
                    },
                }
                i += 1;
            }
            match &x.otherwise_node {
                Some(o) => render_seq(&o.childs, ctx, reg, depth),
                None => Ok(Rendered::new()),
            }
        },
        NodeType::NTrim(x) => match render_seq(&x.childs, ctx, reg, depth) {
            Err(e) => Err(e),
            Ok(o) => Ok(
                Rendered {
                    text: shape_bytes(
                        o.text.as_slice(),
                        x.prefix.as_slice(),
                        x.suffix.as_slice(),
                        x.prefix_overrides.as_slice(),
                        x.suffix_overrides.as_slice(),
                        false,
                    ),
                    args: o.args,
                },
            ),
        },
        NodeType::NWhere(x) => match render_seq(&x.childs, ctx, reg, depth) {
            Err(e) => Err(e),
            Ok(o) => {
                let word = where_word_bytes();
                let none: Vec<u8> = Vec::new();
                let before = where_override_list();
                let after = no_tokens();
                Ok(
                    Rendered {
                        text: shape_bytes(
                            o.text.as_slice(),
                            word.as_slice(),
                            none.as_slice(),
                            before.as_slice(),
                            after.as_slice(),
                            true,
                        ),
                        args: o.args,
                    },
                )
            },
        },
        NodeType::NSet(x) => match render_seq(&x.childs, ctx, reg, depth) {
            Err(e) => Err(e),
            Ok(o) => {
                let word = set_word_bytes();
                let none: Vec<u8> = Vec::new();
                let before = no_tokens();
                let after = set_override_list();
                Ok(
                    Rendered {
                        text: shape_bytes(
                            o.text.as_slice(),
                            word.as_slice(),
                            none.as_slice(),
                            before.as_slice(),
                            after.as_slice(),
                            true,
                        ),
                        args: o.args,
                    },
                )
            },
        },
        NodeType::NForEach(x) => match evaluate(x.collection.as_slice(), ctx) {
            Err(e) => Err(RenderError::Eval(e)),
            Ok(c) => match entries(&c) {
                None => Err(RenderError::CollectionTypeError),
                Some(list) => {
                    let ghost scope = ctx@;
                    let ghost ev = pair_views(list@);
                    let ghost childs = node_views(x.childs@);
                    proof {
                        lemma_pair_views(list@);
                        lemma_then_empty(
                            render_each(
                                childs,
                                ev,
                                0,
                                x.index@,
                                x.item@,
                                x.separator@,
                                scope,
                                reg@,
                                depth as int,
                            ),
                        );
                    }
                    let base = ctx.len();
                    let mut acc = Rendered::new();
                    let mut k: usize = 0;
                    while k < list.len()
                        invariant
                            k <= list.len(),
                            n is NForEach,
                            n->NForEach_0 == *x,
                                    ctx@ == scope,
                            scope == old(ctx)@,
                            eval_text(x.collection@, scope) == Ok::<ValueView, EvalError>(c@),
                            entries_of(c@) == Some(ev),
                            base == scope.len(),
                            ev == pair_views(list@),
                            ev.len() == list@.len(),
                            forall|j: int|
                                0 <= j < list@.len() ==> (#[trigger] ev[j]) == (
                                    list@[j].0@,
                                    list@[j].1@,
                                ),
                            childs == node_views(x.childs@),
                            render_each(
                                childs,
                                ev,
                                0,
                                x.index@,
                                x.item@,
                                x.separator@,
                                scope,
                                reg@,
                                depth as int,
                            ) == then(
                                acc@,
                                render_each(
                                    childs,
                                    ev,
                                    k as int,
                                    x.index@,
                                    x.item@,
                                    x.separator@,
                                    scope,
                                    reg@,
                                    depth as int,
                                ),
                            ),
                        decreases list.len() - k,
                    {
                        ctx.set(x.index.as_slice(), list[k].0.copy());
                        ctx.set(x.item.as_slice(), list[k].1.copy());
                        match render_seq(&x.childs, ctx, reg, depth) {
                            Err(e) => {
                                return Err(e);
                            },
                            Ok(o) => {
                                ctx.truncate(base);
                                assert(ctx@ =~= scope);
                                let ghost round = Output {
                                    text: (if k > 0 {
                                        x.separator@
                                    } else {
                                        Seq::empty()
                                    }) + o@.text,
                                    args: o@.args,
                                };
                                let ghost before = acc@;
                                proof {
                                    lemma_then_join(
                                        before,
                                        round,
                                        render_each(
                                            childs,
                                            ev,
                                            k + 1,
                                            x.index@,
                                            x.item@,
                                            x.separator@,
                                            scope,
                                            reg@,
                                            depth as int,
                                        ),
                                    );
                                }
                                if k > 0 {
                                    push_bytes(&mut acc.text, x.separator.as_slice());
                                }
                                acc.append(o);
                                assert(acc@.text =~= before.join(round).text);
                                assert(acc@.args =~= before.join(round).args);
                            },
                        }
                        k += 1;
                    }
                    proof {
                        lemma_join_empty(acc@);
                    }
                    if list.len() == 0 {
                        Ok(Rendered::new())
                    } else {
                        let mut text: Vec<u8> = Vec::new();
                        push_bytes(&mut text, x.open.as_slice());
                        push_bytes(&mut text, acc.text.as_slice());
                        push_bytes(&mut text, x.close.as_slice());
                        Ok(Rendered { text, args: acc.args })
                    }
                },
            },
        },
        NodeType::NBind(x) => match evaluate(x.value.as_slice(), ctx) {
            Err(e) => Err(RenderError::Eval(e)),
            Ok(_) => Ok(Rendered::new()),
        },
        NodeType::NInclude(x) => {
            proof {
                lemma_fragment_views(reg.fragments@);
            }
            match reg.find(x.refid.as_slice(), reg.len()) {
                Some(k) => {
                    if depth > 0 {
                        render_seq(&reg.fragments[k].tree.childs, ctx, reg, depth - 1)
                    } else {
                        Err(RenderError::MissingTemplate)
                    }
                },
                None => Err(RenderError::MissingTemplate),
            }
        },
    }
}

fn render_seq(nodes: &Vec<NodeType>, ctx: &mut Context, reg: &Registry, depth: usize) -> (r:
    Result<Rendered, RenderError>)
    ensures
        renders(r, render_nodes(node_views(nodes@), old(ctx)@, reg@, depth as int)),
        r is Ok ==> final(ctx)@ == old(ctx)@,
    decreases depth, nodes, 0int,
{
    let ghost all = node_views(nodes@);
    let ghost scope = ctx@;
    let ghost len = nodes@.len() as int;
    proof {
        lemma_node_views(nodes@);
        assert(all.subrange(0, len) =~= all);
        lemma_then_empty(render_nodes(all, scope, reg@, depth as int));
    }
    let base = ctx.len();
    let mut acc = Rendered::new();
    let mut i: usize = 0;
    while i < nodes.len()
        invariant
            i <= nodes.len(),
            len == nodes@.len(),
            all == node_views(nodes@),
            all.len() == nodes@.len(),
            forall|j: int| 0 <= j < nodes@.len() ==> (#[trigger] all[j]) == nodes@[j]@,
            base == scope.len(),
            base <= ctx@.len(),
            scope == old(ctx)@,
            ctx@.subrange(0, base as int) == scope,
            render_nodes(all, scope, reg@, depth as int) == then(
                acc@,
                render_nodes(all.subrange(i as int, len), ctx@, reg@, depth as int),
            ),
        decreases nodes.len() - i,
    {
        let ghost part = all.subrange(i as int, len);
        let ghost rest = all.subrange(i + 1, len);
        let ghost here = ctx@;
        let ghost before = acc@;
        assert(part[0] == nodes@[i as int]@);
        assert(part.drop_first() =~= rest);
        match &nodes[i] {
            NodeType::NBind(x) => match evaluate(x.value.as_slice(), ctx) {
                Err(e) => {
                    return Err(RenderError::Eval(e));
                },
                Ok(v) => {
                    ctx.set(x.name.as_slice(), v);
                    assert(ctx@.subrange(0, base as int) =~= here.subrange(0, base as int));
                },
            },
            node => match render_one(node, ctx, reg, depth) {
                Err(e) => {
                    return Err(e);
                },
                Ok(o) => {
                    proof {
                        lemma_then_join(
                            before,
                            o@,
                            render_nodes(rest, here, reg@, depth as int),
                        );
                    }
                    acc.append(o);
                },
            },
        }
        i += 1;
    }
    proof {
        assert(all.subrange(len, len) =~= Seq::<NodeView>::empty());
        lemma_join_empty(acc@);
    }
    ctx.truncate(base);
    Ok(acc)
}

/// Renders a template in a context, with a registry of fragments for its
/// references.
pub fn render(tree: &SyntaxTree, ctx: Context, reg: &Registry) -> (r: Result<Rendered, RenderError>)
    ensures
        renders(r, render_tree(tree@, ctx@, reg@)),
{
    let mut ctx = ctx;
    let depth = reg.len();
    render_seq(&tree.childs, &mut ctx, reg, depth)
}

} // verus!
