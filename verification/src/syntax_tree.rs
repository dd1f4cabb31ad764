use crate::shaping::texts;
use vstd::prelude::*;

verus! {

/// The tag by which a kind of node is written in a template.
pub trait Name {
    spec fn name_spec() -> Seq<char>;

    fn name() -> (r: &'static str)
        ensures
            r@ == Self::name_spec(),
    ;
}

/// The short tag by which a kind of node may be written as well; for most
/// kinds it is the tag itself.
pub trait DefName {
    spec fn def_name_spec() -> Seq<char>;

    fn def_name() -> (r: &'static str)
        ensures
            r@ == Self::def_name_spec(),
    ;
}

/// Text that is handed on as it stands.
#[derive(Debug)]
pub struct StringNode {
    pub value: Vec<u8>,
}

/// An expression whose value takes the place of the marker: bound to a
/// placeholder, or written into the text.
#[derive(Debug)]
pub struct SubstNode {
    pub expr: Vec<u8>,
    pub bound: bool,
}

/// Children that are rendered where the test holds.
#[derive(Debug)]
pub struct IfNode {
    pub childs: Vec<NodeType>,
    pub test: Vec<u8>,
}

/// One branch of a choice, taken where its test holds.
#[derive(Debug)]
pub struct WhenNode {
    pub childs: Vec<NodeType>,
    pub test: Vec<u8>,
}

/// The branch of a choice that is taken where no other is.
#[derive(Debug)]
pub struct OtherwiseNode {
    pub childs: Vec<NodeType>,
}

/// A choice: the first branch whose test holds, else the fallback if there is one.
#[derive(Debug)]
pub struct ChooseNode {
    pub when_nodes: Vec<WhenNode>,
    pub otherwise_node: Option<OtherwiseNode>,
}

/// Children whose text is trimmed and framed.
#[derive(Debug)]
pub struct TrimNode {
    pub childs: Vec<NodeType>,
    pub prefix: Vec<u8>,
    pub suffix: Vec<u8>,
    pub prefix_overrides: Vec<Vec<u8>>,
    pub suffix_overrides: Vec<Vec<u8>>,
}

/// Children that make up a condition clause.
#[derive(Debug)]
pub struct WhereNode {
    pub childs: Vec<NodeType>,
}

/// Children that make up an assignment clause.
#[derive(Debug)]
pub struct SetNode {
    pub childs: Vec<NodeType>,
}

/// Children that are rendered once for each element of a collection.
#[derive(Debug)]
pub struct ForEachNode {
    pub childs: Vec<NodeType>,
    pub collection: Vec<u8>,
    pub index: Vec<u8>,
    pub item: Vec<u8>,
    pub open: Vec<u8>,
    pub close: Vec<u8>,
    pub separator: Vec<u8>,
}

/// A name that is given the value of an expression for the nodes that follow.
#[derive(Debug)]
pub struct BindNode {
    pub name: Vec<u8>,
    pub value: Vec<u8>,
}

/// A reference to a registered fragment, which is rendered in its place.
#[derive(Debug)]
pub struct IncludeNode {
    pub refid: Vec<u8>,
}

/// A node of the syntax tree.
#[derive(Debug)]
pub enum NodeType {
    NString(StringNode),
    NSubst(SubstNode),
    NIf(IfNode),
    NChoose(ChooseNode),
    NTrim(TrimNode),
    NWhere(WhereNode),
    NSet(SetNode),
    NForEach(ForEachNode),
    NBind(BindNode),
    NInclude(IncludeNode),
}

/// A whole template: the nodes at its top, in order.
#[derive(Debug)]
pub struct SyntaxTree {
    pub childs: Vec<NodeType>,
}

impl View for SyntaxTree {
    type V = Seq<NodeView>;

    open spec fn view(&self) -> Seq<NodeView> {
        node_views(self.childs@)
    }
}

/// What a node stands for.
pub enum NodeView {
    Text(Seq<u8>),
    Subst { expr: Seq<u8>, bound: bool },
    If { test: Seq<u8>, childs: Seq<NodeView> },
    Choose { whens: Seq<(Seq<u8>, Seq<NodeView>)>, otherwise: Option<Seq<NodeView>> },
    Trim {
        prefix: Seq<u8>,
        suffix: Seq<u8>,
        prefix_overrides: Seq<Seq<u8>>,
        suffix_overrides: Seq<Seq<u8>>,
        childs: Seq<NodeView>,
    },
    WhereClause { childs: Seq<NodeView> },
    SetClause { childs: Seq<NodeView> },
    ForEach {
        collection: Seq<u8>,
        index: Seq<u8>,
        item: Seq<u8>,
        open: Seq<u8>,
        close: Seq<u8>,
        separator: Seq<u8>,
        childs: Seq<NodeView>,
    },
    Bind { name: Seq<u8>, value: Seq<u8> },
    Include { refid: Seq<u8> },
}

/// What a node stands for.
pub open spec fn node_view(n: NodeType) -> NodeView
    decreases n,
{
    match n {
        NodeType::NString(x) => NodeView::Text(x.value@),
        NodeType::NSubst(x) => NodeView::Subst { expr: x.expr@, bound: x.bound },
        NodeType::NIf(x) => NodeView::If { test: x.test@, childs: node_views(x.childs@) },
        NodeType::NChoose(x) => NodeView::Choose {
            whens: when_views(x.when_nodes@),
            otherwise: match x.otherwise_node {
                Some(o) => Some(node_views(o.childs@)),
                None => None,
            },
        },
        NodeType::NTrim(x) => NodeView::Trim {
            prefix: x.prefix@,
            suffix: x.suffix@,
            prefix_overrides: texts(x.prefix_overrides@),
            suffix_overrides: texts(x.suffix_overrides@),
            childs: node_views(x.childs@),
        },
        NodeType::NWhere(x) => NodeView::WhereClause { childs: node_views(x.childs@) },
        NodeType::NSet(x) => NodeView::SetClause { childs: node_views(x.childs@) },
        NodeType::NForEach(x) => NodeView::ForEach {
            collection: x.collection@,
            index: x.index@,
            item: x.item@,
            open: x.open@,
            close: x.close@,
            separator: x.separator@,
            childs: node_views(x.childs@),
        },
        NodeType::NBind(x) => NodeView::Bind { name: x.name@, value: x.value@ },
        NodeType::NInclude(x) => NodeView::Include { refid: x.refid@ },
    }
}

/// What each node of a sequence stands for.
pub open spec fn node_views(s: Seq<NodeType>) -> Seq<NodeView>
    decreases s,
{
    if s.len() == 0 {
        Seq::empty()
    } else {
        node_views(s.drop_last()).push(node_view(s.last()))
    }
}

/// What each branch of a choice stands for: its test and its children.
pub open spec fn when_views(s: Seq<WhenNode>) -> Seq<(Seq<u8>, Seq<NodeView>)>
    decreases s,
{
    if s.len() == 0 {
        Seq::empty()
    } else {
        when_views(s.drop_last()).push((s.last().test@, node_views(s.last().childs@)))
    }
}

impl View for NodeType {
    type V = NodeView;

    open spec fn view(&self) -> NodeView {
        node_view(*self)
    }
}

/// The views of a sequence of nodes are the views of its nodes, one for one.
pub proof fn lemma_node_views(s: Seq<NodeType>)
    ensures
        node_views(s).len() == s.len(),
        forall|i: int| 0 <= i < s.len() ==> (#[trigger] node_views(s)[i]) == s[i]@,
    decreases s.len(),
{
    if s.len() > 0 {
        lemma_node_views(s.drop_last());
    }
}

/// The views of a sequence of branches are the views of its branches, one for one.
pub proof fn lemma_when_views(s: Seq<WhenNode>)
    ensures
        when_views(s).len() == s.len(),
        forall|i: int|
            0 <= i < s.len() ==> (#[trigger] when_views(s)[i]) == (
                s[i].test@,
                node_views(s[i].childs@),
            ),
    decreases s.len(),
{
    if s.len() > 0 {
        lemma_when_views(s.drop_last());
    }
}

/// A sequence with one more node at its end stands for one more view.
pub proof fn lemma_node_views_push(s: Seq<NodeType>, n: NodeType)
    ensures
        node_views(s.push(n)) == node_views(s).push(n@),
{
    assert(s.push(n).drop_last() =~= s);
}

/// A sequence with one more branch at its end stands for one more view.
pub proof fn lemma_when_views_push(s: Seq<WhenNode>, w: WhenNode)
    ensures
        when_views(s.push(w)) == when_views(s).push((w.test@, node_views(w.childs@))),
{
    assert(s.push(w).drop_last() =~= s);
}

/// What the fallback of a choice stands for, where there is one.
pub open spec fn otherwise_view(o: Option<OtherwiseNode>) -> Option<Seq<NodeView>> {
    match o {
        Some(x) => Some(node_views(x.childs@)),
        None => None,
    }
}

impl Name for StringNode {
    open spec fn name_spec() -> Seq<char> {
        "string"@
    }

    fn name() -> (r: &'static str) {
        "string"
    }
}

impl Name for IfNode {
    open spec fn name_spec() -> Seq<char> {
        "if"@
    }

    fn name() -> (r: &'static str) {
        "if"
    }
}

impl Name for WhenNode {
    open spec fn name_spec() -> Seq<char> {
        "when"@
    }

    fn name() -> (r: &'static str) {
        "when"
    }
}

impl Name for OtherwiseNode {
    open spec fn name_spec() -> Seq<char> {
        "otherwise"@
    }

    fn name() -> (r: &'static str) {
        "otherwise"
    }
}

impl DefName for OtherwiseNode {
    open spec fn def_name_spec() -> Seq<char> {
        "_"@
    }

    fn def_name() -> (r: &'static str) {
        "_"
    }
}

impl Name for ChooseNode {
    open spec fn name_spec() -> Seq<char> {
        "choose"@
    }

    fn name() -> (r: &'static str) {
        "choose"
    }
}

impl Name for TrimNode {
    open spec fn name_spec() -> Seq<char> {
        "trim"@
    }

    fn name() -> (r: &'static str) {
        "trim"
    }
}

impl Name for WhereNode {
    open spec fn name_spec() -> Seq<char> {
        "where"@
    }

    fn name() -> (r: &'static str) {
        "where"
    }
}

impl Name for SetNode {
    open spec fn name_spec() -> Seq<char> {
        "set"@
    }

    fn name() -> (r: &'static str) {
        "set"
    }
}

impl Name for ForEachNode {
    open spec fn name_spec() -> Seq<char> {
        "foreach"@
    }

    fn name() -> (r: &'static str) {
        "foreach"
    }
}

impl Name for BindNode {
    open spec fn name_spec() -> Seq<char> {
        "bind"@
    }

    fn name() -> (r: &'static str) {
        "bind"
    }
}

impl Name for IncludeNode {
    open spec fn name_spec() -> Seq<char> {
        "include"@
    }

    fn name() -> (r: &'static str) {
        "include"
    }
}

impl Name for SubstNode {
    open spec fn name_spec() -> Seq<char> {
        "subst"@
    }

    fn name() -> (r: &'static str) {
        "subst"
    }
}

impl DefName for StringNode {
    open spec fn def_name_spec() -> Seq<char> {
        "string"@
    }

    fn def_name() -> (r: &'static str) {
        "string"
    }
}

impl DefName for IfNode {
    open spec fn def_name_spec() -> Seq<char> {
        "if"@
    }

    fn def_name() -> (r: &'static str) {
        "if"
    }
}

impl DefName for WhenNode {
    open spec fn def_name_spec() -> Seq<char> {
        "when"@
    }

    fn def_name() -> (r: &'static str) {
        "when"
    }
}

impl DefName for ChooseNode {
    open spec fn def_name_spec() -> Seq<char> {
        "choose"@
    }

    fn def_name() -> (r: &'static str) {
        "choose"
    }
}

impl DefName for TrimNode {
    open spec fn def_name_spec() -> Seq<char> {
        "trim"@
    }

    fn def_name() -> (r: &'static str) {
        "trim"
    }
}

impl DefName for WhereNode {
    open spec fn def_name_spec() -> Seq<char> {
        "where"@
    }

    fn def_name() -> (r: &'static str) {
        "where"
    }
}

impl DefName for SetNode {
    open spec fn def_name_spec() -> Seq<char> {
        "set"@
    }

    fn def_name() -> (r: &'static str) {
        "set"
    }
}

impl DefName for ForEachNode {
    open spec fn def_name_spec() -> Seq<char> {
        "foreach"@
    }

    fn def_name() -> (r: &'static str) {
        "foreach"
    }
}

impl DefName for BindNode {
    open spec fn def_name_spec() -> Seq<char> {
        "bind"@
    }

    fn def_name() -> (r: &'static str) {
        "bind"
    }
}

impl DefName for IncludeNode {
    open spec fn def_name_spec() -> Seq<char> {
        "include"@
    }

    fn def_name() -> (r: &'static str) {
        "include"
    }
}

impl DefName for SubstNode {
    open spec fn def_name_spec() -> Seq<char> {
        "subst"@
    }

    fn def_name() -> (r: &'static str) {
        "subst"
    }
}

impl NodeType {
    /// The tag of the kind of this node.
    pub fn name(&self) -> (r: &'static str)
        ensures
            r@ == (match self {
                NodeType::NString(_) => StringNode::name_spec(),
                NodeType::NSubst(_) => SubstNode::name_spec(),
                NodeType::NIf(_) => IfNode::name_spec(),
                NodeType::NChoose(_) => ChooseNode::name_spec(),
                NodeType::NTrim(_) => TrimNode::name_spec(),
                NodeType::NWhere(_) => WhereNode::name_spec(),
                NodeType::NSet(_) => SetNode::name_spec(),
                NodeType::NForEach(_) => ForEachNode::name_spec(),
                NodeType::NBind(_) => BindNode::name_spec(),
                NodeType::NInclude(_) => IncludeNode::name_spec(),
            }),
    {
        match self {
            NodeType::NString(_) => StringNode::name(),
            NodeType::NSubst(_) => SubstNode::name(),
            NodeType::NIf(_) => IfNode::name(),
            NodeType::NChoose(_) => ChooseNode::name(),
            NodeType::NTrim(_) => TrimNode::name(),
            NodeType::NWhere(_) => WhereNode::name(),
            NodeType::NSet(_) => SetNode::name(),
            NodeType::NForEach(_) => ForEachNode::name(),
            NodeType::NBind(_) => BindNode::name(),
            NodeType::NInclude(_) => IncludeNode::name(),
        }
    }

    /// The short tag of the kind of this node.
    pub fn def_name(&self) -> (r: &'static str)
        ensures
            r@ == (match self {
                NodeType::NString(_) => StringNode::def_name_spec(),
                NodeType::NSubst(_) => SubstNode::def_name_spec(),
                NodeType::NIf(_) => IfNode::def_name_spec(),
                NodeType::NChoose(_) => ChooseNode::def_name_spec(),
                NodeType::NTrim(_) => TrimNode::def_name_spec(),
                NodeType::NWhere(_) => WhereNode::def_name_spec(),
                NodeType::NSet(_) => SetNode::def_name_spec(),
                NodeType::NForEach(_) => ForEachNode::def_name_spec(),
                NodeType::NBind(_) => BindNode::def_name_spec(),
                NodeType::NInclude(_) => IncludeNode::def_name_spec(),
            }),
    {
        match self {
            NodeType::NString(_) => StringNode::def_name(),
            NodeType::NSubst(_) => SubstNode::def_name(),
            NodeType::NIf(_) => IfNode::def_name(),
            NodeType::NChoose(_) => ChooseNode::def_name(),
            NodeType::NTrim(_) => TrimNode::def_name(),
            NodeType::NWhere(_) => WhereNode::def_name(),
            NodeType::NSet(_) => SetNode::def_name(),
            NodeType::NForEach(_) => ForEachNode::def_name(),
            NodeType::NBind(_) => BindNode::def_name(),
            NodeType::NInclude(_) => IncludeNode::def_name(),
        }
    }
}

} // verus!
