//! The node tree: text, expression interpolations and elements, and the
//! directives that elements carry.

use crate::expr::{
    clone_exprs, clone_option, clone_option_pattern, clone_params, exprs_model, option_model,
    option_pattern_model, params_model, Expr, ExprV, Pattern, PatternV,
};
use crate::text::copy_bytes;
use vstd::prelude::*;

verus! {

/// The directive that runs nothing of its own: it renders its children in a
/// frame of their own. It also stands for the `else` branch of `if`.
#[derive(Debug, PartialEq)]
pub struct Stub;

/// `if EXPR`, and as a branch `elif EXPR`.
#[derive(Debug, PartialEq)]
pub struct If {
    pub expr: Expr,
}

/// `for VALUE [, KEY] in EXPR`.
#[derive(Debug, PartialEq)]
pub struct For {
    pub vpat: Pattern,
    pub kpat: Option<Pattern>,
    pub expr: Expr,
}

/// `def PAT = EXPR`: binds the value of the expression.
#[derive(Debug, PartialEq)]
pub struct DefVar {
    pub pat: Pattern,
    pub expr: Expr,
}

/// `def NAME(PARAMS) = EXPR`, or `def NAME(PARAMS)` with the children as the
/// body: binds a function.
#[derive(Debug, PartialEq)]
pub struct DefFn {
    pub ident: Vec<u8>,
    pub params: Vec<(Pattern, Option<Expr>)>,
    pub expr: Option<Expr>,
}

/// The two forms of `def`.
#[derive(Debug, PartialEq)]
pub enum Def {
    Var(DefVar),
    Fn(DefFn),
}

/// `apply NAME(ARGS)`: calls a function and renders what it returns.
#[derive(Debug, PartialEq)]
pub struct Apply {
    pub name: Vec<u8>,
    pub args: Vec<Expr>,
}

/// A directive as it stands in the tree, with the arguments of its tag.
#[derive(Debug, PartialEq)]
pub enum Directive {
    Stub(Stub),
    If(If),
    For(For),
    Def(Def),
    Apply(Apply),
}

/// The model of a directive.
pub enum DirectiveV {
    Stub,
    If(ExprV),
    For(PatternV, Option<PatternV>, ExprV),
    DefVar(PatternV, ExprV),
    DefFn(Seq<u8>, Seq<(PatternV, Option<ExprV>)>, Option<ExprV>),
    Apply(Seq<u8>, Seq<ExprV>),
}

/// The directives that a name can be registered for.
#[derive(Debug, Clone, Copy, PartialEq, Eq)]
pub enum DirectiveKind {
    Stub,
    If,
    For,
    Def,
    Apply,
}

/// A directive's occurrence: the directive, the nodes inside it, and the
/// branches attached to it.
#[derive(Debug, PartialEq)]
pub struct Element {
    pub directive: Directive,
    pub nodes: Vec<Node>,
    pub branches: Vec<Element>,
}

/// A node of a parsed template.
#[derive(Debug, PartialEq)]
pub enum Node {
    Text(Vec<u8>),
    Expr(Expr),
    Element(Element),
}

/// The model of an element.
pub struct ElementV {
    pub directive: DirectiveV,
    pub nodes: Seq<NodeV>,
    pub branches: Seq<ElementV>,
}

/// The model of a node.
pub enum NodeV {
    Text(Seq<u8>),
    Expr(ExprV),
    Element(ElementV),
}

/// The body of a function: one expression, or a list of nodes.
#[derive(Debug, PartialEq)]
pub enum Definition {
    Inline(Expr),
    Block(Vec<Node>),
}

/// The model of a function body.
pub enum DefinitionV {
    Inline(ExprV),
    Block(Seq<NodeV>),
}

impl Directive {
    /// The model of the directive.
    pub open spec fn model(self) -> DirectiveV {
        match self {
            Directive::Stub(_) => DirectiveV::Stub,
            Directive::If(d) => DirectiveV::If(d.expr.model()),
            Directive::For(d) => DirectiveV::For(
                d.vpat.model(),
                option_pattern_model(d.kpat),
                d.expr.model(),
            ),
            Directive::Def(Def::Var(d)) => DirectiveV::DefVar(d.pat.model(), d.expr.model()),
            Directive::Def(Def::Fn(d)) => DirectiveV::DefFn(
                d.ident@,
                params_model(d.params@),
                option_model(d.expr),
            ),
            Directive::Apply(d) => DirectiveV::Apply(d.name@, exprs_model(d.args@)),
        }
    }

    /// The kind of the directive.
    pub open spec fn kind(self) -> DirectiveKind {
        match self {
            Directive::Stub(_) => DirectiveKind::Stub,
            Directive::If(_) => DirectiveKind::If,
            Directive::For(_) => DirectiveKind::For,
            Directive::Def(_) => DirectiveKind::Def,
            Directive::Apply(_) => DirectiveKind::Apply,
        }
    }
}

impl View for Directive {
    type V = DirectiveV;

    open spec fn view(&self) -> DirectiveV {
        self.model()
    }
}

impl Node {
    /// The model of the node.
    pub open spec fn model(self) -> NodeV
        decreases self,
    {
        match self {
            Node::Text(t) => NodeV::Text(t@),
            Node::Expr(e) => NodeV::Expr(e.model()),
            Node::Element(el) => NodeV::Element(el.model()),
        }
    }
}

impl Element {
    /// The model of the element.
    pub open spec fn model(self) -> ElementV
        decreases self,
    {
        ElementV {
            directive: self.directive.model(),
            nodes: nodes_model(self.nodes@),
            branches: elements_model(self.branches@),
        }
    }

    /// An element with no nodes and no branches yet.
    pub fn new(directive: Directive) -> (r: Self)
        ensures
            r@ == (ElementV { directive: directive@, nodes: Seq::empty(), branches: Seq::empty() }),
    {
        let r = Element { directive, nodes: Vec::new(), branches: Vec::new() };
        assert(nodes_model(r.nodes@) =~= Seq::empty());
        assert(elements_model(r.branches@) =~= Seq::empty());
        r
    }
}

/// The models of a list of nodes.
pub open spec fn nodes_model(v: Seq<Node>) -> Seq<NodeV>
    decreases v,
{
    Seq::new(
        v.len(),
        |i: int|
            if 0 <= i < v.len() {
                v[i].model()
            } else {
                NodeV::Text(Seq::empty())
            },
    )
}

/// The models of a list of elements.
pub open spec fn elements_model(v: Seq<Element>) -> Seq<ElementV>
    decreases v,
{
    Seq::new(
        v.len(),
        |i: int|
            if 0 <= i < v.len() {
                v[i].model()
            } else {
                ElementV { directive: DirectiveV::Stub, nodes: Seq::empty(), branches: Seq::empty() }
            },
    )
}

impl View for Node {
    type V = NodeV;

    open spec fn view(&self) -> NodeV {
        self.model()
    }
}

impl View for Element {
    type V = ElementV;

    open spec fn view(&self) -> ElementV {
        self.model()
    }
}

impl Definition {
    /// The model of the body.
    pub open spec fn model(self) -> DefinitionV {
        match self {
            Definition::Inline(e) => DefinitionV::Inline(e.model()),
            Definition::Block(nodes) => DefinitionV::Block(nodes_model(nodes@)),
        }
    }
}

impl View for Definition {
    type V = DefinitionV;

    open spec fn view(&self) -> DefinitionV {
        self.model()
    }
}

/// The model of a list with one more node is the model of the list with
/// the model of the node.
pub proof fn lemma_nodes_push(v: Seq<Node>, e: Node)
    ensures
        nodes_model(v.push(e)) == nodes_model(v).push(e.model()),
{
    assert(nodes_model(v.push(e)) =~= nodes_model(v).push(e.model()));
}

/// The model of a list with one more element is the model of the list with
/// the model of the element.
pub proof fn lemma_elements_push(v: Seq<Element>, e: Element)
    ensures
        elements_model(v.push(e)) == elements_model(v).push(e.model()),
{
    assert(elements_model(v.push(e)) =~= elements_model(v).push(e.model()));
}

impl Clone for Directive {
    fn clone(&self) -> (r: Self)
        ensures
            r@ == self@,
    {
        match self {
            Directive::Stub(_) => Directive::Stub(Stub),
            Directive::If(d) => Directive::If(If { expr: d.expr.clone() }),
            Directive::For(d) => Directive::For(
                For {
                    vpat: d.vpat.clone(),
                    kpat: clone_option_pattern(&d.kpat),
                    expr: d.expr.clone(),
                },
            ),
            Directive::Def(Def::Var(d)) => Directive::Def(
                Def::Var(DefVar { pat: d.pat.clone(), expr: d.expr.clone() }),
            ),
            Directive::Def(Def::Fn(d)) => Directive::Def(
                Def::Fn(
                    DefFn {
                        ident: copy_bytes(d.ident.as_slice()),
                        params: clone_params(&d.params),
                        expr: clone_option(&d.expr),
                    },
                ),
            ),
            Directive::Apply(d) => Directive::Apply(
                Apply { name: copy_bytes(d.name.as_slice()), args: clone_exprs(&d.args) },
            ),
        }
    }
}

/// A copy of a list of nodes.
pub fn clone_nodes(v: &Vec<Node>) -> (r: Vec<Node>)
    ensures
        nodes_model(r@) == nodes_model(v@),
    decreases v,
{
    let mut out: Vec<Node> = Vec::new();
    let mut i: usize = 0;
    while i < v.len()
        invariant
            i <= v.len(),
            out@.len() == i,
            forall|j: int| 0 <= j < i ==> out@[j].model() == v@[j].model(),
        decreases v.len() - i,
    {
        out.push(v[i].clone());
        i += 1;
    }
    assert(nodes_model(out@) =~= nodes_model(v@));
    out
}

/// A copy of a list of elements.
pub fn clone_elements(v: &Vec<Element>) -> (r: Vec<Element>)
    ensures
        elements_model(r@) == elements_model(v@),
    decreases v,
{
    let mut out: Vec<Element> = Vec::new();
    let mut i: usize = 0;
    while i < v.len()
        invariant
            i <= v.len(),
            out@.len() == i,
            forall|j: int| 0 <= j < i ==> out@[j].model() == v@[j].model(),
        decreases v.len() - i,
    {
        out.push(v[i].clone());
        i += 1;
    }
    assert(elements_model(out@) =~= elements_model(v@));
    out
}

impl Clone for Element {
    fn clone(&self) -> (r: Self)
        ensures
            r@ == self@,
        decreases self,
    {
        Element {
            directive: self.directive.clone(),
            nodes: clone_nodes(&self.nodes),
            branches: clone_elements(&self.branches),
        }
    }
}

impl Clone for Node {
    fn clone(&self) -> (r: Self)
        ensures
            r@ == self@,
        decreases self,
    {
        match self {
            Node::Text(t) => Node::Text(copy_bytes(t.as_slice())),
            Node::Expr(e) => Node::Expr(e.clone()),
            Node::Element(el) => Node::Element(el.clone()),
        }
    }
}

impl Clone for Definition {
    fn clone(&self) -> (r: Self)
        ensures
            r@ == self@,
    {
        match self {
            Definition::Inline(e) => Definition::Inline(e.clone()),
            Definition::Block(nodes) => Definition::Block(clone_nodes(nodes)),
        }
    }
}

} // verus!
