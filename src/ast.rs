//! The canonical expression tree and its mathematical model.
use vstd::prelude::*;

verus! {

/// A node of a query: a composite of sub-expressions or a leaf comparison
/// of a field against an operand.
#[derive(Debug)]
pub enum Node {
    And(Box<Expression>, Box<Expression>),
    Or(Box<Expression>, Box<Expression>),
    Not(Box<Expression>),
    Equal(String, String),
    EqualCI(String, String),
    Greater(String, String),
    Less(String, String),
    Wildcard(String, String),
    Regex(String, String),
    Any(String, Vec<String>),
    Null(String),
}

/// A parsed query.
#[derive(Debug)]
pub struct Expression {
    pub node: Node,
}

/// The model of an [`Expression`]: the same tree over sequences of characters.
pub enum Ast {
    And(Box<Ast>, Box<Ast>),
    Or(Box<Ast>, Box<Ast>),
    Not(Box<Ast>),
    Equal(Seq<char>, Seq<char>),
    EqualCI(Seq<char>, Seq<char>),
    Greater(Seq<char>, Seq<char>),
    Less(Seq<char>, Seq<char>),
    Wildcard(Seq<char>, Seq<char>),
    Regex(Seq<char>, Seq<char>),
    Any(Seq<char>, Seq<Seq<char>>),
    Null(Seq<char>),
}

/// The characters of each string of a list.
pub open spec fn views(v: Seq<String>) -> Seq<Seq<char>> {
    v.map_values(|s: String| s@)
}

/// The model of an expression tree.
pub open spec fn ast_of(e: &Expression) -> Ast
    decreases e,
{
    match &e.node {
        Node::And(l, r) => Ast::And(Box::new(ast_of(l)), Box::new(ast_of(r))),
        Node::Or(l, r) => Ast::Or(Box::new(ast_of(l)), Box::new(ast_of(r))),
        Node::Not(x) => Ast::Not(Box::new(ast_of(x))),
        Node::Equal(k, t) => Ast::Equal(k@, t@),
        Node::EqualCI(k, t) => Ast::EqualCI(k@, t@),
        Node::Greater(k, t) => Ast::Greater(k@, t@),
        Node::Less(k, t) => Ast::Less(k@, t@),
        Node::Wildcard(k, t) => Ast::Wildcard(k@, t@),
        Node::Regex(k, t) => Ast::Regex(k@, t@),
        Node::Any(k, ts) => Ast::Any(k@, views(ts@)),
        Node::Null(k) => Ast::Null(k@),
    }
}

impl View for Expression {
    type V = Ast;

    open spec fn view(&self) -> Ast {
        ast_of(self)
    }
}

/// Every field named in the tree is non-empty.
pub open spec fn fields_nonempty(a: Ast) -> bool
    decreases a,
{
    match a {
        Ast::And(l, r) => fields_nonempty(*l) && fields_nonempty(*r),
        Ast::Or(l, r) => fields_nonempty(*l) && fields_nonempty(*r),
        Ast::Not(x) => fields_nonempty(*x),
        Ast::Equal(k, _) => k.len() > 0,
        Ast::EqualCI(k, _) => k.len() > 0,
        Ast::Greater(k, _) => k.len() > 0,
        Ast::Less(k, _) => k.len() > 0,
        Ast::Wildcard(k, _) => k.len() > 0,
        Ast::Regex(k, _) => k.len() > 0,
        Ast::Any(k, _) => k.len() > 0,
        Ast::Null(k) => k.len() > 0,
    }
}

} // verus!
