//! A small filter-query language: a textual boolean grammar over named
//! fields, parsed into an [`Expression`] tree that can be evaluated against a
//! record or compiled into a parameterised SQL condition.
pub mod ast;
pub mod interpreter;
pub mod literal;
pub mod parser;
pub mod table;
pub mod text;

use vstd::prelude::*;

pub use ast::{fields_nonempty, Ast, Expression, Node};
use parser::comparison::{comparison_ast, Comparison};
use parser::relation::{lemma_relation_fields, relation_ast, relation_at, spec_relation, Relation};
use text::chars_of;

verus! {

/// Why a query could not be parsed: a description naming the position where
/// the grammar was not met.
#[derive(Debug, Clone, PartialEq, Eq)]
pub enum Error {
    Parser(String),
}

/// The tree a whole query string stands for: one relation that takes every
/// character.
pub open spec fn spec_query(s: Seq<char>) -> Option<Ast> {
    match spec_relation(s, 0) {
        Some((a, e)) => if e == s.len() {
            Some(a)
        } else {
            None
        },
        None => None,
    }
}

/// The decimal digits of `n`.
pub open spec fn decimal_text(n: nat) -> Seq<char>
    decreases n,
{
    if n < 10 {
        seq![(('0' as u8) + n) as u8 as char]
    } else {
        decimal_text(n / 10).push(((('0' as u8) + n % 10) as u8) as char)
    }
}

fn decimal(n: usize) -> (r: String)
    ensures
        r@ == decimal_text(n as nat),
    decreases n,
{
    let digits = "0123456789";
    proof {
        reveal_strlit("0123456789");
        assert(forall|d: int| 0 <= d < 10 ==> digits@[d] == ((('0' as u8) + d) as u8) as char);
    }
    if n < 10 {
        let r = String::from_str(digits.substring_char(n, n + 1));
        proof {
            assert(digits@.subrange(n as int, n + 1) =~= seq![digits@[n as int]]);
        }
        r
    } else {
        let mut r = decimal(n / 10);
        r.append(digits.substring_char(n % 10, n % 10 + 1));
        proof {
            assert(digits@.subrange((n % 10) as int, n % 10 + 1) =~= seq![digits@[(n % 10) as int]]);
        }
        r
    }
}

/// The description of a syntax error found at character `p`.
pub open spec fn syntax_message(p: nat) -> Seq<char> {
    "syntax error at character "@ + decimal_text(p)
}

/// `e` describes a syntax error at some character of a query of `len`
/// characters.
pub open spec fn describes_failure(e: Error, len: nat) -> bool {
    match e {
        Error::Parser(m) => exists|p: nat| p <= len && m@ == syntax_message(p),
    }
}

fn syntax_error(pos: usize) -> (r: Error)
    ensures
        r matches Error::Parser(m) && m@ == syntax_message(pos as nat),
{
    let mut m = String::from_str("syntax error at character ");
    let d = decimal(pos);
    m.append(d.as_str());
    Error::Parser(m)
}

impl Expression {
    /// The leaf a parsed comparison stands for.
    pub fn from_comparison(c: Comparison) -> (e: Expression)
        ensures
            e@ == comparison_ast(c),
    {
        let node = match c {
            Comparison::IsEqual(k, t) => Node::Equal(k, t),
            Comparison::IsEqualCI(k, t) => Node::EqualCI(k, t),
            Comparison::IsGreater(k, t) => Node::Greater(k, t),
            Comparison::IsLess(k, t) => Node::Less(k, t),
            Comparison::IsWildcard(k, t) => Node::Wildcard(k, t),
            Comparison::IsRegex(k, t) => Node::Regex(k, t),
            Comparison::IsAny(k, ts) => Node::Any(k, ts),
            Comparison::IsNull(k) => Node::Null(k),
        };
        Expression { node }
    }

    /// The canonical tree of a parsed relation: every comparison becomes a
    /// leaf and every composite form a conjunction, disjunction or negation.
    pub fn from_relation(relation: Box<Relation>) -> (e: Expression)
        ensures
            e@ == relation_ast(*relation),
        decreases relation,
    {
        let node = match *relation {
            Relation::C(c) => return Self::from_comparison(c),
            Relation::Rar { left, right } => Node::And(Box::new(Self::from_relation(left)), Box::new(Self::from_relation(right))),
            Relation::Rac { left, right } => Node::And(Box::new(Self::from_relation(left)), Box::new(Self::from_comparison(right))),
            Relation::Car { left, right } => Node::And(Box::new(Self::from_comparison(left)), Box::new(Self::from_relation(right))),
            Relation::Cac { left, right } => Node::And(Box::new(Self::from_comparison(left)), Box::new(Self::from_comparison(right))),
            Relation::Ror { left, right } => Node::Or(Box::new(Self::from_relation(left)), Box::new(Self::from_relation(right))),
            Relation::Roc { left, right } => Node::Or(Box::new(Self::from_relation(left)), Box::new(Self::from_comparison(right))),
            Relation::Cor { left, right } => Node::Or(Box::new(Self::from_comparison(left)), Box::new(Self::from_relation(right))),
            Relation::Coc { left, right } => Node::Or(Box::new(Self::from_comparison(left)), Box::new(Self::from_comparison(right))),
            Relation::NR(x) => Node::Not(Box::new(Self::from_relation(x))),
            Relation::NC(c) => Node::Not(Box::new(Self::from_comparison(c))),
        };
        Expression { node }
    }
}

/// Parses a query. The whole string must be one relation; anything else
/// is a syntax error.
pub fn parse(query: &str) -> (r: Result<Expression, Error>)
    ensures
        match r {
            Ok(e) => spec_query(query@) == Some(e@) && fields_nonempty(e@),
            Err(e) => spec_query(query@) is None && describes_failure(e, query@.len()),
        },
{
    let c = chars_of(query);
    match relation_at(query, &c, 0) {
        Ok((rel, end)) => {
            if end == c.len() {
                proof {
                    lemma_relation_fields(c@, 0);
                }
                Ok(Expression::from_relation(rel))
            } else {
                let e = syntax_error(end);
                proof {
                    let m = e->Parser_0;
                    assert(m@ == syntax_message(end as nat));
                }
                Err(e)
            }
        },
        Err(p) => {
            let e = syntax_error(p);
            proof {
                let m = e->Parser_0;
                assert(m@ == syntax_message(p as nat));
            }
            Err(e)
        },
    }
}

impl std::str::FromStr for Expression {
    type Err = Error;

    fn from_str(s: &str) -> (r: Result<Expression, Error>)
        ensures
            match r {
                Ok(e) => spec_query(s@) == Some(e@) && fields_nonempty(e@),
                Err(e) => spec_query(s@) is None && describes_failure(e, s@.len()),
            },
    {
        parse(s)
    }
}

/// Parsing is a function of the query text: the same text always gives
/// the same tree.
pub proof fn lemma_parse_deterministic(q1: Seq<char>, q2: Seq<char>, e1: Expression, e2: Expression)
    requires
        q1 == q2,
        spec_query(q1) == Some(e1@),
        spec_query(q2) == Some(e2@),
    ensures
        e1@ == e2@,
{
}

/// Every tree that parsing yields names only non-empty fields, and compiles
/// without error once each of its fields is declared as text or blob;
/// evaluation takes any tree.
pub proof fn lemma_parsed_query_interprets(
    q: Seq<char>,
    renames: table::FieldMap<String>,
    types: table::FieldMap<interpreter::sqlite::SqliteType>,
)
    requires
        spec_query(q) is Some,
        interpreter::sqlite::declared_lenient(spec_query(q).unwrap(), types),
    ensures
        fields_nonempty(spec_query(q).unwrap()),
        interpreter::sqlite::compile_spec(spec_query(q).unwrap(), renames, types) is Ok,
{
    lemma_relation_fields(q, 0);
    interpreter::sqlite::lemma_compile_total(spec_query(q).unwrap(), renames, types);
}

} // verus!
