//! Relations: a comparison in parentheses, or a parenthesised conjunction,
//! disjunction or negation whose operands are relations or bare comparisons.
use vstd::prelude::*;

use crate::ast::Ast;
use crate::parser::atom::{skip_spaces, skip_ws};
use crate::ast::fields_nonempty;
use crate::parser::comparison::{lemma_comparison_field, comparison_ast, comparison_at, spec_comparison, Comparison};
use crate::text::chars_of;

verus! {

/// An operand at `i`: a relation where a `(` opens it, else a comparison.
pub open spec fn spec_operand(s: Seq<char>, i: int) -> Option<(Ast, int)>
    decreases s.len() - i, 1int,
{
    if 0 <= i < s.len() && s[i] == '(' {
        spec_relation(s, i)
    } else {
        spec_comparison(s, i)
    }
}

/// The composite `op` makes of two operands.
pub open spec fn combine(op: char, l: Ast, r: Ast) -> Ast {
    if op == '&' {
        Ast::And(Box::new(l), Box::new(r))
    } else {
        Ast::Or(Box::new(l), Box::new(r))
    }
}

/// A relation starting at `i`, and the position after its closing
/// parenthesis. Inside the parentheses stand, with optional spaces and tabs
/// between the parts: a comparison; or `!` and an operand; or an operand,
/// `&` or `|`, and an operand.
pub open spec fn spec_relation(s: Seq<char>, i: int) -> Option<(Ast, int)>
    decreases s.len() - i, 0int,
{
    if !(0 <= i < s.len() && s[i] == '(') {
        None
    } else {
        let j = skip_ws(s, i + 1);
        if !(i < j <= s.len()) {
            None
        } else if j < s.len() && s[j] == '!' {
            let k = skip_ws(s, j + 1);
            if !(j < k <= s.len()) {
                None
            } else {
                match spec_operand(s, k) {
                    Some((x, e)) => {
                        let f = skip_ws(s, e);
                        if 0 <= f < s.len() && s[f] == ')' {
                            Some((Ast::Not(Box::new(x)), f + 1))
                        } else {
                            None
                        }
                    },
                    None => None,
                }
            }
        } else {
            match spec_operand(s, j) {
                Some((l, e)) => {
                    let f = skip_ws(s, e);
                    if !(0 <= f < s.len()) {
                        None
                    } else if s[f] == ')' && s[j] != '(' {
                        Some((l, f + 1))
                    } else if s[f] == '&' || s[f] == '|' {
                        let g = skip_ws(s, f + 1);
                        if !(i < g <= s.len()) {
                            None
                        } else {
                            match spec_operand(s, g) {
                                Some((r, e2)) => {
                                    let h = skip_ws(s, e2);
                                    if 0 <= h < s.len() && s[h] == ')' {
                                        Some((combine(s[f], l, r), h + 1))
                                    } else {
                                        None
                                    }
                                },
                                None => None,
                            }
                        }
                    } else {
                        None
                    }
                },
                None => None,
            }
        }
    }
}

/// A relation as parsed, recording which operands were relations and which
/// bare comparisons.
#[derive(Debug)]
#[allow(inconsistent_fields)]
pub enum Relation {
    C(Comparison),
    Rar { left: Box<Relation>, right: Box<Relation> },
    Rac { left: Box<Relation>, right: Comparison },
    Car { left: Comparison, right: Box<Relation> },
    Cac { left: Comparison, right: Comparison },
    Ror { left: Box<Relation>, right: Box<Relation> },
    Roc { left: Box<Relation>, right: Comparison },
    Cor { left: Comparison, right: Box<Relation> },
    Coc { left: Comparison, right: Comparison },
    NR(Box<Relation>),
    NC(Comparison),
}

/// The canonical tree a parsed relation stands for.
pub open spec fn relation_ast(r: Relation) -> Ast
    decreases r,
{
    match r {
        Relation::C(c) => comparison_ast(c),
        Relation::Rar { left, right } => Ast::And(Box::new(relation_ast(*left)), Box::new(relation_ast(*right))),
        Relation::Rac { left, right } => Ast::And(Box::new(relation_ast(*left)), Box::new(comparison_ast(right))),
        Relation::Car { left, right } => Ast::And(Box::new(comparison_ast(left)), Box::new(relation_ast(*right))),
        Relation::Cac { left, right } => Ast::And(Box::new(comparison_ast(left)), Box::new(comparison_ast(right))),
        Relation::Ror { left, right } => Ast::Or(Box::new(relation_ast(*left)), Box::new(relation_ast(*right))),
        Relation::Roc { left, right } => Ast::Or(Box::new(relation_ast(*left)), Box::new(comparison_ast(right))),
        Relation::Cor { left, right } => Ast::Or(Box::new(comparison_ast(left)), Box::new(relation_ast(*right))),
        Relation::Coc { left, right } => Ast::Or(Box::new(comparison_ast(left)), Box::new(comparison_ast(right))),
        Relation::NR(x) => Ast::Not(Box::new(relation_ast(*x))),
        Relation::NC(c) => Ast::Not(Box::new(comparison_ast(c))),
    }
}

/// An operand as parsed.
pub enum Operand {
    R(Box<Relation>),
    C(Comparison),
}

pub open spec fn operand_ast(o: Operand) -> Ast {
    match o {
        Operand::R(r) => relation_ast(*r),
        Operand::C(c) => comparison_ast(c),
    }
}

fn operand_at(s: &str, c: &Vec<char>, pos: usize) -> (r: Result<(Operand, usize), usize>)
    requires
        c@ == s@,
        pos <= c.len(),
    ensures
        match r {
            Ok((x, e)) => spec_operand(c@, pos as int) == Some((operand_ast(x), e as int)) && pos < e <= c.len()
                && (x is C <==> !(pos < c.len() && c@[pos as int] == '(')),
            Err(p) => spec_operand(c@, pos as int) is None && p <= c.len(),
        },
    decreases c.len() - pos, 1int,
{
    if pos < c.len() && c[pos] == '(' {
        let (x, e) = relation_at(s, c, pos)?;
        Ok((Operand::R(x), e))
    } else {
        let (x, e) = comparison_at(s, c, pos)?;
        Ok((Operand::C(x), e))
    }
}

fn binary(op: char, l: Operand, r: Operand) -> (x: Relation)
    ensures
        relation_ast(x) == combine(op, operand_ast(l), operand_ast(r)),
{
    if op == '&' {
        match (l, r) {
            (Operand::R(left), Operand::R(right)) => Relation::Rar { left, right },
            (Operand::R(left), Operand::C(right)) => Relation::Rac { left, right },
            (Operand::C(left), Operand::R(right)) => Relation::Car { left, right },
            (Operand::C(left), Operand::C(right)) => Relation::Cac { left, right },
        }
    } else {
        match (l, r) {
            (Operand::R(left), Operand::R(right)) => Relation::Ror { left, right },
            (Operand::R(left), Operand::C(right)) => Relation::Roc { left, right },
            (Operand::C(left), Operand::R(right)) => Relation::Cor { left, right },
            (Operand::C(left), Operand::C(right)) => Relation::Coc { left, right },
        }
    }
}

/// Reads a relation at `pos` of `s`, whose characters are `c`. On failure,
/// the position where it went wrong.
pub fn relation_at(s: &str, c: &Vec<char>, pos: usize) -> (r: Result<(Box<Relation>, usize), usize>)
    requires
        c@ == s@,
        pos <= c.len(),
    ensures
        match r {
            Ok((x, e)) => spec_relation(c@, pos as int) == Some((relation_ast(*x), e as int)) && pos < e <= c.len(),
            Err(p) => spec_relation(c@, pos as int) is None && p <= c.len(),
        },
    decreases c.len() - pos, 0int,
{
    if pos >= c.len() || c[pos] != '(' {
        return Err(pos);
    }
    let j = skip_spaces(c, pos + 1);
    if j < c.len() && c[j] == '!' {
        let k = skip_spaces(c, j + 1);
        let (x, e) = operand_at(s, c, k)?;
        let f = skip_spaces(c, e);
        if f < c.len() && c[f] == ')' {
            let rel = match x {
                Operand::R(inner) => Relation::NR(inner),
                Operand::C(inner) => Relation::NC(inner),
            };
            return Ok((Box::new(rel), f + 1));
        }
        return Err(f);
    }
    let (l, e) = operand_at(s, c, j)?;
    let f = skip_spaces(c, e);
    if f >= c.len() {
        return Err(f);
    }
    if c[f] == ')' {
        return match l {
            Operand::C(x) => Ok((Box::new(Relation::C(x)), f + 1)),
            Operand::R(_) => Err(f),
        };
    }
    if c[f] != '&' && c[f] != '|' {
        return Err(f);
    }
    let g = skip_spaces(c, f + 1);
    let (r, e2) = operand_at(s, c, g)?;
    let h = skip_spaces(c, e2);
    if h < c.len() && c[h] == ')' {
        return Ok((Box::new(binary(c[f], l, r)), h + 1));
    }
    Err(h)
}

/// Reads a relation at the start of `input`: the rest of the input and the
/// relation, or the position where it went wrong.
pub fn relation<'a>(input: &'a str) -> (r: Result<(&'a str, Box<Relation>), usize>)
    ensures
        match r {
            Ok((rest, x)) => spec_relation(input@, 0) == Some((relation_ast(*x), input@.len() - rest@.len()))
                && rest@ == input@.subrange(input@.len() - rest@.len(), input@.len() as int),
            Err(p) => spec_relation(input@, 0) is None && p <= input@.len(),
        },
{
    let c = chars_of(input);
    let (x, e) = relation_at(input, &c, 0)?;
    Ok((input.substring_char(e, c.len()), x))
}

/// A parsed operand names only non-empty fields.
pub proof fn lemma_operand_fields(s: Seq<char>, i: int)
    requires
        spec_operand(s, i) is Some,
    ensures
        fields_nonempty(spec_operand(s, i).unwrap().0),
    decreases s.len() - i, 1int,
{
    if 0 <= i < s.len() && s[i] == '(' {
        lemma_relation_fields(s, i);
    } else {
        lemma_comparison_field(s, i);
    }
}

/// A parsed relation names only non-empty fields.
pub proof fn lemma_relation_fields(s: Seq<char>, i: int)
    requires
        spec_relation(s, i) is Some,
    ensures
        fields_nonempty(spec_relation(s, i).unwrap().0),
    decreases s.len() - i, 0int,
{
    let j = skip_ws(s, i + 1);
    if j < s.len() && s[j] == '!' {
        let k = skip_ws(s, j + 1);
        lemma_operand_fields(s, k);
    } else {
        lemma_operand_fields(s, j);
        let (l, e) = spec_operand(s, j).unwrap();
        let f = skip_ws(s, e);
        if s[f] == '&' || s[f] == '|' {
            let g = skip_ws(s, f + 1);
            if spec_operand(s, g) is Some {
                lemma_operand_fields(s, g);
            }
        }
    }
}

} // verus!
