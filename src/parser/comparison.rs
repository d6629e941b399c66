//! Leaf comparisons: a field name, an operator, and the operand it takes.
use vstd::prelude::*;

use crate::ast::{views, Ast};
use crate::parser::atom::{array_at, skip_spaces, skip_ws, spec_array, spec_text, text_at};

verus! {

/// A character that may appear in a field name.
pub open spec fn is_key_char(c: char) -> bool {
    ('a' <= c && c <= 'z') || ('A' <= c && c <= 'Z') || ('0' <= c && c <= '9') || c == '_'
}

/// The end of the run of field-name characters that starts at `i`.
pub open spec fn key_end(s: Seq<char>, i: int) -> int
    decreases s.len() - i,
{
    if 0 <= i < s.len() && is_key_char(s[i]) {
        key_end(s, i + 1)
    } else {
        i
    }
}

/// The leaf that the operator `op` makes of a field and a text operand.
pub open spec fn compare_leaf(op: char, key: Seq<char>, t: Seq<char>) -> Option<Ast> {
    if op == '=' {
        Some(Ast::Equal(key, t))
    } else if op == '~' {
        Some(Ast::EqualCI(key, t))
    } else if op == '>' {
        Some(Ast::Greater(key, t))
    } else if op == '<' {
        Some(Ast::Less(key, t))
    } else if op == '*' {
        Some(Ast::Wildcard(key, t))
    } else if op == '$' {
        Some(Ast::Regex(key, t))
    } else {
        None
    }
}

/// An operator that takes a text operand.
pub open spec fn is_compare_op(op: char) -> bool {
    op == '=' || op == '~' || op == '>' || op == '<' || op == '*' || op == '$'
}

/// The field a comparison starting at `i` names, and the position after
/// it: a non-empty text literal, or a bare run of letters, digits and `_`.
pub open spec fn spec_field(s: Seq<char>, i: int) -> Option<(Seq<char>, int)> {
    if 0 <= i < s.len() && s[i] == '"' {
        match spec_text(s, i) {
            Some((k, e)) => if k.len() > 0 {
                Some((k, e))
            } else {
                None
            },
            None => None,
        }
    } else {
        let ke = key_end(s, i);
        if ke <= i {
            None
        } else {
            Some((s.subrange(i, ke), ke))
        }
    }
}

/// A comparison starting at `i`: a field, then `-`, or `?` and an array, or
/// a comparison operator and a text; spaces and tabs may stand between the
/// parts.
pub open spec fn spec_comparison(s: Seq<char>, i: int) -> Option<(Ast, int)> {
    match spec_field(s, i) {
        None => None,
        Some((key, ke)) => {
        let j = skip_ws(s, ke);
        if !(0 <= j < s.len()) {
            None
        } else if s[j] == '-' {
            Some((Ast::Null(key), j + 1))
        } else if s[j] == '?' {
            match spec_array(s, skip_ws(s, j + 1)) {
                Some((ts, e)) => Some((Ast::Any(key, ts), e)),
                None => None,
            }
        } else if is_compare_op(s[j]) {
            match spec_text(s, skip_ws(s, j + 1)) {
                Some((t, e)) => Some((compare_leaf(s[j], key, t).unwrap(), e)),
                None => None,
            }
        } else {
            None
        }
        },
    }
}

/// A leaf comparison as parsed.
#[derive(Debug)]
pub enum Comparison {
    IsEqual(String, String),
    IsEqualCI(String, String),
    IsGreater(String, String),
    IsLess(String, String),
    IsWildcard(String, String),
    IsRegex(String, String),
    IsAny(String, Vec<String>),
    IsNull(String),
}

/// The leaf a comparison stands for.
pub open spec fn comparison_ast(c: Comparison) -> Ast {
    match c {
        Comparison::IsEqual(k, t) => Ast::Equal(k@, t@),
        Comparison::IsEqualCI(k, t) => Ast::EqualCI(k@, t@),
        Comparison::IsGreater(k, t) => Ast::Greater(k@, t@),
        Comparison::IsLess(k, t) => Ast::Less(k@, t@),
        Comparison::IsWildcard(k, t) => Ast::Wildcard(k@, t@),
        Comparison::IsRegex(k, t) => Ast::Regex(k@, t@),
        Comparison::IsAny(k, ts) => Ast::Any(k@, views(ts@)),
        Comparison::IsNull(k) => Ast::Null(k@),
    }
}

fn key_char(c: char) -> (r: bool)
    ensures
        r == is_key_char(c),
{
    ('a' <= c && c <= 'z') || ('A' <= c && c <= 'Z') || ('0' <= c && c <= '9') || c == '_'
}

/// Reads a field at `pos` of `s`, whose characters are `c`. On failure,
/// the position where it went wrong.
fn field_at(s: &str, c: &Vec<char>, pos: usize) -> (r: Result<(String, usize), usize>)
    requires
        c@ == s@,
        pos <= c.len(),
    ensures
        match r {
            Ok((k, e)) => spec_field(c@, pos as int) == Some((k@, e as int)) && pos < e <= c.len(),
            Err(p) => spec_field(c@, pos as int) is None && p <= c.len(),
        },
{
    if pos < c.len() && c[pos] == '"' {
        let (t, e) = text_at(s, c, pos)?;
        if t.0.unicode_len() == 0 {
            return Err(pos);
        }
        return Ok((t.0, e));
    }
    let mut ke = pos;
    while ke < c.len() && key_char(c[ke])
        invariant
            pos <= ke <= c.len(),
            key_end(c@, pos as int) == key_end(c@, ke as int),
        decreases c.len() - ke,
    {
        ke = ke + 1;
    }
    if ke == pos {
        return Err(pos);
    }
    Ok((String::from_str(s.substring_char(pos, ke)), ke))
}

/// Reads a comparison at `pos` of `s`, whose characters are `c`. On
/// failure, the position where it went wrong.
pub fn comparison_at(s: &str, c: &Vec<char>, pos: usize) -> (r: Result<(Comparison, usize), usize>)
    requires
        c@ == s@,
        pos <= c.len(),
    ensures
        match r {
            Ok((x, e)) => spec_comparison(c@, pos as int) == Some((comparison_ast(x), e as int)) && pos < e <= c.len(),
            Err(p) => spec_comparison(c@, pos as int) is None && p <= c.len(),
        },
{
    let (key, ke) = field_at(s, c, pos)?;
    let j = skip_spaces(c, ke);
    if j >= c.len() {
        return Err(j);
    }
    let op = c[j];
    if op == '-' {
        return Ok((Comparison::IsNull(key), j + 1));
    }
    let k = skip_spaces(c, j + 1);
    if op == '?' {
        let (a, e) = array_at(s, c, k)?;
        return Ok((Comparison::IsAny(key, a.0), e));
    }
    let (t, e) = text_at(s, c, k)?;
    let x = if op == '=' {
        Comparison::IsEqual(key, t.0)
    } else if op == '~' {
        Comparison::IsEqualCI(key, t.0)
    } else if op == '>' {
        Comparison::IsGreater(key, t.0)
    } else if op == '<' {
        Comparison::IsLess(key, t.0)
    } else if op == '*' {
        Comparison::IsWildcard(key, t.0)
    } else if op == '$' {
        Comparison::IsRegex(key, t.0)
    } else {
        return Err(j);
    };
    Ok((x, e))
}

proof fn lemma_key_end_bounds(s: Seq<char>, i: int)
    requires
        0 <= i <= s.len(),
    ensures
        i <= key_end(s, i) <= s.len(),
    decreases s.len() - i,
{
    if i < s.len() && is_key_char(s[i]) {
        lemma_key_end_bounds(s, i + 1);
    }
}

/// A parsed comparison names a non-empty field.
pub proof fn lemma_comparison_field(s: Seq<char>, i: int)
    requires
        spec_comparison(s, i) is Some,
    ensures
        crate::ast::fields_nonempty(spec_comparison(s, i).unwrap().0),
{
    if 0 <= i <= s.len() && !(i < s.len() && s[i] == '"') {
        lemma_key_end_bounds(s, i);
    }
}

} // verus!
