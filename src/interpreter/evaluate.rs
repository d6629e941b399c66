//! Direct evaluation of a query against a record of field values.
use vstd::prelude::*;

use crate::ast::{views, Ast, Expression, Node};
use crate::table::FieldMap;
use crate::text::{eq_ascii_ci, lex_less, same_text, same_text_ascii_ci, text_less};

verus! {

/// What the case folding of `str::to_lowercase` makes of a string.
pub uninterp spec fn lower_of(s: Seq<char>) -> Seq<char>;

/// Whether a shell-style pattern matches the whole of a string: `*` matches
/// any run of characters, the empty one included; `?` matches exactly one
/// character; every other character matches itself. There are no escapes.
pub open spec fn glob_matches(pattern: Seq<char>, value: Seq<char>) -> bool
    decreases pattern.len() + value.len(),
{
    if pattern.len() == 0 {
        value.len() == 0
    } else if pattern[0] == '*' {
        glob_matches(pattern.drop_first(), value) || (value.len() > 0 && glob_matches(pattern, value.drop_first()))
    } else {
        value.len() > 0 && (pattern[0] == '?' || pattern[0] == value[0]) && glob_matches(pattern.drop_first(), value.drop_first())
    }
}

/// Whether the regex crate accepts a pattern.
pub uninterp spec fn regex_compiles(pattern: Seq<char>) -> bool;

/// Whether a compiled pattern finds a match anywhere in a string.
pub uninterp spec fn regex_finds(pattern: Seq<char>, haystack: Seq<char>) -> bool;

/// Relies on `str::to_lowercase`: the lowercase form depends on the
/// characters alone.
#[verifier::external_body]
fn lowercase(s: &str) -> (r: String)
    ensures
        r@ == lower_of(s@),
{
    s.to_lowercase()
}

/// Relies on `wildmatch::WildMatch::new` and `WildMatch::matches`: a
/// case-sensitive pattern built from `pattern`, matched against the whole of
/// `value` with the meaning the crate documents for `*` and `?`.
#[verifier::external_body]
fn wildcard_matches(pattern: &str, value: &str) -> (r: bool)
    ensures
        r == glob_matches(pattern@, value@),
{
    wildmatch::WildMatch::new(pattern).matches(value)
}

/// Relies on `regex::Regex::new` (fails on a malformed pattern) and
/// `Regex::is_match` (a match anywhere in the haystack).
#[verifier::external_body]
fn regex_search(pattern: &str, haystack: &str) -> (r: Option<bool>)
    ensures
        r is Some <==> regex_compiles(pattern@),
        r matches Some(b) ==> b == regex_finds(pattern@, haystack@),
{
    match regex::Regex::new(pattern) {
        Ok(re) => Some(re.is_match(haystack)),
        Err(_) => None,
    }
}

/// The comparisons a field is tested with, one per kind of leaf. Each method
/// is tied to a specification that an implementation proves it meets.
pub trait Comparator {
    spec fn spec_equal(&self, value: Seq<char>, target: Seq<char>) -> bool;

    spec fn spec_equal_ci(&self, value: Seq<char>, target: Seq<char>) -> bool;

    spec fn spec_greater(&self, value: Seq<char>, target: Seq<char>) -> bool;

    spec fn spec_less(&self, value: Seq<char>, target: Seq<char>) -> bool;

    spec fn spec_wildcard(&self, value: Seq<char>, target: Seq<char>) -> bool;

    spec fn spec_regex(&self, value: Seq<char>, target: Seq<char>) -> bool;

    spec fn spec_in(&self, value: Seq<char>, targets: Seq<Seq<char>>) -> bool;

    spec fn spec_none(&self, value: Seq<char>) -> bool;

    fn is_equal(&self, value: &str, target: &str) -> (r: bool)
        ensures
            r == self.spec_equal(value@, target@),
    ;

    fn is_equal_ci(&self, value: &str, target: &str) -> (r: bool)
        ensures
            r == self.spec_equal_ci(value@, target@),
    ;

    fn is_greater_than(&self, value: &str, target: &str) -> (r: bool)
        ensures
            r == self.spec_greater(value@, target@),
    ;

    fn is_less_than(&self, value: &str, target: &str) -> (r: bool)
        ensures
            r == self.spec_less(value@, target@),
    ;

    fn is_match_wildcard(&self, value: &str, target: &str) -> (r: bool)
        ensures
            r == self.spec_wildcard(value@, target@),
    ;

    fn is_match_regex(&self, value: &str, target: &str) -> (r: bool)
        ensures
            r == self.spec_regex(value@, target@),
    ;

    fn is_in(&self, value: &str, targets: &Vec<String>) -> (r: bool)
        ensures
            r == self.spec_in(value@, views(targets@)),
    ;

    fn is_none(&self, value: &str) -> (r: bool)
        ensures
            r == self.spec_none(value@),
    ;
}

/// The standard comparisons: exact equality, equality after lowercasing,
/// code-point lexicographic order, shell-style wildcards, regular
/// expressions (a malformed pattern matches nothing), list membership, and
/// "none" / "null" in any ASCII case as the empty value.
#[derive(Debug, Clone, Copy)]
pub struct EvaluateRule;

/// `value` is the text "none" or "null", in any ASCII case.
pub open spec fn is_none_text(value: Seq<char>) -> bool {
    eq_ascii_ci(value, seq!['n', 'o', 'n', 'e']) || eq_ascii_ci(value, seq!['n', 'u', 'l', 'l'])
}

impl Default for EvaluateRule {
    fn default() -> (r: Self)
        ensures
            r == EvaluateRule,
    {
        EvaluateRule
    }
}

impl Comparator for EvaluateRule {
    open spec fn spec_equal(&self, value: Seq<char>, target: Seq<char>) -> bool {
        value == target
    }

    open spec fn spec_equal_ci(&self, value: Seq<char>, target: Seq<char>) -> bool {
        lower_of(value) == lower_of(target)
    }

    open spec fn spec_greater(&self, value: Seq<char>, target: Seq<char>) -> bool {
        lex_less(target, value)
    }

    open spec fn spec_less(&self, value: Seq<char>, target: Seq<char>) -> bool {
        lex_less(value, target)
    }

    open spec fn spec_wildcard(&self, value: Seq<char>, target: Seq<char>) -> bool {
        glob_matches(target, value)
    }

    open spec fn spec_regex(&self, value: Seq<char>, target: Seq<char>) -> bool {
        regex_compiles(target) && regex_finds(target, value)
    }

    open spec fn spec_in(&self, value: Seq<char>, targets: Seq<Seq<char>>) -> bool {
        targets.contains(value)
    }

    open spec fn spec_none(&self, value: Seq<char>) -> bool {
        is_none_text(value)
    }

    fn is_equal(&self, value: &str, target: &str) -> (r: bool) {
        same_text(value, target)
    }

    fn is_equal_ci(&self, value: &str, target: &str) -> (r: bool) {
        let v = lowercase(value);
        let t = lowercase(target);
        v == t
    }

    fn is_greater_than(&self, value: &str, target: &str) -> (r: bool) {
        text_less(target, value)
    }

    fn is_less_than(&self, value: &str, target: &str) -> (r: bool) {
        text_less(value, target)
    }

    fn is_match_wildcard(&self, value: &str, target: &str) -> (r: bool) {
        wildcard_matches(target, value)
    }

    fn is_match_regex(&self, value: &str, target: &str) -> (r: bool) {
        match regex_search(target, value) {
            Some(found) => found,
            None => false,
        }
    }

    fn is_in(&self, value: &str, targets: &Vec<String>) -> (r: bool) {
        let mut i: usize = 0;
        while i < targets.len()
            invariant
                i <= targets.len(),
                forall|j: int| 0 <= j < i ==> targets@[j]@ != value@,
            decreases targets.len() - i,
        {
            if same_text(targets[i].as_str(), value) {
                proof {
                    assert(views(targets@)[i as int] == value@);
                }
                return true;
            }
            i = i + 1;
        }
        proof {
            if views(targets@).contains(value@) {
                let k = choose|k: int| 0 <= k < views(targets@).len() && views(targets@)[k] == value@;
                assert(targets@[k]@ == value@);
            }
        }
        false
    }

    fn is_none(&self, value: &str) -> (r: bool) {
        let none = "none";
        let null = "null";
        proof {
            reveal_strlit("none");
            reveal_strlit("null");
            assert(none@ =~= seq!['n', 'o', 'n', 'e']);
            assert(null@ =~= seq!['n', 'u', 'l', 'l']);
        }
        same_text_ascii_ci(value, none) || same_text_ascii_ci(value, null)
    }
}

/// The field a leaf tests; composite nodes have none.
pub open spec fn field_of(a: Ast) -> Seq<char> {
    match a {
        Ast::Equal(k, _) => k,
        Ast::EqualCI(k, _) => k,
        Ast::Greater(k, _) => k,
        Ast::Less(k, _) => k,
        Ast::Wildcard(k, _) => k,
        Ast::Regex(k, _) => k,
        Ast::Any(k, _) => k,
        Ast::Null(k) => k,
        _ => Seq::empty(),
    }
}

/// What a leaf comes to when its field's rule is `rule` and its value `value`.
pub open spec fn leaf_holds<R: Comparator>(rule: R, a: Ast, value: Seq<char>) -> bool {
    match a {
        Ast::Equal(_, t) => rule.spec_equal(value, t),
        Ast::EqualCI(_, t) => rule.spec_equal_ci(value, t),
        Ast::Greater(_, t) => rule.spec_greater(value, t),
        Ast::Less(_, t) => rule.spec_less(value, t),
        Ast::Wildcard(_, t) => rule.spec_wildcard(value, t),
        Ast::Regex(_, t) => rule.spec_regex(value, t),
        Ast::Any(_, ts) => rule.spec_in(value, ts),
        Ast::Null(_) => rule.spec_none(value),
        _ => false,
    }
}

/// The truth of a query: composites combine their operands, and a leaf whose
/// field has no rule or no value is false.
pub open spec fn eval<R: Comparator>(a: Ast, rules: FieldMap<R>, pairs: FieldMap<String>) -> bool
    decreases a,
{
    match a {
        Ast::And(l, r) => eval(*l, rules, pairs) && eval(*r, rules, pairs),
        Ast::Or(l, r) => eval(*l, rules, pairs) || eval(*r, rules, pairs),
        Ast::Not(x) => !eval(*x, rules, pairs),
        _ => match (rules.spec_get(field_of(a)), pairs.spec_get(field_of(a))) {
            (Some(rule), Some(value)) => leaf_holds(rule, a, value@),
            _ => false,
        },
    }
}

fn leaf<R: Comparator>(expression: &Expression, key: &String, rules: &FieldMap<R>, pairs: &FieldMap<String>) -> (r: bool)
    requires
        !(expression@ is And || expression@ is Or || expression@ is Not),
        key@ == field_of(expression@),
    ensures
        r == eval(expression@, *rules, *pairs),
{
    let rule = match rules.get(key) {
        Some(rule) => rule,
        None => return false,
    };
    let value = match pairs.get(key) {
        Some(value) => value.as_str(),
        None => return false,
    };
    match &expression.node {
        Node::Equal(_, target) => rule.is_equal(value, target.as_str()),
        Node::EqualCI(_, target) => rule.is_equal_ci(value, target.as_str()),
        Node::Greater(_, target) => rule.is_greater_than(value, target.as_str()),
        Node::Less(_, target) => rule.is_less_than(value, target.as_str()),
        Node::Wildcard(_, target) => rule.is_match_wildcard(value, target.as_str()),
        Node::Regex(_, target) => rule.is_match_regex(value, target.as_str()),
        Node::Any(_, targets) => rule.is_in(value, targets),
        Node::Null(_) => rule.is_none(value),
        _ => false,
    }
}

/// Evaluates a query against a record, testing each field with the rule the
/// rule table gives it. A leaf whose field has no rule or no value is false.
pub fn interpret_expression<R: Comparator>(expression: &Expression, rules: &FieldMap<R>, pairs: &FieldMap<String>) -> (r: bool)
    ensures
        r == eval(expression@, *rules, *pairs),
    decreases expression,
{
    match &expression.node {
        Node::And(left, right) => {
            let l = interpret_expression(left, rules, pairs);
            let r = interpret_expression(right, rules, pairs);
            l && r
        },
        Node::Or(left, right) => {
            let l = interpret_expression(left, rules, pairs);
            let r = interpret_expression(right, rules, pairs);
            l || r
        },
        Node::Not(inner) => !interpret_expression(inner, rules, pairs),
        Node::Equal(key, _) => leaf(expression, key, rules, pairs),
        Node::EqualCI(key, _) => leaf(expression, key, rules, pairs),
        Node::Greater(key, _) => leaf(expression, key, rules, pairs),
        Node::Less(key, _) => leaf(expression, key, rules, pairs),
        Node::Wildcard(key, _) => leaf(expression, key, rules, pairs),
        Node::Regex(key, _) => leaf(expression, key, rules, pairs),
        Node::Any(key, _) => leaf(expression, key, rules, pairs),
        Node::Null(key) => leaf(expression, key, rules, pairs),
    }
}

/// Evaluates a query against a record; see [`interpret_expression`].
pub fn interpret<R: Comparator>(expression: &Expression, rules: &FieldMap<R>, pairs: &FieldMap<String>) -> (r: bool)
    ensures
        r == eval(expression@, *rules, *pairs),
{
    interpret_expression(expression, rules, pairs)
}

/// A leaf whose field has no rule, or no value in the record, is false;
/// evaluation has no other outcome than a boolean.
pub proof fn lemma_missing_field_is_false<R: Comparator>(a: Ast, rules: FieldMap<R>, pairs: FieldMap<String>)
    requires
        !(a is And || a is Or || a is Not),
        rules.spec_get(field_of(a)) is None || pairs.spec_get(field_of(a)) is None,
    ensures
        !eval(a, rules, pairs),
{
}

} // verus!
