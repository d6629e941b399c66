//! Compilation of a query into an SQL condition with positional `?`
//! placeholders and the values to bind to them.
use vstd::prelude::*;
use vstd::utf8::encode_utf8;

use crate::ast::{Ast, Expression, Node};
use crate::interpreter::evaluate::{eval, field_of, glob_matches, EvaluateRule};
use crate::literal::{bool_literal, float_literal, int_in_range, is_float_literal, parse_bool, parse_int};
use crate::table::FieldMap;

verus! {

/// An instant as seconds since the Unix epoch and nanoseconds past that
/// second.
#[derive(Clone, Copy, Debug, PartialEq, Eq)]
pub struct Timestamp {
    pub seconds: i64,
    pub nanos: u32,
}

/// The instant an RFC 3339 timestamp denotes, as chrono reads it, if it
/// reads one.
pub uninterp spec fn timestamp_of(s: Seq<char>) -> Option<Timestamp>;

/// Relies on chrono's `FromStr` for `DateTime<Utc>` (RFC 3339, with `T` or a
/// space between date and time); the instant is read back with `timestamp`
/// and `timestamp_subsec_nanos`.
#[verifier::external_body]
fn parse_timestamp(s: &str) -> (r: Option<Timestamp>)
    ensures
        r == timestamp_of(s@),
{
    match s.parse::<chrono::DateTime<chrono::Utc>>() {
        Ok(dt) => Some(Timestamp { seconds: dt.timestamp(), nanos: dt.timestamp_subsec_nanos() }),
        Err(_) => None,
    }
}

/// Why a query could not be compiled. Each carries the offending literal, or
/// the field that has no declared type.
#[derive(Debug, Clone, PartialEq, Eq)]
pub enum Error {
    ParseInt(String),
    ParseFloat(String),
    ParseBool(String),
    ParseChrono(String),
    UnknownKey(String),
}

/// The model of an [`Error`].
pub enum Fault {
    ParseInt(Seq<char>),
    ParseFloat(Seq<char>),
    ParseBool(Seq<char>),
    ParseChrono(Seq<char>),
    UnknownKey(Seq<char>),
}

impl View for Error {
    type V = Fault;

    open spec fn view(&self) -> Fault {
        match self {
            Error::ParseInt(s) => Fault::ParseInt(s@),
            Error::ParseFloat(s) => Fault::ParseFloat(s@),
            Error::ParseBool(s) => Fault::ParseBool(s@),
            Error::ParseChrono(s) => Fault::ParseChrono(s@),
            Error::UnknownKey(s) => Fault::UnknownKey(s@),
        }
    }
}

/// A column type, with or without a value. In a type table it declares how
/// operands are read; in a bind list it carries the value read. A real is
/// kept as the literal that spells it.
#[derive(Clone, Debug, PartialEq)]
pub enum SqliteType {
    BigInt(Option<i64>),
    Blob(Option<Vec<u8>>),
    Boolean(Option<bool>),
    DateTime(Option<Timestamp>),
    Integer(Option<i32>),
    Real(Option<String>),
    Text(Option<String>),
}

/// The model of a [`SqliteType`].
pub enum Bound {
    BigInt(Option<i64>),
    Blob(Option<Seq<u8>>),
    Boolean(Option<bool>),
    DateTime(Option<Timestamp>),
    Integer(Option<i32>),
    Real(Option<Seq<char>>),
    Text(Option<Seq<char>>),
}

impl View for SqliteType {
    type V = Bound;

    open spec fn view(&self) -> Bound {
        match self {
            SqliteType::BigInt(v) => Bound::BigInt(*v),
            SqliteType::Blob(v) => Bound::Blob(
                match v {
                    Some(b) => Some(b@),
                    None => None,
                },
            ),
            SqliteType::Boolean(v) => Bound::Boolean(*v),
            SqliteType::DateTime(v) => Bound::DateTime(*v),
            SqliteType::Integer(v) => Bound::Integer(*v),
            SqliteType::Real(v) => Bound::Real(
                match v {
                    Some(s) => Some(s@),
                    None => None,
                },
            ),
            SqliteType::Text(v) => Bound::Text(
                match v {
                    Some(s) => Some(s@),
                    None => None,
                },
            ),
        }
    }
}

/// The models of a list of values.
pub open spec fn bound_views(v: Seq<SqliteType>) -> Seq<Bound> {
    v.map_values(|x: SqliteType| x@)
}

/// The value of type `shape` that the literal `lit` spells, or why it spells
/// none.
pub open spec fn bind_of(shape: SqliteType, lit: Seq<char>) -> Result<Bound, Fault> {
    match shape {
        SqliteType::BigInt(_) => match int_in_range(lit, i64::MIN as int, i64::MAX as int) {
            Some(v) => Ok(Bound::BigInt(Some(v as i64))),
            None => Err(Fault::ParseInt(lit)),
        },
        SqliteType::Blob(_) => Ok(Bound::Blob(Some(encode_utf8(lit)))),
        SqliteType::Boolean(_) => match bool_literal(lit) {
            Some(b) => Ok(Bound::Boolean(Some(b))),
            None => Err(Fault::ParseBool(lit)),
        },
        SqliteType::DateTime(_) => match timestamp_of(lit) {
            Some(t) => Ok(Bound::DateTime(Some(t))),
            None => Err(Fault::ParseChrono(lit)),
        },
        SqliteType::Integer(_) => match int_in_range(lit, i32::MIN as int, i32::MAX as int) {
            Some(v) => Ok(Bound::Integer(Some(v as i32))),
            None => Err(Fault::ParseInt(lit)),
        },
        SqliteType::Real(_) => if float_literal(lit) {
            Ok(Bound::Real(Some(lit)))
        } else {
            Err(Fault::ParseFloat(lit))
        },
        SqliteType::Text(_) => Ok(Bound::Text(Some(lit))),
    }
}

impl SqliteType {
    /// A value of the same type as `self`, read from `s`.
    pub fn replace_and_return(&self, s: &str) -> (r: Result<Self, Error>)
        ensures
            match r {
                Ok(v) => bind_of(*self, s@) == Ok::<Bound, Fault>(v@),
                Err(e) => bind_of(*self, s@) == Err::<Bound, Fault>(e@),
            },
    {
        match self {
            SqliteType::BigInt(_) => match parse_int(s, i64::MIN, i64::MAX) {
                Some(v) => Ok(SqliteType::BigInt(Some(v))),
                None => Err(Error::ParseInt(s.to_owned())),
            },
            SqliteType::Blob(_) => Ok(SqliteType::Blob(Some(s.as_bytes_vec()))),
            SqliteType::Boolean(_) => match parse_bool(s) {
                Some(b) => Ok(SqliteType::Boolean(Some(b))),
                None => Err(Error::ParseBool(s.to_owned())),
            },
            SqliteType::DateTime(_) => match parse_timestamp(s) {
                Some(t) => Ok(SqliteType::DateTime(Some(t))),
                None => Err(Error::ParseChrono(s.to_owned())),
            },
            SqliteType::Integer(_) => match parse_int(s, i32::MIN as i64, i32::MAX as i64) {
                Some(v) => Ok(SqliteType::Integer(Some(v as i32))),
                None => Err(Error::ParseInt(s.to_owned())),
            },
            SqliteType::Real(_) => if is_float_literal(s) {
                Ok(SqliteType::Real(Some(s.to_owned())))
            } else {
                Err(Error::ParseFloat(s.to_owned()))
            },
            SqliteType::Text(_) => Ok(SqliteType::Text(Some(s.to_owned()))),
        }
    }
}

} // verus!

verus! {

/// The physical column a field is stored in: its rename, or the field itself.
pub open spec fn column(renames: FieldMap<String>, key: Seq<char>) -> Seq<char> {
    match renames.spec_get(key) {
        Some(c) => c@,
        None => key,
    }
}

/// The `LIKE` counterpart of a wildcard character: `*` becomes `%` and `?`
/// becomes `_`; every other character stays.
pub open spec fn like_char(c: char) -> char {
    if c == '*' {
        '%'
    } else if c == '?' {
        '_'
    } else {
        c
    }
}

/// A shell-style wildcard pattern as an SQL `LIKE` pattern.
pub open spec fn like_pattern(t: Seq<char>) -> Seq<char> {
    t.map_values(|c: char| like_char(c))
}

/// `n` placeholders separated by `, `.
pub open spec fn placeholders(n: nat) -> Seq<char>
    decreases n,
{
    if n == 0 {
        Seq::empty()
    } else if n == 1 {
        "?"@
    } else {
        placeholders((n - 1) as nat) + ", ?"@
    }
}

/// The values of type `shape` that a list of literals spells, in order, or
/// the first reason one spells none.
pub open spec fn binds_of(shape: SqliteType, lits: Seq<Seq<char>>) -> Result<Seq<Bound>, Fault>
    decreases lits.len(),
{
    if lits.len() == 0 {
        Ok(Seq::empty())
    } else {
        match binds_of(shape, lits.drop_last()) {
            Ok(bs) => match bind_of(shape, lits.last()) {
                Ok(b) => Ok(bs.push(b)),
                Err(e) => Err(e),
            },
            Err(e) => Err(e),
        }
    }
}

/// A condition with one placeholder, and the value read for it or the
/// reason none was.
pub open spec fn single(fragment: Seq<char>, bind: Result<Bound, Fault>) -> Result<(Seq<char>, Seq<Bound>), Fault> {
    match bind {
        Ok(b) => Ok((fragment, seq![b])),
        Err(e) => Err(e),
    }
}

/// What a leaf compiles to, given its column and its field's declared type.
pub open spec fn compile_leaf(a: Ast, col: Seq<char>, shape: SqliteType) -> Result<(Seq<char>, Seq<Bound>), Fault> {
    match a {
        Ast::Equal(_, t) => single(col + " = ?"@, bind_of(shape, t)),
        Ast::EqualCI(_, t) => single(col + " LIKE ?"@, bind_of(shape, t)),
        Ast::Greater(_, t) => single(col + " > ?"@, bind_of(shape, t)),
        Ast::Less(_, t) => single(col + " < ?"@, bind_of(shape, t)),
        Ast::Wildcard(_, t) => single(col + " LIKE ?"@, bind_of(shape, like_pattern(t))),
        Ast::Regex(_, t) => single(col + " = ?"@, bind_of(shape, t)),
        Ast::Any(_, ts) => match binds_of(shape, ts) {
            Ok(bs) => Ok(
                (
                    if ts.len() == 0 {
                        "FALSE"@
                    } else {
                        col + " IN ("@ + placeholders(ts.len()) + ")"@
                    },
                    bs,
                ),
            ),
            Err(e) => Err(e),
        },
        Ast::Null(_) => Ok((col + " IS NULL"@, Seq::empty())),
        _ => Ok((Seq::empty(), Seq::empty())),
    }
}

/// Two compiled operands joined by `op`, their binds left then right.
pub open spec fn join(
    l: Result<(Seq<char>, Seq<Bound>), Fault>,
    op: Seq<char>,
    r: Result<(Seq<char>, Seq<Bound>), Fault>,
) -> Result<(Seq<char>, Seq<Bound>), Fault> {
    match l {
        Err(e) => Err(e),
        Ok((lf, lb)) => match r {
            Err(e) => Err(e),
            Ok((rf, rb)) => Ok(("("@ + lf + op + rf + ")"@, lb + rb)),
        },
    }
}

/// The SQL condition and bind list a query compiles to, or the first error
/// met walking it left to right.
pub open spec fn compile_spec(a: Ast, renames: FieldMap<String>, types: FieldMap<SqliteType>) -> Result<(Seq<char>, Seq<Bound>), Fault>
    decreases a,
{
    match a {
        Ast::And(l, r) => join(compile_spec(*l, renames, types), " AND "@, compile_spec(*r, renames, types)),
        Ast::Or(l, r) => join(compile_spec(*l, renames, types), " OR "@, compile_spec(*r, renames, types)),
        Ast::Not(x) => match compile_spec(*x, renames, types) {
            Ok((f, b)) => Ok(("(NOT "@ + f + ")"@, b)),
            Err(e) => Err(e),
        },
        _ => match types.spec_get(field_of(a)) {
            Some(shape) => compile_leaf(a, column(renames, field_of(a)), shape),
            None => Err(Fault::UnknownKey(field_of(a))),
        },
    }
}

/// What an exec result of compilation models.
pub open spec fn compiled_view(r: Result<(String, Vec<SqliteType>), Error>) -> Result<(Seq<char>, Seq<Bound>), Fault> {
    match r {
        Ok((f, b)) => Ok((f@, bound_views(b@))),
        Err(e) => Err(e@),
    }
}

fn column_name(renames: &FieldMap<String>, key: &String) -> (r: String)
    ensures
        r@ == column(*renames, key@),
{
    match renames.get(key) {
        Some(c) => c.clone(),
        None => key.clone(),
    }
}

fn concat(a: &str, b: &str) -> (r: String)
    ensures
        r@ == a@ + b@,
{
    let mut s = String::from_str(a);
    s.append(b);
    s
}

fn like_text(t: &str) -> (r: String)
    ensures
        r@ == like_pattern(t@),
{
    let n = t.unicode_len();
    let mut out = String::new();
    let mut i: usize = 0;
    let percent = "%";
    let underscore = "_";
    proof {
        reveal_strlit("%");
        reveal_strlit("_");
    }
    while i < n
        invariant
            n == t@.len(),
            i <= n,
            percent@ == seq!['%'],
            underscore@ == seq!['_'],
            out@ =~= like_pattern(t@.subrange(0, i as int)),
        decreases n - i,
    {
        let c = t.get_char(i);
        if c == '*' {
            out.append(percent);
        } else if c == '?' {
            out.append(underscore);
        } else {
            out.append(t.substring_char(i, i + 1));
        }
        proof {
            assert(t@.subrange(0, i + 1) =~= t@.subrange(0, i as int).push(c));
        }
        i = i + 1;
    }
    proof {
        assert(t@.subrange(0, n as int) =~= t@);
    }
    out
}

fn placeholder_list(n: usize) -> (r: String)
    requires
        n >= 1,
    ensures
        r@ == placeholders(n as nat),
{
    let mut out = String::from_str("?");
    let mut i: usize = 1;
    while i < n
        invariant
            1 <= i <= n,
            out@ == placeholders(i as nat),
        decreases n - i,
    {
        out.append(", ?");
        i = i + 1;
    }
    out
}

proof fn lemma_binds_err_extends(shape: SqliteType, lits: Seq<Seq<char>>, k: int)
    requires
        0 <= k <= lits.len(),
        binds_of(shape, lits.subrange(0, k)) is Err,
    ensures
        binds_of(shape, lits) == binds_of(shape, lits.subrange(0, k)),
    decreases lits.len() - k,
{
    if k < lits.len() {
        let next = lits.subrange(0, k + 1);
        assert(next.drop_last() =~= lits.subrange(0, k));
        lemma_binds_err_extends(shape, lits, k + 1);
    } else {
        assert(lits.subrange(0, k) =~= lits);
    }
}

fn binds(shape: &SqliteType, targets: &Vec<String>) -> (r: Result<Vec<SqliteType>, Error>)
    ensures
        match r {
            Ok(b) => binds_of(*shape, crate::ast::views(targets@)) == Ok::<Seq<Bound>, Fault>(bound_views(b@)),
            Err(e) => binds_of(*shape, crate::ast::views(targets@)) == Err::<Seq<Bound>, Fault>(e@),
        },
{
    let ghost lits = crate::ast::views(targets@);
    let mut out: Vec<SqliteType> = Vec::new();
    let mut i: usize = 0;
    proof {
        assert(lits.subrange(0, 0) =~= Seq::<Seq<char>>::empty());
        assert(bound_views(out@) =~= Seq::<Bound>::empty());
    }
    while i < targets.len()
        invariant
            i <= targets.len(),
            lits == crate::ast::views(targets@),
            binds_of(*shape, lits.subrange(0, i as int)) == Ok::<Seq<Bound>, Fault>(bound_views(out@)),
        decreases targets.len() - i,
    {
        let ghost pre = lits.subrange(0, i as int);
        let ghost next = lits.subrange(0, i + 1);
        proof {
            assert(next.drop_last() =~= pre);
            assert(next.last() == targets@[i as int]@);
        }
        match shape.replace_and_return(targets[i].as_str()) {
            Ok(v) => {
                let ghost before = out@;
                out.push(v);
                proof {
                    assert(bound_views(out@) =~= bound_views(before).push(v@));
                }
            },
            Err(e) => {
                proof {
                    lemma_binds_err_extends(*shape, lits, i + 1);
                    assert(lits.subrange(0, targets.len() as int) =~= lits);
                }
                return Err(e);
            },
        }
        i = i + 1;
    }
    proof {
        assert(lits.subrange(0, targets.len() as int) =~= lits);
    }
    Ok(out)
}

fn one(fragment: String, shape: &SqliteType, lit: &str) -> (r: Result<(String, Vec<SqliteType>), Error>)
    ensures
        compiled_view(r) == single(fragment@, bind_of(*shape, lit@)),
{
    match shape.replace_and_return(lit) {
        Ok(v) => {
            let b = vec![v];
            proof {
                assert(bound_views(b@) =~= seq![v@]);
            }
            Ok((fragment, b))
        },
        Err(e) => Err(e),
    }
}

fn leaf(expression: &Expression, key: &String, renames: &FieldMap<String>, types: &FieldMap<SqliteType>) -> (r: Result<(String, Vec<SqliteType>), Error>)
    requires
        !(expression@ is And || expression@ is Or || expression@ is Not),
        key@ == field_of(expression@),
    ensures
        compiled_view(r) == compile_spec(expression@, *renames, *types),
{
    let shape = match types.get(key) {
        Some(shape) => shape,
        None => return Err(Error::UnknownKey(key.clone())),
    };
    let col = column_name(renames, key);
    match &expression.node {
        Node::Equal(_, target) => one(concat(col.as_str(), " = ?"), shape, target.as_str()),
        Node::EqualCI(_, target) => one(concat(col.as_str(), " LIKE ?"), shape, target.as_str()),
        Node::Greater(_, target) => one(concat(col.as_str(), " > ?"), shape, target.as_str()),
        Node::Less(_, target) => one(concat(col.as_str(), " < ?"), shape, target.as_str()),
        Node::Wildcard(_, target) => {
            let pattern = like_text(target.as_str());
            one(concat(col.as_str(), " LIKE ?"), shape, pattern.as_str())
        },
        Node::Regex(_, target) => one(concat(col.as_str(), " = ?"), shape, target.as_str()),
        Node::Any(_, targets) => {
            let b = binds(shape, targets)?;
            let fragment = if targets.len() == 0 {
                String::from_str("FALSE")
            } else {
                let mut f = concat(col.as_str(), " IN (");
                let list = placeholder_list(targets.len());
                f.append(list.as_str());
                f.append(")");
                f
            };
            Ok((fragment, b))
        },
        Node::Null(_) => {
            let b: Vec<SqliteType> = Vec::new();
            proof {
                assert(bound_views(b@) =~= Seq::<Bound>::empty());
            }
            Ok((concat(col.as_str(), " IS NULL"), b))
        },
        _ => Err(Error::UnknownKey(key.clone())),
    }
}

fn wrap(open: &str, left: String, op: &str, right: String) -> (r: String)
    ensures
        r@ == open@ + left@ + op@ + right@ + ")"@,
{
    let mut s = String::from_str(open);
    s.append(left.as_str());
    s.append(op);
    s.append(right.as_str());
    s.append(")");
    s
}

/// Compiles a query into an SQL condition with one `?` per bind value, and
/// the bind values in placeholder order. Fields are renamed through
/// `renames`; each operand is read as the type `types` declares for its
/// field. Fails with the first unknown field or unreadable literal.
pub fn interpret_expression(expression: &Expression, renames: &FieldMap<String>, types: &FieldMap<SqliteType>) -> (r: Result<(String, Vec<SqliteType>), Error>)
    ensures
        compiled_view(r) == compile_spec(expression@, *renames, *types),
    decreases expression,
{
    match &expression.node {
        Node::And(left, right) => {
            let (lf, mut lb) = interpret_expression(left, renames, types)?;
            let (rf, mut rb) = interpret_expression(right, renames, types)?;
            let ghost (l0, r0) = (lb@, rb@);
            lb.append(&mut rb);
            proof {
                assert(bound_views(lb@) =~= bound_views(l0) + bound_views(r0));
            }
            Ok((wrap("(", lf, " AND ", rf), lb))
        },
        Node::Or(left, right) => {
            let (lf, mut lb) = interpret_expression(left, renames, types)?;
            let (rf, mut rb) = interpret_expression(right, renames, types)?;
            let ghost (l0, r0) = (lb@, rb@);
            lb.append(&mut rb);
            proof {
                assert(bound_views(lb@) =~= bound_views(l0) + bound_views(r0));
            }
            Ok((wrap("(", lf, " OR ", rf), lb))
        },
        Node::Not(inner) => {
            let (f, b) = interpret_expression(inner, renames, types)?;
            let mut s = String::from_str("(NOT ");
            s.append(f.as_str());
            s.append(")");
            Ok((s, b))
        },
        Node::Equal(key, _) => leaf(expression, key, renames, types),
        Node::EqualCI(key, _) => leaf(expression, key, renames, types),
        Node::Greater(key, _) => leaf(expression, key, renames, types),
        Node::Less(key, _) => leaf(expression, key, renames, types),
        Node::Wildcard(key, _) => leaf(expression, key, renames, types),
        Node::Regex(key, _) => leaf(expression, key, renames, types),
        Node::Any(key, _) => leaf(expression, key, renames, types),
        Node::Null(key) => leaf(expression, key, renames, types),
    }
}

/// Compiles a query; see [`interpret_expression`].
pub fn interpret(expression: &Expression, renames: &FieldMap<String>, types: &FieldMap<SqliteType>) -> (r: Result<(String, Vec<SqliteType>), Error>)
    ensures
        compiled_view(r) == compile_spec(expression@, *renames, *types),
{
    interpret_expression(expression, renames, types)
}

/// Every field a tree names is declared as text or blob, so that every
/// operand reads.
pub open spec fn declared_lenient(a: Ast, types: FieldMap<SqliteType>) -> bool
    decreases a,
{
    match a {
        Ast::And(l, r) => declared_lenient(*l, types) && declared_lenient(*r, types),
        Ast::Or(l, r) => declared_lenient(*l, types) && declared_lenient(*r, types),
        Ast::Not(x) => declared_lenient(*x, types),
        _ => match types.spec_get(field_of(a)) {
            Some(SqliteType::Text(_)) => true,
            Some(SqliteType::Blob(_)) => true,
            _ => false,
        },
    }
}

proof fn lemma_binds_lenient(shape: SqliteType, lits: Seq<Seq<char>>)
    requires
        shape is Text || shape is Blob,
    ensures
        binds_of(shape, lits) is Ok,
    decreases lits.len(),
{
    if lits.len() > 0 {
        lemma_binds_lenient(shape, lits.drop_last());
    }
}

/// Compilation never fails on a tree whose every field is declared as text
/// or blob, however deeply it nests.
pub proof fn lemma_compile_total(a: Ast, renames: FieldMap<String>, types: FieldMap<SqliteType>)
    requires
        declared_lenient(a, types),
    ensures
        compile_spec(a, renames, types) is Ok,
    decreases a,
{
    match a {
        Ast::And(l, r) => {
            lemma_compile_total(*l, renames, types);
            lemma_compile_total(*r, renames, types);
        },
        Ast::Or(l, r) => {
            lemma_compile_total(*l, renames, types);
            lemma_compile_total(*r, renames, types);
        },
        Ast::Not(x) => {
            lemma_compile_total(*x, renames, types);
        },
        Ast::Any(_, ts) => {
            lemma_binds_lenient(types.spec_get(field_of(a)).unwrap(), ts);
        },
        _ => {},
    }
}

/// Membership in an empty list compiles to `FALSE` with no binds, and the
/// standard rules evaluate it to false whatever the record holds.
pub proof fn lemma_empty_membership(
    key: Seq<char>,
    renames: FieldMap<String>,
    types: FieldMap<SqliteType>,
    rules: FieldMap<EvaluateRule>,
    pairs: FieldMap<String>,
)
    requires
        types.spec_get(key) is Some,
    ensures
        compile_spec(Ast::Any(key, Seq::empty()), renames, types) == Ok::<(Seq<char>, Seq<Bound>), Fault>(("FALSE"@, Seq::empty())),
        !eval(Ast::Any(key, Seq::empty()), rules, pairs),
{
    let a = Ast::Any(key, Seq::empty());
    match (rules.spec_get(key), pairs.spec_get(key)) {
        (Some(rule), Some(value)) => {
            assert(!Seq::<Seq<char>>::empty().contains(value@));
        },
        _ => {},
    }
}

/// A wildcard comparison compiles to `LIKE` with each `*` of the operand
/// turned into `%` and each `?` into `_`, once: no `*` or `?` is left, and
/// every other character, `%` and `_` included, stays as it was. The
/// standard rules match the operand itself as the shell-style pattern.
pub proof fn lemma_wildcard_translation(
    key: Seq<char>,
    t: Seq<char>,
    renames: FieldMap<String>,
    types: FieldMap<SqliteType>,
    rules: FieldMap<EvaluateRule>,
    pairs: FieldMap<String>,
)
    requires
        types.spec_get(key) matches Some(SqliteType::Text(_)),
    ensures
        compile_spec(Ast::Wildcard(key, t), renames, types) == Ok::<(Seq<char>, Seq<Bound>), Fault>(
            (column(renames, key) + " LIKE ?"@, seq![Bound::Text(Some(like_pattern(t)))]),
        ),
        like_pattern(t).len() == t.len(),
        forall|i: int| 0 <= i < t.len() ==> #[trigger] like_pattern(t)[i] == like_char(t[i]),
        forall|i: int| 0 <= i < t.len() ==> #[trigger] like_pattern(t)[i] != '*' && like_pattern(t)[i] != '?',
        like_pattern(like_pattern(t)) == like_pattern(t),
        match (rules.spec_get(key), pairs.spec_get(key)) {
            (Some(_), Some(v)) => eval(Ast::Wildcard(key, t), rules, pairs) == glob_matches(t, v@),
            _ => !eval(Ast::Wildcard(key, t), rules, pairs),
        },
{
    assert(like_pattern(like_pattern(t)) =~= like_pattern(t));
}

} // verus!
