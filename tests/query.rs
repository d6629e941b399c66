use gsp::interpreter::evaluate::{self, EvaluateRule};
use gsp::interpreter::sqlite::{self, Error as CompileError, SqliteType, Timestamp};
use gsp::table::FieldMap;
use gsp::{parse, Error, Expression, Node};
use std::str::FromStr;

fn rules(fields: &[&str]) -> FieldMap<EvaluateRule> {
    let mut m = FieldMap::new();
    for f in fields {
        m.insert(f.to_string(), EvaluateRule::default());
    }
    m
}

fn record(pairs: &[(&str, &str)]) -> FieldMap<String> {
    let mut m = FieldMap::new();
    for (k, v) in pairs {
        m.insert(k.to_string(), v.to_string());
    }
    m
}

fn eval(query: &str, fields: &[&str], pairs: &[(&str, &str)]) -> bool {
    let e = parse(query).unwrap();
    evaluate::interpret(&e, &rules(fields), &record(pairs))
}

fn types(decls: &[(&str, SqliteType)]) -> FieldMap<SqliteType> {
    let mut m = FieldMap::new();
    for (k, t) in decls {
        m.insert(k.to_string(), t.clone());
    }
    m
}

fn compile(
    query: &str,
    renames: &[(&str, &str)],
    decls: &[(&str, SqliteType)],
) -> Result<(String, Vec<SqliteType>), CompileError> {
    let e = parse(query).unwrap();
    sqlite::interpret(&e, &record(renames), &types(decls))
}

fn text(s: &str) -> SqliteType {
    SqliteType::Text(Some(s.to_string()))
}

#[test]
fn equal_is_exact() {
    assert!(eval("(name = \"Alice\")", &["name"], &[("name", "Alice")]));
    assert!(!eval("(name = \"Alice\")", &["name"], &[("name", "alice")]));
}

#[test]
fn equal_ci_folds_case() {
    assert!(eval("(name ~ \"Alice\")", &["name"], &[("name", "alice")]));
    assert!(eval("(name ~ \"ALICE\")", &["name"], &[("name", "aLiCe")]));
    assert!(!eval("(name ~ \"Alice\")", &["name"], &[("name", "alicia")]));
}

#[test]
fn negated_greater() {
    assert!(eval("(!(age > \"30\"))", &["age"], &[("age", "25")]));
    assert!(!eval("(!(age > \"30\"))", &["age"], &[("age", "31")]));
}

#[test]
fn membership_compiles_with_rename() {
    let r = compile(
        "(status ? [\"Male\", \"Other\"])",
        &[("status", "sex_col")],
        &[("status", SqliteType::Text(None))],
    )
    .unwrap();
    assert_eq!(r.0, "sex_col IN (?, ?)");
    assert_eq!(r.1, vec![text("Male"), text("Other")]);
}

#[test]
fn null_check_compiles() {
    let r = compile("(note -)", &[], &[("note", SqliteType::Text(None))]).unwrap();
    assert_eq!(r.0, "note IS NULL");
    assert!(r.1.is_empty());
    let e = compile("(note -)", &[], &[]).unwrap_err();
    assert_eq!(e, CompileError::UnknownKey("note".to_string()));
}

#[test]
fn conjunction_of_integers() {
    let r = compile(
        "((a = \"1\") & (b = \"2\"))",
        &[],
        &[("a", SqliteType::Integer(None)), ("b", SqliteType::Integer(None))],
    )
    .unwrap();
    assert_eq!(r.0, "(a = ? AND b = ?)");
    assert_eq!(r.1, vec![SqliteType::Integer(Some(1)), SqliteType::Integer(Some(2))]);
}

#[test]
fn parse_is_deterministic() {
    let q = "((a = \"1\") | (!(b ? [\"x\", \"y\"])))";
    let a = format!("{:?}", parse(q).unwrap());
    let b = format!("{:?}", parse(q).unwrap());
    assert_eq!(a, b);
}

#[test]
fn deep_negation_is_accepted() {
    let mut q = String::from("(x = \"1\")");
    for _ in 0..40 {
        q = format!("(!{})", q);
    }
    let e = parse(&q).unwrap();
    assert!(evaluate::interpret(&e, &rules(&["x"]), &record(&[("x", "1")])));
    let r = sqlite::interpret(&e, &FieldMap::new(), &types(&[("x", SqliteType::Text(None))])).unwrap();
    assert!(r.0.starts_with("(NOT (NOT "));
    assert_eq!(r.1, vec![text("1")]);
}

#[test]
fn missing_rule_or_value_is_false() {
    assert!(!eval("(name = \"A\")", &[], &[("name", "A")]));
    assert!(!eval("(name = \"A\")", &["name"], &[]));
    assert!(!eval("(name = \"A\")", &[], &[]));
    assert!(eval("(!(name = \"A\"))", &[], &[]));
}

#[test]
fn empty_membership() {
    let r = compile("(x ? [])", &[], &[("x", SqliteType::Text(None))]).unwrap();
    assert_eq!(r.0, "FALSE");
    assert!(r.1.is_empty());
    assert!(!eval("(x ? [ ])", &["x"], &[("x", "")]));
    assert!(!eval("(x ? [])", &["x"], &[("x", "a")]));
}

#[test]
fn membership_evaluates() {
    assert!(eval("(x ? [\"a\", \"b\"])", &["x"], &[("x", "b")]));
    assert!(!eval("(x ? [\"a\",\"b\"])", &["x"], &[("x", "c")]));
}

#[test]
fn wildcard_translates_once() {
    let r = compile("(f * \"a*b?%_\")", &[], &[("f", SqliteType::Text(None))]).unwrap();
    assert_eq!(r.0, "f LIKE ?");
    assert_eq!(r.1, vec![text("a%b_%_")]);
    assert!(eval("(f * \"a*b?\")", &["f"], &[("f", "axxbz")]));
    assert!(!eval("(f * \"a*b?\")", &["f"], &[("f", "axxb")]));
    assert!(!eval("(f * \"a%\")", &["f"], &[("f", "abc")]));
}

#[test]
fn other_fragments() {
    let decl = [("f", SqliteType::Text(None))];
    assert_eq!(compile("(f ~ \"A*\")", &[], &decl).unwrap(), ("f LIKE ?".to_string(), vec![text("A*")]));
    assert_eq!(compile("(f > \"b\")", &[], &decl).unwrap().0, "f > ?");
    assert_eq!(compile("(f < \"b\")", &[], &decl).unwrap().0, "f < ?");
    assert_eq!(compile("(f $ \"^a\")", &[], &decl).unwrap(), ("f = ?".to_string(), vec![text("^a")]));
    assert_eq!(compile("((f = \"1\") | (!(f - )))", &[("f", "col")], &decl).unwrap().0, "(col = ? OR (NOT col IS NULL))");
}

#[test]
fn ordering_is_lexicographic() {
    assert!(eval("(v > \"30\")", &["v"], &[("v", "9")]));
    assert!(eval("(v < \"abc\")", &["v"], &[("v", "ab")]));
    assert!(!eval("(v < \"ab\")", &["v"], &[("v", "ab")]));
}

#[test]
fn regex_rule() {
    assert!(eval("(n $ \"^a.c$\")", &["n"], &[("n", "abc")]));
    assert!(!eval("(n $ \"^a.c$\")", &["n"], &[("n", "abcd")]));
    assert!(!eval("(n $ \"(\")", &["n"], &[("n", "(")]));
}

#[test]
fn null_rule() {
    assert!(eval("(n -)", &["n"], &[("n", "NULL")]));
    assert!(eval("(n -)", &["n"], &[("n", "None")]));
    assert!(!eval("(n -)", &["n"], &[("n", "nil")]));
}

#[test]
fn bare_comparison_operands() {
    assert!(eval("(a = \"1\" & b = \"2\")", &["a", "b"], &[("a", "1"), ("b", "2")]));
    assert!(eval("(! a = \"1\")", &["a"], &[("a", "2")]));
    assert!(eval("((a = \"1\") | b = \"2\")", &["a", "b"], &[("a", "0"), ("b", "2")]));
    assert!(eval("( a = \"1\" | (b = \"2\") )", &["a", "b"], &[("a", "1"), ("b", "0")]));
}

#[test]
fn text_escapes() {
    let e = parse("(a = \"x\\\"y\\\\z\")").unwrap();
    match e.node {
        Node::Equal(k, t) => {
            assert_eq!(k, "a");
            assert_eq!(t, "x\"y\\z");
        }
        _ => panic!("expected an equality"),
    }
    let e = parse("(a = \"\")").unwrap();
    assert!(matches!(e.node, Node::Equal(_, ref t) if t.is_empty()));
}

#[test]
fn syntax_errors() {
    for q in [
        "",
        "(a = \"1\") ",
        "(a = \"1\"",
        "((a = \"1\"))",
        "(a = 1)",
        "(a = \"\\n\")",
        "(a ? [\"x\",])",
        "(= \"1\")",
        "(a # \"1\")",
        "((a = \"1\") & )",
    ] {
        let r = parse(q);
        assert!(matches!(r, Err(Error::Parser(_))), "{q}");
    }
    match Expression::from_str("(a = \"1\"))") {
        Err(Error::Parser(m)) => assert_eq!(m, "syntax error at character 9"),
        _ => panic!("expected a syntax error"),
    }
}

#[test]
fn literal_errors() {
    let one = |t: SqliteType, lit: &str| t.replace_and_return(lit);
    assert_eq!(one(SqliteType::BigInt(None), "-42"), Ok(SqliteType::BigInt(Some(-42))));
    assert_eq!(one(SqliteType::BigInt(None), "+7"), Ok(SqliteType::BigInt(Some(7))));
    assert_eq!(one(SqliteType::BigInt(None), "-9223372036854775808"), Ok(SqliteType::BigInt(Some(i64::MIN))));
    assert_eq!(one(SqliteType::BigInt(None), "9223372036854775808"), Err(CompileError::ParseInt("9223372036854775808".into())));
    assert_eq!(one(SqliteType::Integer(None), "2147483648"), Err(CompileError::ParseInt("2147483648".into())));
    assert_eq!(one(SqliteType::Integer(None), "12a"), Err(CompileError::ParseInt("12a".into())));
    assert_eq!(one(SqliteType::Integer(None), "-"), Err(CompileError::ParseInt("-".into())));
    assert_eq!(one(SqliteType::Boolean(None), "true"), Ok(SqliteType::Boolean(Some(true))));
    assert_eq!(one(SqliteType::Boolean(None), "True"), Err(CompileError::ParseBool("True".into())));
    assert_eq!(one(SqliteType::Real(None), "1.5e3"), Ok(SqliteType::Real(Some("1.5e3".into()))));
    assert_eq!(one(SqliteType::Real(None), "-inf"), Ok(SqliteType::Real(Some("-inf".into()))));
    assert_eq!(one(SqliteType::Real(None), ".5"), Ok(SqliteType::Real(Some(".5".into()))));
    assert_eq!(one(SqliteType::Real(None), "1.2.3"), Err(CompileError::ParseFloat("1.2.3".into())));
    assert_eq!(one(SqliteType::Real(None), "1e"), Err(CompileError::ParseFloat("1e".into())));
    assert_eq!(
        one(SqliteType::DateTime(None), "2024-01-02T03:04:05Z"),
        Ok(SqliteType::DateTime(Some(Timestamp { seconds: 1704164645, nanos: 0 })))
    );
    assert_eq!(one(SqliteType::DateTime(None), "yesterday"), Err(CompileError::ParseChrono("yesterday".into())));
    assert_eq!(one(SqliteType::Blob(None), "hé"), Ok(SqliteType::Blob(Some(vec![0x68, 0xc3, 0xa9]))));
}

#[test]
fn compile_stops_at_first_error() {
    let e = compile(
        "((a = \"x\") & (b = \"y\"))",
        &[],
        &[("a", SqliteType::Integer(None))],
    )
    .unwrap_err();
    assert_eq!(e, CompileError::ParseInt("x".into()));
    let e = compile("(c ? [\"1\", \"z\", \"w\"])", &[], &[("c", SqliteType::Integer(None))]).unwrap_err();
    assert_eq!(e, CompileError::ParseInt("z".into()));
}

#[test]
fn field_map_replaces() {
    let mut m = FieldMap::new();
    m.insert("k".to_string(), "1".to_string());
    m.insert("k".to_string(), "2".to_string());
    assert_eq!(m.get(&"k".to_string()), Some(&"2".to_string()));
    assert_eq!(m.get(&"j".to_string()), None);
}

#[test]
fn quoted_fields_parse() {
    let e = Expression::from_str(r#"(("a" = "1") & ("b" = "2"))"#).unwrap();
    match e.node {
        Node::And(l, r) => {
            assert!(matches!(l.node, Node::Equal(ref k, ref t) if k == "a" && t == "1"));
            assert!(matches!(r.node, Node::Equal(ref k, ref t) if k == "b" && t == "2"));
        }
        _ => panic!("expected a conjunction"),
    }
    let e = parse(r#"(!("age" > "30"))"#).unwrap();
    match e.node {
        Node::Not(x) => assert!(matches!(x.node, Node::Greater(ref k, ref t) if k == "age" && t == "30")),
        _ => panic!("expected a negation"),
    }
    let e = parse(r#"("status" ? ["Male", "Other"])"#).unwrap();
    assert!(matches!(e.node, Node::Any(ref k, ref ts) if k == "status" && *ts == vec!["Male".to_string(), "Other".to_string()]));
    let e = parse(r#"("status" ? [])"#).unwrap();
    assert!(matches!(e.node, Node::Any(ref k, ref ts) if k == "status" && ts.is_empty()));
    let e = parse(r#"("note" -)"#).unwrap();
    assert!(matches!(e.node, Node::Null(ref k) if k == "note"));
    let e = parse(r#"("a" = "x\"y\\z")"#).unwrap();
    assert!(matches!(e.node, Node::Equal(ref k, ref t) if k == "a" && t == "x\"y\\z"));
    let e = parse(r#"("first name" = "Al" | "a\"b" ~ "c")"#).unwrap();
    match e.node {
        Node::Or(l, r) => {
            assert!(matches!(l.node, Node::Equal(ref k, _) if k == "first name"));
            assert!(matches!(r.node, Node::EqualCI(ref k, _) if k == "a\"b"));
        }
        _ => panic!("expected a disjunction"),
    }
}

#[test]
fn quoted_fields_evaluate_and_compile() {
    assert!(eval(r#"("name" = "Alice")"#, &["name"], &[("name", "Alice")]));
    assert!(eval(r#"(!("age" > "30"))"#, &["age"], &[("age", "25")]));
    let r = compile(
        r#"(("a" = "1") & ("b" = "2"))"#,
        &[],
        &[("a", SqliteType::Integer(None)), ("b", SqliteType::Integer(None))],
    )
    .unwrap();
    assert_eq!(r.0, "(a = ? AND b = ?)");
    assert_eq!(r.1, vec![SqliteType::Integer(Some(1)), SqliteType::Integer(Some(2))]);
}

#[test]
fn quoted_field_errors() {
    for q in [r#"("" = "1")"#, r#""a" = "1""#, r#"(("a" = "1") & ("b" = "2") | ("c" = "3"))"#, r#"("a = "1")"#] {
        match parse(q) {
            Err(Error::Parser(m)) => assert!(m.starts_with("syntax error at character ")),
            Ok(_) => panic!("{q} parsed"),
        }
    }
}

#[test]
fn atoms_hand_back_the_rest() {
    let (rest, r) = gsp::parser::relation::relation(r#"("a" = "1") tail"#).unwrap();
    assert_eq!(rest, " tail");
    let e = Expression::from_relation(r);
    assert!(matches!(e.node, Node::Equal(ref k, ref t) if k == "a" && t == "1"));
    let (rest, t) = gsp::parser::atom::text(r#""x\\y"z"#).unwrap();
    assert_eq!((rest, t.0.as_str()), ("z", "x\\y"));
    let (rest, a) = gsp::parser::atom::array(r#"[ "p" ,"q" ]!"#).unwrap();
    assert_eq!(rest, "!");
    assert_eq!(a.0, vec!["p".to_string(), "q".to_string()]);
    assert!(gsp::parser::atom::text("x").is_err());
    assert!(gsp::parser::relation::relation("(a = \"1\"").is_err());
}

#[test]
fn wildcard_is_not_like() {
    assert!(eval("(f * \"A*\")", &["f"], &[("f", "Alice")]));
    assert!(!eval("(f * \"A%\")", &["f"], &[("f", "Alice")]));
    assert!(eval("(f * \"**\")", &["f"], &[("f", "")]));
    assert!(!eval("(f * \"a\")", &["f"], &[("f", "A")]));
}
