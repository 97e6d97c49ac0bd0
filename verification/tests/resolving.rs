use cost_model::literal::Literal;
use cost_model::query::{parse_operation, Argument, Field, Value};
use cost_model::resolve::{parse_payload, resolve};
use cost_model::token::tokenize;
use cost_model::ResolveError;
use num_bigint::BigInt;

fn num(n: i64) -> Literal {
    Literal::Int(BigInt::from(n))
}

#[test]
fn one_selection_for_each_top_level_field() {
    let sels = resolve(
        "query Q { a(x: 1, s: \"t\") b { c(y: 2) { d } e } f(ok: true, no: false, n: -3) }",
        "",
    )
    .unwrap();
    assert_eq!(sels.len(), 3);
    assert_eq!(sels[0].field, b"a".to_vec());
    assert_eq!(sels[0].args.get(b"x"), Some(&num(1)));
    assert_eq!(sels[0].args.get(b"s"), Some(&Literal::Str(b"t".to_vec())));
    assert_eq!(sels[0].args.get(b"y"), None);
    assert_eq!(sels[1].field, b"b".to_vec());
    assert!(!sels[1].args.has(b"y"));
    assert_eq!(sels[2].field, b"f".to_vec());
    assert_eq!(sels[2].args.get(b"ok"), Some(&Literal::Bool(true)));
    assert_eq!(sels[2].args.get(b"no"), Some(&Literal::Bool(false)));
    assert_eq!(sels[2].args.get(b"n"), Some(&num(-3)));
}

#[test]
fn the_word_query_and_the_name_may_be_left_out() {
    for query in ["{ a(x: 1) }", "query { a(x: 1) }", "query Named { a(x: 1) }", "query{a(x:1)}"] {
        let sels = resolve(query, "").unwrap();
        assert_eq!(sels.len(), 1);
        assert_eq!(sels[0].field, b"a".to_vec());
        assert_eq!(sels[0].args.get(b"x"), Some(&num(1)));
    }
}

#[test]
fn variables_are_replaced_by_their_values() {
    let query = "query Q($n: Int!, $s: String, $l: [[Int!]]!, $b: Boolean) { a(n: $n, s: $s, b: $b) b(n: $n) }";
    let sels = resolve(query, " { \"n\" : 5 , \"s\" : \"five\", \"b\": true, \"extra\": 1 } ").unwrap();
    assert_eq!(sels.len(), 2);
    assert_eq!(sels[0].args.get(b"n"), Some(&num(5)));
    assert_eq!(sels[0].args.get(b"s"), Some(&Literal::Str(b"five".to_vec())));
    assert_eq!(sels[0].args.get(b"b"), Some(&Literal::Bool(true)));
    assert_eq!(sels[1].args.get(b"n"), Some(&num(5)));
}

#[test]
fn a_name_supplied_twice_has_its_later_value() {
    let sels = resolve("query ($v: Int) { a(x: $v) }", "{\"v\": 1, \"v\": 2}").unwrap();
    assert_eq!(sels[0].args.get(b"x"), Some(&num(2)));
}

#[test]
fn blocks_are_passed_over() {
    let sels = resolve("{ a { b(x: \"}\") { c } ... on T @skip(if: $z) { d } } e }", "").unwrap();
    assert_eq!(sels.len(), 2);
    assert_eq!(sels[0].field, b"a".to_vec());
    assert_eq!(sels[1].field, b"e".to_vec());
}

#[test]
fn malformed_queries() {
    for query in [
        "",
        "query",
        "query { }",
        "{ }",
        "{ a",
        "{ a { b }",
        "{ a } }",
        "{ a } b",
        "{ a( ) }",
        "{ a(x) }",
        "{ a(x: ) }",
        "{ a(x: 1 }",
        "{ a(x: [1]) }",
        "{ a(x: {y: 1}) }",
        "{ a(x: 1.5) }",
        "{ a(x: null) }",
        "{ a(x: ENUM) }",
        "{ 1 }",
        "mutation { a }",
        "query Q() { a }",
        "query Q($v) { a }",
        "query Q($v: ) { a }",
        "query Q($v: [Int) { a }",
        "query Q(v: Int) { a }",
        "query Q R { a }",
        "{ a # b\n }",
    ] {
        assert_eq!(resolve(query, "").unwrap_err(), ResolveError::MalformedQuery);
    }
}

#[test]
fn malformed_payloads() {
    for payload in [
        "{",
        "}",
        "[]",
        "1",
        "{\"a\"}",
        "{\"a\" 1}",
        "{\"a\": }",
        "{\"a\": 1,}",
        "{,\"a\": 1}",
        "{\"a\": 1 \"b\": 2}",
        "{\"a\": 1} 2",
        "{a: 1}",
        "{\"a\": 1.5}",
        "{\"a\": null}",
        "{\"a\": [1]}",
        "{\"a\": {\"b\": 1}}",
        "{\"a\": $b}",
        "{} {}",
        "{\"a\": \"open}",
    ] {
        assert_eq!(resolve("{ a }", payload).unwrap_err(), ResolveError::MalformedVariables);
    }
    for payload in ["", "  ", "{}", " { } ", "{\"a\": 1}", "{\"a\": -1, \"b\": \"s\", \"c\": false}"] {
        assert!(resolve("{ a }", payload).is_ok());
    }
}

#[test]
fn the_query_is_checked_before_the_payload() {
    assert_eq!(resolve("{ a", "{").unwrap_err(), ResolveError::MalformedQuery);
    assert_eq!(
        resolve("{ a(x: $v) }", "{").unwrap_err(),
        ResolveError::MalformedVariables
    );
}

#[test]
fn undeclared_and_unsupplied_variables() {
    assert_eq!(
        resolve("{ a(x: $v) }", "{\"v\": 1}").unwrap_err(),
        ResolveError::UndeclaredVariable
    );
    assert_eq!(
        resolve("query ($w: Int) { a(x: $v) }", "{\"v\": 1, \"w\": 1}").unwrap_err(),
        ResolveError::UndeclaredVariable
    );
    assert_eq!(
        resolve("query ($v: Int) { a(x: $v) }", "").unwrap_err(),
        ResolveError::UnsuppliedVariable
    );
    assert_eq!(
        resolve("query ($v: Int) { a(x: $v) }", "{\"w\": 1}").unwrap_err(),
        ResolveError::UnsuppliedVariable
    );
    assert_eq!(
        resolve("query ($v: Int) { a(x: $u) }", "").unwrap_err(),
        ResolveError::UndeclaredVariable
    );
    assert!(resolve("query ($v: Int) { a(x: 1) }", "").is_ok());
}

#[test]
fn duplicate_arguments() {
    assert_eq!(
        resolve("{ a(x: 1, x: 1) }", "").unwrap_err(),
        ResolveError::DuplicateArgument
    );
    assert_eq!(
        resolve("{ a(x: 1, y: 2, x: $v) }", "").unwrap_err(),
        ResolveError::DuplicateArgument
    );
    assert_eq!(
        resolve("{ a(x: $v, x: 1) }", "").unwrap_err(),
        ResolveError::UndeclaredVariable
    );
    assert!(resolve("{ a(x: 1) a(x: 1) }", "").is_ok());
}

#[test]
fn the_first_fault_among_arguments_counts() {
    assert_eq!(
        resolve("query ($v: Int) { a(x: 1) b(y: $v, y: 2) c(z: $u) }", "").unwrap_err(),
        ResolveError::UnsuppliedVariable
    );
    assert_eq!(
        resolve("query ($v: Int) { a(x: 1) b(y: 2, y: $v) c(z: $u) }", "").unwrap_err(),
        ResolveError::DuplicateArgument
    );
}

#[test]
fn operations_keep_arguments_as_written() {
    let lexemes = tokenize(b"query ($v: Int!, $w: [T]) { a(x: $v, y: 2) { z } b }", true).unwrap();
    let op = parse_operation(&lexemes).unwrap();
    assert_eq!(op.declared, vec![b"v".to_vec(), b"w".to_vec()]);
    assert_eq!(
        op.fields,
        vec![
            Field {
                name: b"a".to_vec(),
                args: vec![
                    Argument { name: b"x".to_vec(), value: Value::Reference(b"v".to_vec()) },
                    Argument { name: b"y".to_vec(), value: Value::Given(num(2)) },
                ],
            },
            Field { name: b"b".to_vec(), args: vec![] },
        ]
    );
}

#[test]
fn payloads_are_read_into_bindings() {
    let lexemes = tokenize(b"{\"a\": 1, \"b c\": \"d\", \"e\": false}", false).unwrap();
    let supplied = parse_payload(&lexemes).unwrap();
    assert_eq!(supplied.get(b"a"), Some(&num(1)));
    assert_eq!(supplied.get(b"b c"), Some(&Literal::Str(b"d".to_vec())));
    assert_eq!(supplied.get(b"e"), Some(&Literal::Bool(false)));
    assert_eq!(supplied.get(b"f"), None);
}
