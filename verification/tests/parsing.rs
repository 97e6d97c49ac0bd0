use cost_model::expr::{Expr, Guard, Relation};
use cost_model::literal::Literal;
use cost_model::parser::parse;
use cost_model::rule::{ArgPattern, Constraint, FieldPattern, Rule};
use cost_model::{CostModel, ParseError, ParseFault};
use num_bigint::BigInt;

fn num(n: i64) -> Expr {
    Expr::Lit(Literal::Int(BigInt::from(n)))
}

fn var(name: &str) -> Expr {
    Expr::Var(name.as_bytes().to_vec())
}

fn fault_of(text: &str) -> ParseError {
    let err = parse(text).unwrap_err();
    match CostModel::compile(text) {
        Ok(_) => panic!("compiled a faulty text"),
        Err(e) => assert_eq!(e, err),
    }
    err
}

#[test]
fn rules_are_read_in_declaration_order() {
    let rules = parse(
        "query { a(skip: 10, to: $t) } when $t > 1 && true => $t * (2 + 0);\n default => 3;",
    )
    .unwrap();
    assert_eq!(rules.len(), 2);
    let expected = Rule {
        pattern: Some(FieldPattern {
            field: b"a".to_vec(),
            args: vec![
                ArgPattern {
                    name: b"skip".to_vec(),
                    constraint: Constraint::Exact(Literal::Int(BigInt::from(10))),
                },
                ArgPattern { name: b"to".to_vec(), constraint: Constraint::Bound(b"t".to_vec()) },
            ],
        }),
        guard: Some(Guard::And(
            Box::new(Guard::Compare(Relation::Greater, var("t"), num(1))),
            Box::new(Guard::Truth(Expr::Lit(Literal::Bool(true)))),
        )),
        cost: Expr::Mul(
            Box::new(var("t")),
            Box::new(Expr::Add(Box::new(num(2)), Box::new(num(0)))),
        ),
        order: 0,
    };
    assert_eq!(rules[0], expected);
    assert_eq!(
        rules[1],
        Rule { pattern: None, guard: None, cost: num(3), order: 1 }
    );
    assert_eq!(rules[0].pattern.as_ref().unwrap().specificity(), 2);
}

#[test]
fn operators_associate_to_the_left() {
    let rules = parse("query { a } when 1 < 2 && 2 < 3 && 3 < 4 => 1 + 2 + 3 * 4 * 5;").unwrap();
    let product = Expr::Mul(
        Box::new(Expr::Mul(Box::new(num(3)), Box::new(num(4)))),
        Box::new(num(5)),
    );
    let sum = Expr::Add(
        Box::new(Expr::Add(Box::new(num(1)), Box::new(num(2)))),
        Box::new(product),
    );
    assert_eq!(rules[0].cost, sum);
    let less = |a: i64, b: i64| Guard::Compare(Relation::Less, num(a), num(b));
    let guard = Guard::And(
        Box::new(Guard::And(Box::new(less(1, 2)), Box::new(less(2, 3)))),
        Box::new(less(3, 4)),
    );
    assert_eq!(rules[0].guard, Some(guard));
}

#[test]
fn every_relation_is_read() {
    let rules = parse(
        "default when 1 == 2 => 0; default when 1 != 2 => 0; default when 1 > 2 => 0;
         default when 1 >= 2 => 0; default when 1 < 2 => 0; default when 1 <= 2 => 0;",
    )
    .unwrap();
    let relations = [
        Relation::Equal,
        Relation::NotEqual,
        Relation::Greater,
        Relation::GreaterEqual,
        Relation::Less,
        Relation::LessEqual,
    ];
    assert_eq!(rules.len(), 6);
    for (i, relation) in relations.iter().enumerate() {
        assert_eq!(rules[i].guard, Some(Guard::Compare(*relation, num(1), num(2))));
        assert_eq!(rules[i].order, i);
    }
}

#[test]
fn literals_of_every_kind_in_patterns() {
    let rules = parse("query { a(i: -12, s: \"x y\", t: true, f: false) } => 1;").unwrap();
    let args = &rules[0].pattern.as_ref().unwrap().args;
    assert_eq!(args[0].constraint, Constraint::Exact(Literal::Int(BigInt::from(-12))));
    assert_eq!(args[1].constraint, Constraint::Exact(Literal::Str(b"x y".to_vec())));
    assert_eq!(args[2].constraint, Constraint::Exact(Literal::Bool(true)));
    assert_eq!(args[3].constraint, Constraint::Exact(Literal::Bool(false)));
}

#[test]
fn empty_text_declares_no_rules() {
    assert_eq!(parse("").unwrap().len(), 0);
    assert_eq!(parse(" \n\t ").unwrap().len(), 0);
    assert_eq!(CostModel::compile("").unwrap().len(), 0);
}

#[test]
fn syntax_faults_name_the_statement() {
    let text = "query { a } => 1; query { b => 2;";
    let at = text.find("query { b").unwrap();
    assert_eq!(fault_of(text), ParseError { fault: ParseFault::Syntax, offset: at });
    for text in [
        "query { a } => 1",
        "query { a } 1;",
        "query a => 1;",
        "query { a( } => 1;",
        "query { a() } => 1;",
        "query { a(x) } => 1;",
        "query { a(x: ) } => 1;",
        "query { a(x: 1,) } => 1;",
        "query { a } when => 1;",
        "query { a } when 1 > => 1;",
        "query { a } when 1 > 2 && => 1;",
        "query { a } => ;",
        "query { a } => 1 + ;",
        "query { a } => (1 + 2;",
        "query { a } => 1 2;",
        "query { a } => when;",
        "default { a } => 1;",
        "defaults => 1;",
        "when => 1;",
        "=> 1;",
    ] {
        assert_eq!(fault_of(text), ParseError { fault: ParseFault::Syntax, offset: 0 });
    }
    assert_eq!(
        fault_of("  \n default => 1; ; "),
        ParseError { fault: ParseFault::Syntax, offset: 18 }
    );
}

#[test]
fn bytes_that_start_no_token() {
    assert_eq!(
        fault_of("query { a } => 1; # costs"),
        ParseError { fault: ParseFault::Syntax, offset: 18 }
    );
    assert_eq!(
        fault_of("query { a } => 1 - 2;"),
        ParseError { fault: ParseFault::Syntax, offset: 17 }
    );
    assert_eq!(
        fault_of("query { a(x: \"open) } => 1;"),
        ParseError { fault: ParseFault::Syntax, offset: 13 }
    );
    assert_eq!(
        fault_of("query { a(x: $) } => 1;"),
        ParseError { fault: ParseFault::Syntax, offset: 13 }
    );
    assert_eq!(
        fault_of("query { a(x: 1, x: 2) } => 1; ?"),
        ParseError { fault: ParseFault::Syntax, offset: 30 }
    );
}

#[test]
fn duplicate_argument_names() {
    let text = "default => 1;\nquery { a(x: 1, y: 2, x: $v) } => 1;";
    assert_eq!(
        fault_of(text),
        ParseError { fault: ParseFault::DuplicateArgument, offset: 14 }
    );
    assert_eq!(
        fault_of("query { a(x: $x, x: $x) } => $z;"),
        ParseError { fault: ParseFault::DuplicateArgument, offset: 0 }
    );
    assert!(parse("query { a(x: 1) } => 1; query { a(x: 2) } => 1;").is_ok());
}

#[test]
fn unbound_variables() {
    assert_eq!(
        fault_of("query { a(x: $x) } => $y;"),
        ParseError { fault: ParseFault::UnboundVariable, offset: 0 }
    );
    assert_eq!(
        fault_of("query { a(x: $x) } when $y > 1 => $x;"),
        ParseError { fault: ParseFault::UnboundVariable, offset: 0 }
    );
    assert_eq!(
        fault_of("query { a(x: $x) } when 1 > 0 && $x > $z => $x;"),
        ParseError { fault: ParseFault::UnboundVariable, offset: 0 }
    );
    assert_eq!(
        fault_of("query { a(x: 1) } => $x;"),
        ParseError { fault: ParseFault::UnboundVariable, offset: 0 }
    );
    assert_eq!(
        fault_of("query { a } => 1; default => $x;"),
        ParseError { fault: ParseFault::UnboundVariable, offset: 18 }
    );
    assert_eq!(
        fault_of("query { a } => 1; default when $x => 2;"),
        ParseError { fault: ParseFault::UnboundVariable, offset: 18 }
    );
    assert!(parse("query { a(x: $x, y: $y) } when $x > $y => $x * ($y + $x);").is_ok());
}

#[test]
fn the_first_fault_counts() {
    assert_eq!(
        fault_of("query { a(x: $x) } => $y; query { b => 1;"),
        ParseError { fault: ParseFault::UnboundVariable, offset: 0 }
    );
    assert_eq!(
        fault_of("query { b => 1; query { a(x: $x) } => $y;"),
        ParseError { fault: ParseFault::Syntax, offset: 0 }
    );
}

#[test]
fn faults_have_messages() {
    let all = [ParseFault::Syntax, ParseFault::DuplicateArgument, ParseFault::UnboundVariable];
    for fault in all.iter() {
        assert!(!fault.message().is_empty());
    }
    assert_ne!(ParseFault::Syntax.message(), ParseFault::DuplicateArgument.message());
    assert_ne!(ParseFault::Syntax.message(), ParseFault::UnboundVariable.message());
    assert_eq!(ParseFault::DuplicateArgument.message(), "a pattern names one argument twice");
}
