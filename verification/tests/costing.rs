use cost_model::bindings::Bindings;
use cost_model::literal::Literal;
use cost_model::rule::Selection;
use cost_model::{CostError, CostModel, ResolveError};
use num_bigint::BigInt;

fn cost_of(rules: &str, query: &str, variables: &str) -> Result<BigInt, CostError> {
    CostModel::compile(rules).unwrap().cost(query, variables)
}

fn big(n: i64) -> BigInt {
    BigInt::from(n)
}

#[test]
fn scenario_literal_beats_variable_beats_bare() {
    let rules = "query{a(skip:10)}=>15; query{a(skip:$skip)} when $skip>10 =>$skip*2; query{a}=>55;";
    assert_eq!(cost_of(rules, "query { a(skip:10) }", ""), Ok(big(15)));
    assert_eq!(cost_of(rules, "query { a(skip:11) }", ""), Ok(big(22)));
    assert_eq!(cost_of(rules, "query { a(skip:9) }", ""), Ok(big(55)));
    assert_eq!(cost_of(rules, "query { a }", ""), Ok(big(55)));
}

#[test]
fn scenario_guards_choose_between_rules() {
    let rules = "query{a}when true=>11; query{b}when false=>12; query{b}when 1==1=>2+2;";
    assert_eq!(cost_of(rules, "query { a }", ""), Ok(big(11)));
    assert_eq!(cost_of(rules, "query { b }", ""), Ok(big(4)));
}

#[test]
fn scenario_sum_or_not_costed() {
    let rules =
        "query{a(skip:$skip)}=>$skip; query{b(bob:$bob)}=>10; query{c}=>9; query{a}=>99; query{d}=>1;";
    assert_eq!(
        cost_of(rules, "query { a(skip:10),b }", ""),
        Err(CostError::QueryNotCosted)
    );
    assert_eq!(cost_of(rules, "query { a(skip:10),b(bob:5) }", ""), Ok(big(20)));
    assert_eq!(cost_of(rules, "query { a,c,d }", ""), Ok(big(109)));
}

#[test]
fn scenario_default_for_unknown_field() {
    let rules = "query{abc}=>2; default=>10;";
    assert_eq!(cost_of(rules, "query { nonsense }", ""), Ok(big(10)));
}

#[test]
fn most_specific_rule_wins_in_every_declaration_order() {
    let two = "query { a(x: $x, y: $y) } => 200;";
    let one = "query { a(x: $x) } => 100;";
    let zero = "query { a } => 50;";
    let orders = [
        [two, one, zero],
        [two, zero, one],
        [one, two, zero],
        [one, zero, two],
        [zero, one, two],
        [zero, two, one],
    ];
    for order in orders.iter() {
        let rules = format!("{} {} {}", order[0], order[1], order[2]);
        assert_eq!(cost_of(&rules, "query { a(x: 1, y: 2) }", ""), Ok(big(200)));
        assert_eq!(cost_of(&rules, "query { a(x: 1) }", ""), Ok(big(100)));
        assert_eq!(cost_of(&rules, "query { a(z: 1) }", ""), Ok(big(50)));
    }
}

#[test]
fn earlier_rule_wins_among_equally_specific() {
    let first = "query { a(x: $x) } when $x > 0 => 1; query { a(x: $x) } when $x > 1 => 2;";
    assert_eq!(cost_of(first, "{ a(x: 5) }", ""), Ok(big(1)));
    let swapped = "query { a(x: $x) } when $x > 1 => 2; query { a(x: $x) } when $x > 0 => 1;";
    assert_eq!(cost_of(swapped, "{ a(x: 5) }", ""), Ok(big(2)));
    assert_eq!(cost_of(swapped, "{ a(x: 1) }", ""), Ok(big(1)));
}

#[test]
fn later_rule_is_used_when_earlier_guard_is_false() {
    let rules = "query { a(x: $x) } when $x > 10 => 1; query { a(x: $x) } when $x > 1 => 2;";
    assert_eq!(cost_of(rules, "{ a(x: 5) }", ""), Ok(big(2)));
    assert_eq!(cost_of(rules, "{ a(x: 1) }", ""), Err(CostError::QueryNotCosted));
}

#[test]
fn bare_pattern_ignores_arguments() {
    let rules = "query { a } => 5;";
    assert_eq!(cost_of(rules, "{ a }", ""), Ok(big(5)));
    assert_eq!(
        cost_of(rules, "{ a(x: 1, y: \"s\", z: true, w: -3) }", ""),
        Ok(big(5))
    );
}

#[test]
fn bound_argument_must_be_present() {
    let rules = "query { a(x: $v) } => 5;";
    assert_eq!(cost_of(rules, "{ a(x: 1) }", ""), Ok(big(5)));
    assert_eq!(cost_of(rules, "{ a }", ""), Err(CostError::QueryNotCosted));
    assert_eq!(cost_of(rules, "{ a(y: 1) }", ""), Err(CostError::QueryNotCosted));
}

#[test]
fn every_pattern_argument_must_be_present() {
    let rules = "query { b(skip: $skip, bob: $bob) } => $skip + $bob;";
    assert_eq!(cost_of(rules, "{ b(skip: 1, bob: 2) }", ""), Ok(big(3)));
    assert_eq!(cost_of(rules, "{ b(bob: 2, skip: 1, more: 9) }", ""), Ok(big(3)));
    assert_eq!(cost_of(rules, "{ b(skip: 1) }", ""), Err(CostError::QueryNotCosted));
    assert_eq!(cost_of(rules, "{ b(bob: 2) }", ""), Err(CostError::QueryNotCosted));
}

#[test]
fn default_replaces_partial_sum() {
    let rules = "query { a } => 5; default => 7;";
    assert_eq!(cost_of(rules, "{ a }", ""), Ok(big(5)));
    assert_eq!(cost_of(rules, "{ a a }", ""), Ok(big(10)));
    assert_eq!(cost_of(rules, "{ a zzz }", ""), Ok(big(7)));
    assert_eq!(cost_of(rules, "{ zzz a a }", ""), Ok(big(7)));
}

#[test]
fn defaults_are_tried_in_declaration_order() {
    let rules = "default when false => 1; default when 2 > 1 => 2; default => 3;";
    assert_eq!(cost_of(rules, "{ a }", ""), Ok(big(2)));
    let none = "query { a } => 1; default when 1 > 2 => 2;";
    assert_eq!(cost_of(none, "{ b }", ""), Err(CostError::QueryNotCosted));
    assert_eq!(cost_of(none, "{ a }", ""), Ok(big(1)));
}

#[test]
fn default_is_not_used_for_a_selection() {
    let rules = "default => 3; query { a } => 1;";
    assert_eq!(cost_of(rules, "{ a a }", ""), Ok(big(2)));
}

#[test]
fn no_selections_cost_zero() {
    let model = CostModel::compile("query { a } => 5;").unwrap();
    let none: Vec<Selection> = Vec::new();
    assert_eq!(model.cost_of_selections(&none), Ok(big(0)));
    let empty = CostModel::compile("").unwrap();
    assert_eq!(empty.len(), 0);
    assert_eq!(empty.cost_of_selections(&none), Ok(big(0)));
    assert_eq!(empty.cost("{ a }", ""), Err(CostError::QueryNotCosted));
}

#[test]
fn selections_can_be_given_directly() {
    let model = CostModel::compile("query { a(n: $n) } => $n * 3; query { b } => 4;").unwrap();
    let mut args = Bindings::new();
    args.set(b"n".to_vec(), Literal::Int(big(5)));
    let sels = vec![
        Selection { field: b"a".to_vec(), args },
        Selection { field: b"b".to_vec(), args: Bindings::new() },
    ];
    assert_eq!(model.cost_of_selections(&sels), Ok(big(19)));
}

#[test]
fn same_inputs_same_result() {
    let rules = "query { a(n: $n) } when $n > 2 => $n * $n + 1; default => 8;";
    let first = CostModel::compile(rules).unwrap();
    let second = CostModel::compile(rules).unwrap();
    for query in ["{ a(n: 3) }", "{ a(n: 1) }", "{ a(n: $v) }", "query ($v: Int) { a(n: $v) }"] {
        let once = first.cost(query, "{\"v\": 7}");
        assert_eq!(once, first.cost(query, "{\"v\": 7}"));
        assert_eq!(once, second.cost(query, "{\"v\": 7}"));
    }
    assert_eq!(first.cost("{ a(n: 3) }", ""), Ok(big(10)));
    assert_eq!(first.cost("{ a(n: 1) }", ""), Ok(big(8)));
    assert_eq!(
        first.cost("{ a(n: $v) }", "{\"v\": 7}"),
        Err(CostError::Resolve(ResolveError::UndeclaredVariable))
    );
    assert_eq!(first.cost("query ($v: Int) { a(n: $v) }", "{\"v\": 7}"), Ok(big(50)));
}

#[test]
fn arithmetic_is_exact_on_large_numbers() {
    let rules = "query { a(n: $n) } => $n * 18446744073709551616 + 1; query { b } => 340282366920938463463374607431768211456;";
    let expected: BigInt = "340282366920938463463374607431768211457".parse().unwrap();
    assert_eq!(cost_of(rules, "{ a(n: 18446744073709551616) }", ""), Ok(expected));
    let literal: BigInt = "340282366920938463463374607431768211456".parse().unwrap();
    assert_eq!(cost_of(rules, "{ b }", ""), Ok(literal));
}

#[test]
fn precedence_and_parentheses() {
    assert_eq!(cost_of("query { a } => 2 + 3 * 4;", "{ a }", ""), Ok(big(14)));
    assert_eq!(cost_of("query { a } => (2 + 3) * 4;", "{ a }", ""), Ok(big(20)));
    assert_eq!(cost_of("query { a } => 2 * 3 + 4 * 5;", "{ a }", ""), Ok(big(26)));
    assert_eq!(cost_of("query { a } => ((7));", "{ a }", ""), Ok(big(7)));
    assert_eq!(cost_of("query { a } => 3 * 4;", "{ a }", ""), Ok(big(12)));
    assert_eq!(cost_of("query { a } => 0;", "{ a }", ""), Ok(big(0)));
}

#[test]
fn negative_arguments() {
    let rules = "query { a(x: -7) } => 9; query { a(x: $x) } when $x < 0 => 1; query { a } => 2;";
    assert_eq!(cost_of(rules, "{ a(x: -5) }", ""), Ok(big(1)));
    assert_eq!(cost_of(rules, "{ a(x: 5) }", ""), Ok(big(2)));
    assert_eq!(cost_of(rules, "{ a(x: -7) }", ""), Ok(big(9)));
    assert_eq!(cost_of(rules, "{ a(x: 7) }", ""), Ok(big(2)));
    assert_eq!(cost_of(rules, "{ a(x: 0) }", ""), Ok(big(2)));
}

#[test]
fn a_negative_cost_is_no_cost() {
    let rules = "query { a(x: $x) } => $x; query { a } => 3;";
    assert_eq!(cost_of(rules, "{ a(x: 4) }", ""), Ok(big(4)));
    assert_eq!(cost_of(rules, "{ a(x: 0) }", ""), Ok(big(0)));
    assert_eq!(cost_of(rules, "{ a(x: -4) }", ""), Ok(big(3)));
    let only = "query { a(x: $x) } => $x * 2;";
    assert_eq!(cost_of(only, "{ a(x: -1) }", ""), Err(CostError::QueryNotCosted));
    let product = "query { a(x: $x, y: $y) } => $x * $y;";
    assert_eq!(cost_of(product, "{ a(x: -2, y: -3) }", ""), Ok(big(6)));
}

#[test]
fn comparisons_on_integers() {
    let rules = "
        query { eq(x: $x) } when $x == 3 => 1;
        query { ne(x: $x) } when $x != 3 => 1;
        query { gt(x: $x) } when $x > 3 => 1;
        query { ge(x: $x) } when $x >= 3 => 1;
        query { lt(x: $x) } when $x < 3 => 1;
        query { le(x: $x) } when $x <= 3 => 1;
        default => 0;
    ";
    let model = CostModel::compile(rules).unwrap();
    let expect = |field: &str, x: i64, hit: bool| {
        let query = format!("{{ {}(x: {}) }}", field, x);
        assert_eq!(model.cost(&query, ""), Ok(big(if hit { 1 } else { 0 })));
    };
    for (x, eq, gt, lt) in [(2, false, false, true), (3, true, false, false), (4, false, true, false)] {
        expect("eq", x, eq);
        expect("ne", x, !eq);
        expect("gt", x, gt);
        expect("ge", x, gt || eq);
        expect("lt", x, lt);
        expect("le", x, lt || eq);
    }
}

#[test]
fn strings_and_truth_values() {
    let rules = "
        query { a(name: \"bob\") } => 1;
        query { a(name: $n) } when $n == \"eve\" => 2;
        query { a(flag: true) } => 3;
        query { a(flag: $f) } when $f => 4;
        query { a(flag: $f) } when $f != true => 5;
        query { a } => 6;
    ";
    assert_eq!(cost_of(rules, "{ a(name: \"bob\") }", ""), Ok(big(1)));
    assert_eq!(cost_of(rules, "{ a(name: \"eve\") }", ""), Ok(big(2)));
    assert_eq!(cost_of(rules, "{ a(name: \"joe\") }", ""), Ok(big(6)));
    assert_eq!(cost_of(rules, "{ a(flag: true) }", ""), Ok(big(3)));
    assert_eq!(cost_of(rules, "{ a(flag: false) }", ""), Ok(big(5)));
    assert_eq!(cost_of(rules, "{ a(name: 7) }", ""), Ok(big(6)));
    let second = "query { a(flag: $f) } when $f => 4; query { a } => 6;";
    assert_eq!(cost_of(second, "{ a(flag: true) }", ""), Ok(big(4)));
    assert_eq!(cost_of(second, "{ a(flag: false) }", ""), Ok(big(6)));
}

#[test]
fn values_of_the_wrong_kind_make_a_rule_not_apply() {
    let rules = "query { a(x: $x) } when $x > 1 => $x; query { a(x: $x) } => 7 ; query { b(x: $x) } => $x * 2; default => 1;";
    assert_eq!(cost_of(rules, "{ a(x: \"s\") }", ""), Ok(big(7)));
    assert_eq!(cost_of(rules, "{ a(x: true) }", ""), Ok(big(7)));
    assert_eq!(cost_of(rules, "{ b(x: true) }", ""), Ok(big(1)));
    assert_eq!(cost_of(rules, "{ b(x: 4) }", ""), Ok(big(8)));
    let exact = "query { a(x: 1) } => 1; query { a(x: \"1\") } => 2; query { a(x: true) } => 3;";
    assert_eq!(cost_of(exact, "{ a(x: \"1\") }", ""), Ok(big(2)));
    assert_eq!(cost_of(exact, "{ a(x: true) }", ""), Ok(big(3)));
    assert_eq!(cost_of(exact, "{ a(x: 1) }", ""), Ok(big(1)));
    assert_eq!(cost_of(exact, "{ a(x: false) }", ""), Err(CostError::QueryNotCosted));
}

#[test]
fn a_variable_bound_twice_takes_the_later_argument() {
    let rules = "query { a(x: $v, y: $v) } => $v;";
    assert_eq!(cost_of(rules, "{ a(x: 1, y: 2) }", ""), Ok(big(2)));
    assert_eq!(cost_of(rules, "{ a(y: 2, x: 1) }", ""), Ok(big(2)));
}

#[test]
fn variables_from_the_payload() {
    let rules = "query { pairs(skip: $k, first: $n) } when $k >= 0 && $n > 0 => $k + $n * 2;";
    let query = "query pairs($skip: Int!, $first: Int = 5) { pairs(skip: $skip, first: $first) { id } }";
    assert_eq!(
        cost_of(rules, query, "{\"skip\": 1, \"first\": 10}"),
        Err(CostError::Resolve(ResolveError::MalformedQuery))
    );
    let query = "query pairs($skip: Int!, $first: [Int!]!) { pairs(skip: $skip, first: $first) { id } }";
    assert_eq!(cost_of(rules, query, "{\"skip\": 1, \"first\": 10}"), Ok(big(21)));
    assert_eq!(
        cost_of(rules, query, "{\"skip\": 1}"),
        Err(CostError::Resolve(ResolveError::UnsuppliedVariable))
    );
    assert_eq!(
        cost_of(rules, query, "{\"skip\": 1, "),
        Err(CostError::Resolve(ResolveError::MalformedVariables))
    );
    assert_eq!(
        cost_of(rules, "{ pairs(skip: 1, skip: 2) }", ""),
        Err(CostError::Resolve(ResolveError::DuplicateArgument))
    );
}

#[test]
fn find_rule_names_the_rule_used() {
    let model = CostModel::compile(
        "query { a } => 1; query { a(x: 3) } => 30; default => 9; query { a(x: $x) } => $x + 1;",
    )
    .unwrap();
    assert_eq!(model.len(), 4);
    let mut args = Bindings::new();
    args.set(b"x".to_vec(), Literal::Int(big(3)));
    let sel = Selection { field: b"a".to_vec(), args };
    let (rule, cost) = model.find_rule(&sel).unwrap();
    assert_eq!(rule.order, 1);
    assert_eq!(cost, big(30));
    let mut args = Bindings::new();
    args.set(b"x".to_vec(), Literal::Int(big(4)));
    let sel = Selection { field: b"a".to_vec(), args };
    let (rule, cost) = model.find_rule(&sel).unwrap();
    assert_eq!(rule.order, 3);
    assert_eq!(cost, big(5));
    let sel = Selection { field: b"a".to_vec(), args: Bindings::new() };
    let (rule, cost) = model.find_rule(&sel).unwrap();
    assert_eq!(rule.order, 0);
    assert_eq!(cost, big(1));
    let sel = Selection { field: b"b".to_vec(), args: Bindings::new() };
    assert!(model.find_rule(&sel).is_none());
    assert_eq!(model.find_default(), Some(big(9)));
}

#[test]
fn a_model_holds_its_rules_its_index_and_its_defaults() {
    let model = CostModel::compile(
        "default when false => 0; query { b } => 1; query { a(x: 1) } => 2; query { b(y: $y) } => 3; default => 4; query { a } => 5; query { a(x: $x) } => 6;",
    )
    .unwrap();
    let orders: Vec<usize> = model.rules().iter().map(|r| r.order).collect();
    assert_eq!(orders, vec![0, 1, 2, 3, 4, 5, 6]);
    let index = model.index();
    assert_eq!(index.len(), 2);
    assert_eq!(index[0].name, b"b".to_vec());
    assert_eq!(index[0].ranked, vec![3, 1]);
    assert_eq!(index[1].name, b"a".to_vec());
    assert_eq!(index[1].ranked, vec![2, 6, 5]);
    assert_eq!(model.defaults(), &vec![0, 4]);
    assert_eq!(model.find_default(), Some(big(4)));
}
