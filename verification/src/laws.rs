//! What holds of every model, every selection and every query: the order in
//! which rules are used, what patterns match, and how a query's cost is
//! made up.

use crate::index::{in_order, is_match, lemma_match_found, matched, precedes, selection_cost};
use crate::model::{fallback_cost, outcome, query_cost, total_cost};
use crate::parser::{parsed, ParseError};
use crate::rule::{
    accepts, applies, charge_for, pattern_matches, specificity, FieldPatternView, RuleView,
    SelectionView,
};
use vstd::prelude::*;

verus! {

/// Specificity decides: a rule that applies to a selection and is more
/// specific than every other rule that applies to it is the rule used,
/// wherever it is declared.
pub proof fn law_specificity_ordering(rules: Seq<RuleView>, sel: SelectionView, i: int)
    requires
        0 <= i < rules.len(),
        applies(rules[i], sel),
        forall|j: int|
            0 <= j < rules.len() && j != i && applies(#[trigger] rules[j], sel) ==> specificity(
                rules[j],
            ) < specificity(rules[i]),
    ensures
        matched(rules, sel) == Some(i),
        selection_cost(rules, sel) == charge_for(rules[i], sel),
{
    assert(is_match(rules, sel, i));
    lemma_match_found(rules, sel, i);
}

/// Among rules of equal specificity the declaration order decides: where
/// the earlier of two such rules applies, the later one is not used,
/// whether or not it applies too.
pub proof fn law_declaration_order(rules: Seq<RuleView>, sel: SelectionView, i: int, j: int)
    requires
        0 <= i < rules.len(),
        0 <= j < rules.len(),
        specificity(rules[i]) == specificity(rules[j]),
        rules[i].order < rules[j].order,
        applies(rules[i], sel),
    ensures
        matched(rules, sel) != Some(j),
{
    if matched(rules, sel) == Some(j) {
        assert(is_match(rules, sel, j));
        assert(precedes(rules[j], rules[i]));
    }
}

/// The rule used is the first in the order of trying: a rule that applies,
/// and that is more specific than, or as specific as and declared before,
/// every other rule that applies, is the rule used.
pub proof fn law_first_in_order_is_used(rules: Seq<RuleView>, sel: SelectionView, i: int)
    requires
        0 <= i < rules.len(),
        applies(rules[i], sel),
        forall|j: int|
            0 <= j < rules.len() && j != i && applies(#[trigger] rules[j], sel) ==> specificity(
                rules[j],
            ) < specificity(rules[i]) || (specificity(rules[j]) == specificity(rules[i])
                && rules[i].order < rules[j].order),
    ensures
        matched(rules, sel) == Some(i),
        selection_cost(rules, sel) == charge_for(rules[i], sel),
{
    assert(is_match(rules, sel, i));
    lemma_match_found(rules, sel, i);
}

/// Among the first `n` rules, rule `b` applies and is tried before every
/// other that applies.
pub open spec fn first_among(rules: Seq<RuleView>, sel: SelectionView, n: int, b: int) -> bool {
    &&& 0 <= b < n
    &&& applies(rules[b], sel)
    &&& forall|j: int|
        0 <= j < n && j != b && applies(#[trigger] rules[j], sel) ==> precedes(rules[b], rules[j])
}

proof fn lemma_first_among(rules: Seq<RuleView>, sel: SelectionView, n: int, witness: int) -> (b:
    int)
    requires
        in_order(rules),
        0 <= witness < n <= rules.len(),
        applies(rules[witness], sel),
    ensures
        first_among(rules, sel, n, b),
    decreases n,
{
    let last = n - 1;
    if witness == last {
        if exists|j: int| 0 <= j < last && applies(#[trigger] rules[j], sel) {
            let other = choose|j: int| 0 <= j < last && applies(#[trigger] rules[j], sel);
            let b0 = lemma_first_among(rules, sel, last, other);
            if precedes(rules[last], rules[b0]) {
                last
            } else {
                b0
            }
        } else {
            last
        }
    } else {
        let b0 = lemma_first_among(rules, sel, last, witness);
        if applies(rules[last], sel) && precedes(rules[last], rules[b0]) {
            last
        } else {
            b0
        }
    }
}

/// Where some rule applies to a selection, a rule is used for it, and no
/// rule that applies is more specific than the rule used.
pub proof fn law_some_rule_is_used(rules: Seq<RuleView>, sel: SelectionView, j: int)
    requires
        in_order(rules),
        0 <= j < rules.len(),
        applies(rules[j], sel),
    ensures
        matched(rules, sel) is Some,
        selection_cost(rules, sel) is Some,
        specificity(rules[matched(rules, sel).unwrap()]) >= specificity(rules[j]),
{
    let b = lemma_first_among(rules, sel, rules.len() as int, j);
    assert(is_match(rules, sel, b));
    lemma_match_found(rules, sel, b);
}

/// Where no rule applies to a selection, none is used for it.
pub proof fn law_no_rule_no_cost(rules: Seq<RuleView>, sel: SelectionView)
    requires
        forall|j: int| 0 <= j < rules.len() ==> !applies(#[trigger] rules[j], sel),
    ensures
        matched(rules, sel) is None,
        selection_cost(rules, sel) is None,
{
    assert forall|i: int| !is_match(rules, sel, i) by {
        if is_match(rules, sel, i) {
            assert(applies(rules[i], sel));
        }
    }
}

/// A pattern without arguments matches every selection of its field,
/// whatever arguments the selection has.
pub proof fn law_bare_pattern(p: FieldPatternView, sel: SelectionView)
    requires
        p.args.len() == 0,
        p.field == sel.field,
    ensures
        pattern_matches(p, sel),
{
}

/// A pattern that binds an argument does not match a selection that lacks
/// this argument, and no rule with this pattern applies to it.
pub proof fn law_bound_argument_required(r: RuleView, sel: SelectionView, k: int)
    requires
        r.pattern is Some,
        0 <= k < r.pattern.unwrap().args.len(),
        r.pattern.unwrap().args[k].constraint is Bound,
        !sel.args.contains_key(r.pattern.unwrap().args[k].name),
    ensures
        !pattern_matches(r.pattern.unwrap(), sel),
        !applies(r, sel),
{
    let p = r.pattern.unwrap();
    assert(!accepts(p.args[k], sel.args));
}

/// The sum of what the rules used give to each selection.
pub open spec fn sum_of_costs(rules: Seq<RuleView>, sels: Seq<SelectionView>) -> int
    decreases sels.len(),
{
    if sels.len() == 0 {
        0
    } else {
        sum_of_costs(rules, sels.drop_last()) + selection_cost(rules, sels.last()).unwrap()
    }
}

/// Where a rule is used for every selection of a query, the query's cost is
/// the sum of what these rules give; the default rules are not looked at.
pub proof fn law_sum(rules: Seq<RuleView>, sels: Seq<SelectionView>)
    requires
        forall|i: int| 0 <= i < sels.len() ==> selection_cost(rules, #[trigger] sels[i]) is Some,
    ensures
        total_cost(rules, sels) == Some(sum_of_costs(rules, sels)),
        query_cost(rules, sels) == Some(sum_of_costs(rules, sels)),
    decreases sels.len(),
{
    if sels.len() > 0 {
        let shorter = sels.drop_last();
        assert forall|i: int| 0 <= i < shorter.len() implies selection_cost(
            rules,
            #[trigger] shorter[i],
        ) is Some by {
            assert(shorter[i] == sels[i]);
        }
        law_sum(rules, shorter);
        assert(sels.last() == sels[sels.len() - 1]);
    }
}

/// Where some selection of a query has no rule, there is no sum.
pub proof fn lemma_no_partial_sum(rules: Seq<RuleView>, sels: Seq<SelectionView>, k: int)
    requires
        0 <= k < sels.len(),
        selection_cost(rules, sels[k]) is None,
    ensures
        total_cost(rules, sels) is None,
    decreases sels.len(),
{
    if k < sels.len() - 1 {
        let shorter = sels.drop_last();
        assert(shorter[k] == sels[k]);
        lemma_no_partial_sum(rules, shorter, k);
    } else {
        assert(sels.last() == sels[k]);
    }
}

/// Where some selection of a query has no rule, the costs of the other
/// selections count for nothing: the query's cost is what the default
/// rules give, which does not depend on the selections, and the query is
/// not costed if they give nothing.
pub proof fn law_fallback(rules: Seq<RuleView>, sels: Seq<SelectionView>, k: int)
    requires
        0 <= k < sels.len(),
        selection_cost(rules, sels[k]) is None,
    ensures
        query_cost(rules, sels) == fallback_cost(rules),
{
    lemma_no_partial_sum(rules, sels, k);
}

/// A cost is never negative.
pub proof fn law_cost_not_negative(rules: Seq<RuleView>, sels: Seq<SelectionView>)
    ensures
        query_cost(rules, sels) is Some ==> query_cost(rules, sels).unwrap() >= 0,
        total_cost(rules, sels) is Some ==> total_cost(rules, sels).unwrap() >= 0,
    decreases sels.len(),
{
    if sels.len() > 0 {
        law_cost_not_negative(rules, sels.drop_last());
    }
}

/// Compiling and costing is a function of the three texts: two models
/// compiled from one rule text come to the same outcome on the same query
/// and variables.
pub proof fn law_determinism(
    text: Seq<u8>,
    query: Seq<u8>,
    variables: Seq<u8>,
    first: Seq<RuleView>,
    second: Seq<RuleView>,
)
    requires
        parsed(text) == Ok::<Seq<RuleView>, ParseError>(first),
        parsed(text) == Ok::<Seq<RuleView>, ParseError>(second),
    ensures
        first == second,
        outcome(first, query, variables) == outcome(second, query, variables),
{
}

} // verus!
