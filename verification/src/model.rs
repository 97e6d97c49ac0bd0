//! The cost model: a compiled rule text, and the cost it gives to a query.

use crate::index::{
    all_valid, build_index, find_in, in_order, index_ok, matched, precedes, selection_cost,
    FieldEntry,
};
use crate::integer::{from_u64, int_value, sum};
use crate::parser::{parse, parsed, ParseError};
use crate::resolve::{resolve, resolved, ResolveError};
use crate::rule::{default_charge, rule_views, selection_views, Rule, RuleView, Selection, SelectionView};
use num_bigint::BigInt;
use vstd::prelude::*;
use vstd::string::StringSliceAdditionalSpecFns;

verus! {

/// Why a query has no cost.
#[derive(Clone, Copy, Debug, PartialEq, Eq, Structural)]
pub enum CostError {
    /// The query could not be resolved into selections.
    Resolve(ResolveError),
    /// Some selection has no rule that applies to it, and no default rule
    /// applies either.
    QueryNotCosted,
}

/// Default rule `i` gives a cost and is declared before every other
/// default rule that gives one.
pub open spec fn is_fallback(rules: Seq<RuleView>, i: int) -> bool {
    &&& 0 <= i < rules.len()
    &&& default_charge(rules[i]) is Some
    &&& forall|j: int|
        0 <= j < rules.len() && j != i && default_charge(#[trigger] rules[j]) is Some ==> precedes(
            rules[i],
            rules[j],
        )
}

/// The position of the default rule that is used, if any gives a cost.
pub open spec fn fallback(rules: Seq<RuleView>) -> Option<int> {
    if exists|i: int| is_fallback(rules, i) {
        Some(choose|i: int| is_fallback(rules, i))
    } else {
        None
    }
}

/// The cost that the default rules give to a query.
pub open spec fn fallback_cost(rules: Seq<RuleView>) -> Option<int> {
    match fallback(rules) {
        Some(i) => default_charge(rules[i]),
        None => None,
    }
}

/// The sum of the costs of the selections, where each of them has one. The
/// sum of no selections is zero.
pub open spec fn total_cost(rules: Seq<RuleView>, sels: Seq<SelectionView>) -> Option<int>
    decreases sels.len(),
{
    if sels.len() == 0 {
        Some(0)
    } else {
        match (total_cost(rules, sels.drop_last()), selection_cost(rules, sels.last())) {
            (Some(a), Some(b)) => Some(a + b),
            _ => None,
        }
    }
}

/// The cost of a query with the given selections: the sum of their costs
/// where each has one, and else what the default rules give.
pub open spec fn query_cost(rules: Seq<RuleView>, sels: Seq<SelectionView>) -> Option<int> {
    match total_cost(rules, sels) {
        Some(c) => Some(c),
        None => fallback_cost(rules),
    }
}

/// What costing a query text with a variables payload comes to.
pub open spec fn outcome(rules: Seq<RuleView>, query: Seq<u8>, variables: Seq<u8>) -> Result<
    int,
    CostError,
> {
    match resolved(query, variables) {
        Err(e) => Err(CostError::Resolve(e)),
        Ok(sels) => match query_cost(rules, sels) {
            Some(c) => Ok(c),
            None => Err(CostError::QueryNotCosted),
        },
    }
}

/// `defaults` lists the positions of exactly the default rules, in the
/// order of their declaration.
pub open spec fn lists_defaults(defaults: Seq<usize>, rules: Seq<RuleView>) -> bool {
    &&& forall|k: int|
        0 <= k < defaults.len() ==> (#[trigger] defaults[k]) < rules.len()
            && rules[defaults[k] as int].pattern is None
    &&& forall|k: int, l: int|
        0 <= k < l < defaults.len() ==> (#[trigger] defaults[k]) < (#[trigger] defaults[l])
    &&& forall|j: int|
        0 <= j < rules.len() && (#[trigger] rules[j]).pattern is None ==> defaults.contains(
            j as usize,
        )
}

/// At most one default rule is the fallback.
pub proof fn lemma_fallback_unique(rules: Seq<RuleView>, i: int, j: int)
    requires
        is_fallback(rules, i),
        is_fallback(rules, j),
    ensures
        i == j,
{
    if i != j {
        assert(precedes(rules[i], rules[j]));
        assert(precedes(rules[j], rules[i]));
    }
}

/// Lists the default rules in the order of their declaration.
fn list_defaults(rules: &Vec<Rule>) -> (defaults: Vec<usize>)
    ensures
        lists_defaults(defaults@, rule_views(rules@)),
{
    let ghost rv = rule_views(rules@);
    let mut defaults: Vec<usize> = Vec::new();
    let mut i: usize = 0;
    while i < rules.len()
        invariant
            i <= rules.len(),
            rv == rule_views(rules@),
            forall|k: int|
                0 <= k < defaults@.len() ==> (#[trigger] defaults@[k]) < i
                    && rv[defaults@[k] as int].pattern is None,
            forall|k: int, l: int|
                0 <= k < l < defaults@.len() ==> (#[trigger] defaults@[k])
                    < (#[trigger] defaults@[l]),
            forall|j: int|
                0 <= j < i && (#[trigger] rv[j]).pattern is None ==> defaults@.contains(j as usize),
        decreases rules.len() - i,
    {
        if rules[i].pattern.is_none() {
            let ghost before = defaults@;
            defaults.push(i);
            proof {
                assert forall|j: int|
                    0 <= j < i + 1 && (#[trigger] rv[j]).pattern is None implies defaults@.contains(
                    j as usize,
                ) by {
                    if j == i {
                        assert(defaults@[before.len() as int] == i);
                    } else {
                        let k = choose|k: int| 0 <= k < before.len() && before[k] == j as usize;
                        assert(defaults@[k] == j as usize);
                    }
                }
            }
        }
        i += 1;
    }
    defaults
}

/// A compiled rule text. It holds the rules in the order of their
/// declaration, an index from each field to its rules in the order in which
/// they are tried, and the list of the default rules. Nothing changes it
/// once it is compiled.
#[derive(Debug)]
pub struct CostModel {
    rules: Vec<Rule>,
    index: Vec<FieldEntry>,
    defaults: Vec<usize>,
}

impl View for CostModel {
    type V = Seq<RuleView>;

    /// The rules of the model, in the order of their declaration.
    closed spec fn view(&self) -> Seq<RuleView> {
        rule_views(self.rules@)
    }
}

impl CostModel {
    #[verifier::type_invariant]
    spec fn well_formed(&self) -> bool {
        &&& all_valid(rule_views(self.rules@))
        &&& in_order(rule_views(self.rules@))
        &&& index_ok(self.index@, rule_views(self.rules@))
        &&& lists_defaults(self.defaults@, rule_views(self.rules@))
    }

    /// Compiles a rule text. The model holds the rules that the text
    /// declares, each well formed and with its position as its order. A
    /// faulty text gives its first fault and no model.
    pub fn compile(text: &str) -> (r: Result<CostModel, ParseError>)
        ensures
            match parsed(text.spec_bytes()) {
                Ok(rules) => r is Ok && r.unwrap()@ == rules,
                Err(e) => r is Err && r.unwrap_err() == e,
            },
            r is Ok ==> all_valid(r.unwrap()@) && in_order(r.unwrap()@),
    {
        match parse(text) {
            Ok(rules) => {
                let index = build_index(&rules);
                let defaults = list_defaults(&rules);
                Ok(CostModel { rules, index, defaults })
            },
            Err(e) => Err(e),
        }
    }

    /// The rules of the model, in the order of their declaration. Each is
    /// well formed and records its position.
    pub fn rules(&self) -> (r: &Vec<Rule>)
        ensures
            rule_views(r@) == self@,
            all_valid(self@),
            in_order(self@),
    {
        proof {
            use_type_invariant(self);
        }
        &self.rules
    }

    /// The index of the model: for each field that a rule names, the
    /// positions of the field's rules, the more specific first and, among
    /// equals, the earlier declared first. It is made when the model is
    /// compiled.
    pub fn index(&self) -> (r: &Vec<FieldEntry>)
        ensures
            index_ok(r@, self@),
    {
        proof {
            use_type_invariant(self);
        }
        &self.index
    }

    /// The positions of the default rules, in the order of their
    /// declaration.
    pub fn defaults(&self) -> (r: &Vec<usize>)
        ensures
            lists_defaults(r@, self@),
    {
        proof {
            use_type_invariant(self);
        }
        &self.defaults
    }

    /// The number of rules of the model, default rules included.
    pub fn len(&self) -> (r: usize)
        ensures
            r == self@.len(),
    {
        self.rules.len()
    }

    /// Finds the rule that is used for a selection: of the rules that apply
    /// to it, the most specific, and among equals the one declared first.
    /// Returns the rule and the cost it gives to the selection.
    pub fn find_rule(&self, sel: &Selection) -> (r: Option<(&Rule, BigInt)>)
        ensures
            r is Some <==> matched(self@, sel@) is Some,
            r is Some ==> r.unwrap().0@ == self@[matched(self@, sel@).unwrap()],
            r is Some ==> int_value(r.unwrap().1) == selection_cost(self@, sel@).unwrap(),
    {
        proof {
            use_type_invariant(self);
        }
        match find_in(&self.rules, &self.index, sel) {
            Some((at, c)) => Some((&self.rules[at], c)),
            None => None,
        }
    }

    /// The cost that the default rules give: that of the first declared
    /// default rule that gives one.
    pub fn find_default(&self) -> (r: Option<BigInt>)
        ensures
            r is Some <==> fallback_cost(self@) is Some,
            r is Some ==> int_value(r.unwrap()) == fallback_cost(self@).unwrap(),
    {
        proof {
            use_type_invariant(self);
        }
        let ghost rv = rule_views(self.rules@);
        let ghost defaults = self.defaults@;
        let count = self.rules.len();
        let mut k: usize = 0;
        while k < self.defaults.len()
            invariant
                k <= self.defaults.len(),
                count == self.rules@.len(),
                rv == rule_views(self.rules@),
                defaults == self.defaults@,
                all_valid(rv),
                in_order(rv),
                lists_defaults(defaults, rv),
                forall|l: int|
                    0 <= l < k ==> default_charge(rv[(#[trigger] defaults[l]) as int]) is None,
            decreases self.defaults.len() - k,
        {
            let at = self.defaults[k];
            assert(at == defaults[k as int]);
            let rule = &self.rules[at];
            assert(rule@ == rv[at as int]);
            match rule.charge_default() {
                Some(c) => {
                    proof {
                        assert forall|j: int|
                            0 <= j < rv.len() && j != at && default_charge(
                                #[trigger] rv[j],
                            ) is Some implies precedes(rv[at as int], rv[j]) by {
                            assert(j < count);
                            assert(defaults.contains(j as usize));
                            let l = choose|l: int|
                                0 <= l < defaults.len() && defaults[l] == j as usize;
                            if l < k {
                                assert(default_charge(rv[defaults[l] as int]) is None);
                            }
                            assert(k < l);
                            assert(defaults[k as int] < defaults[l]);
                        }
                        assert(is_fallback(rv, at as int));
                        let chosen = choose|i: int| is_fallback(rv, i);
                        lemma_fallback_unique(rv, at as int, chosen);
                    }
                    return Some(c);
                },
                None => {},
            }
            k += 1;
        }
        proof {
            assert forall|i: int| !is_fallback(rv, i) by {
                if is_fallback(rv, i) {
                    assert(i < count);
                    assert(defaults.contains(i as usize));
                    let l = choose|l: int| 0 <= l < defaults.len() && defaults[l] == i as usize;
                    assert(default_charge(rv[defaults[l] as int]) is None);
                }
            }
        }
        None
    }

    /// The cost of a query whose selections are given. Where every
    /// selection has a rule that applies to it, the cost is the sum of what
    /// these rules give. Where some selection has none, the sum is dropped
    /// and the cost is what the default rules give; if they give nothing,
    /// the query is not costed.
    pub fn cost_of_selections(&self, sels: &Vec<Selection>) -> (r: Result<BigInt, CostError>)
        ensures
            match query_cost(self@, selection_views(sels@)) {
                Some(c) => r is Ok && int_value(r.unwrap()) == c,
                None => r is Err && r.unwrap_err() == CostError::QueryNotCosted,
            },
            r is Ok ==> int_value(r.unwrap()) >= 0,
    {
        proof {
            use_type_invariant(self);
        }
        let ghost rv = rule_views(self.rules@);
        let ghost views = selection_views(sels@);
        let mut total: Option<BigInt> = Some(from_u64(0));
        let mut i: usize = 0;
        assert(views.take(0) =~= Seq::empty());
        while i < sels.len()
            invariant
                i <= sels.len(),
                rv == rule_views(self.rules@),
                views == selection_views(sels@),
                all_valid(rv),
                index_ok(self.index@, rv),
                match total_cost(rv, views.take(i as int)) {
                    Some(c) => total is Some && int_value(total.unwrap()) == c && c >= 0,
                    None => total is None,
                },
            decreases sels.len() - i,
        {
            proof {
                assert(views.take(i + 1).drop_last() =~= views.take(i as int));
                assert(views.take(i + 1).last() == sels@[i as int]@);
            }
            let found = find_in(&self.rules, &self.index, &sels[i]);
            total = match (total, found) {
                (Some(a), Some((_, c))) => Some(sum(&a, &c)),
                _ => None,
            };
            i += 1;
        }
        assert(views.take(i as int) =~= views);
        match total {
            Some(c) => Ok(c),
            None => match self.find_default() {
                Some(c) => Ok(c),
                None => Err(CostError::QueryNotCosted),
            },
        }
    }

    /// The cost of a query, given as its text and its variables payload.
    /// The query is resolved into selections, which are then costed. A
    /// query that cannot be resolved fails with the reason; one for which
    /// neither the field rules nor the default rules give a cost is not
    /// costed.
    pub fn cost(&self, query: &str, variables: &str) -> (r: Result<BigInt, CostError>)
        ensures
            match outcome(self@, query.spec_bytes(), variables.spec_bytes()) {
                Ok(c) => r is Ok && int_value(r.unwrap()) == c,
                Err(e) => r is Err && r.unwrap_err() == e,
            },
            r is Ok ==> int_value(r.unwrap()) >= 0,
    {
        match resolve(query, variables) {
            Ok(sels) => self.cost_of_selections(&sels),
            Err(e) => Err(CostError::Resolve(e)),
        }
    }
}

} // verus!
