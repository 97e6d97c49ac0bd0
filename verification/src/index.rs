//! The order in which rules are tried, and the index that holds each field's
//! rules in that order.
//!
//! For a selection, the rule that is used is the applicable rule of its field
//! that asks most of the arguments; among equals, the one declared first. The
//! index sorts each field's rules once, so that the first applicable rule
//! met when walking a field's list is that rule.

use crate::bytes::{copy_bytes, same_bytes};
use crate::integer::int_value;
use crate::rule::{
    applies, charge_for, rule_valid, rule_views, specificity, Rule, RuleView, Selection,
    SelectionView,
};
use num_bigint::BigInt;
use vstd::prelude::*;

verus! {

/// The rule is a field rule for `field`.
pub open spec fn has_field(r: RuleView, field: Seq<u8>) -> bool {
    r.pattern is Some && r.pattern.unwrap().field == field
}

/// Each rule records its own position in the list.
pub open spec fn in_order(rules: Seq<RuleView>) -> bool {
    forall|i: int| 0 <= i < rules.len() ==> (#[trigger] rules[i]).order == i
}

/// Every rule of the list is well formed.
pub open spec fn all_valid(rules: Seq<RuleView>) -> bool {
    forall|i: int| 0 <= i < rules.len() ==> rule_valid(#[trigger] rules[i])
}

/// Rule `a` is tried before rule `b`: it is more specific, or as specific
/// and declared earlier.
pub open spec fn precedes(a: RuleView, b: RuleView) -> bool {
    specificity(a) > specificity(b) || (specificity(a) == specificity(b) && a.order < b.order)
}

/// Rule `i` applies to the selection and is tried before every other rule
/// that applies to it.
pub open spec fn is_match(rules: Seq<RuleView>, sel: SelectionView, i: int) -> bool {
    &&& 0 <= i < rules.len()
    &&& applies(rules[i], sel)
    &&& forall|j: int|
        0 <= j < rules.len() && j != i && applies(#[trigger] rules[j], sel) ==> precedes(
            rules[i],
            rules[j],
        )
}

/// The position of the rule that is used for a selection, if any rule
/// applies to it.
pub open spec fn matched(rules: Seq<RuleView>, sel: SelectionView) -> Option<int> {
    if exists|i: int| is_match(rules, sel, i) {
        Some(choose|i: int| is_match(rules, sel, i))
    } else {
        None
    }
}

/// The cost of a selection: what the rule used for it gives.
pub open spec fn selection_cost(rules: Seq<RuleView>, sel: SelectionView) -> Option<int> {
    match matched(rules, sel) {
        Some(i) => charge_for(rules[i], sel),
        None => None,
    }
}

/// At most one rule is the match of a selection.
pub proof fn lemma_match_unique(rules: Seq<RuleView>, sel: SelectionView, i: int, j: int)
    requires
        is_match(rules, sel, i),
        is_match(rules, sel, j),
    ensures
        i == j,
{
    if i != j {
        assert(precedes(rules[i], rules[j]));
        assert(precedes(rules[j], rules[i]));
    }
}

/// A rule that is the match of a selection is the one that `matched` names.
pub proof fn lemma_match_found(rules: Seq<RuleView>, sel: SelectionView, i: int)
    requires
        is_match(rules, sel, i),
    ensures
        matched(rules, sel) == Some(i),
{
    let k = choose|k: int| is_match(rules, sel, k);
    lemma_match_unique(rules, sel, i, k);
}

/// `ranked` lists the positions of exactly the rules for `field`, in the
/// order in which they are tried.
pub open spec fn ranks(ranked: Seq<usize>, rules: Seq<RuleView>, field: Seq<u8>) -> bool {
    &&& forall|k: int|
        0 <= k < ranked.len() ==> (#[trigger] ranked[k]) < rules.len() && has_field(
            rules[ranked[k] as int],
            field,
        )
    &&& forall|k: int, l: int|
        0 <= k < l < ranked.len() ==> precedes(
            rules[(#[trigger] ranked[k]) as int],
            rules[(#[trigger] ranked[l]) as int],
        )
    &&& forall|j: int|
        0 <= j < rules.len() && has_field(#[trigger] rules[j], field) ==> ranked.contains(
            j as usize,
        )
}

/// While a field's list is being filled: rule `idx` belongs in it already.
/// The list is filled by descending specificity and, within one level, in
/// the order of declaration.
pub open spec fn due(r: RuleView, idx: int, field: Seq<u8>, level: int, upto: int) -> bool {
    has_field(r, field) && (specificity(r) > level || (specificity(r) == level && idx < upto))
}

/// While a field's list is being filled: it holds exactly the rules that
/// are due, in the order in which they are tried.
pub open spec fn placed(
    ranked: Seq<usize>,
    rules: Seq<RuleView>,
    field: Seq<u8>,
    level: int,
    upto: int,
) -> bool {
    &&& forall|k: int|
        0 <= k < ranked.len() ==> (#[trigger] ranked[k]) < rules.len() && due(
            rules[ranked[k] as int],
            ranked[k] as int,
            field,
            level,
            upto,
        )
    &&& forall|k: int, l: int|
        0 <= k < l < ranked.len() ==> precedes(
            rules[(#[trigger] ranked[k]) as int],
            rules[(#[trigger] ranked[l]) as int],
        )
    &&& forall|j: int|
        0 <= j < rules.len() && due(#[trigger] rules[j], j, field, level, upto)
            ==> ranked.contains(j as usize)
}

/// The greatest number of argument patterns that any rule of the list has.
fn max_specificity(rules: &Vec<Rule>) -> (top: usize)
    ensures
        forall|i: int| 0 <= i < rules@.len() ==> specificity(#[trigger] rule_views(rules@)[i]) <= top,
{
    let mut top: usize = 0;
    let mut i: usize = 0;
    while i < rules.len()
        invariant
            i <= rules.len(),
            forall|j: int| 0 <= j < i ==> specificity(#[trigger] rule_views(rules@)[j]) <= top,
        decreases rules.len() - i,
    {
        match &rules[i].pattern {
            Some(p) => {
                if p.args.len() > top {
                    top = p.args.len();
                }
            },
            None => {},
        }
        i += 1;
    }
    top
}

/// Lists the rules for `field` in the order in which they are tried.
pub fn rank_field(rules: &Vec<Rule>, field: &[u8]) -> (ranked: Vec<usize>)
    requires
        in_order(rule_views(rules@)),
    ensures
        ranks(ranked@, rule_views(rules@), field@),
{
    let ghost rv = rule_views(rules@);
    let top = max_specificity(rules);
    let mut ranked: Vec<usize> = Vec::new();
    let mut level: usize = top;
    let mut more = true;
    while more
        invariant
            rv == rule_views(rules@),
            in_order(rv),
            level <= top,
            forall|i: int| 0 <= i < rv.len() ==> specificity(#[trigger] rv[i]) <= top,
            placed(ranked@, rv, field@, if more { level as int } else { -1 }, 0),
        decreases (if more { level + 1 } else { 0 }),
    {
        let mut i: usize = 0;
        while i < rules.len()
            invariant
                i <= rules.len(),
                rv == rule_views(rules@),
                in_order(rv),
                placed(ranked@, rv, field@, level as int, i as int),
            decreases rules.len() - i,
        {
            let fits = match &rules[i].pattern {
                Some(p) => p.args.len() == level && same_bytes(p.field.as_slice(), field),
                None => false,
            };
            assert(fits == (has_field(rv[i as int], field@) && specificity(rv[i as int])
                == level));
            if fits {
                let ghost before = ranked@;
                ranked.push(i);
                proof {
                    assert forall|j: int|
                        0 <= j < rv.len() && due(
                            #[trigger] rv[j],
                            j,
                            field@,
                            level as int,
                            i + 1,
                        ) implies ranked@.contains(j as usize) by {
                        if j == i {
                            assert(ranked@[before.len() as int] == i);
                        } else {
                            assert(due(rv[j], j, field@, level as int, i as int));
                            let k = choose|k: int| 0 <= k < before.len() && before[k] == j as usize;
                            assert(ranked@[k] == j as usize);
                        }
                    }
                    assert forall|k: int, l: int| 0 <= k < l < ranked@.len() implies precedes(
                        rv[(#[trigger] ranked@[k]) as int],
                        rv[(#[trigger] ranked@[l]) as int],
                    ) by {
                        if l == before.len() {
                            assert(ranked@[k] == before[k]);
                            assert(due(
                                rv[before[k] as int],
                                before[k] as int,
                                field@,
                                level as int,
                                i as int,
                            ));
                        } else {
                            assert(ranked@[k] == before[k] && ranked@[l] == before[l]);
                        }
                    }
                    assert forall|k: int| 0 <= k < ranked@.len() implies (#[trigger] ranked@[k])
                        < rv.len() && due(
                        rv[ranked@[k] as int],
                        ranked@[k] as int,
                        field@,
                        level as int,
                        i + 1,
                    ) by {
                        if k < before.len() {
                            assert(ranked@[k] == before[k]);
                        }
                    }
                }
            }
            i += 1;
        }
        if level == 0 {
            more = false;
        } else {
            level -= 1;
        }
    }
    ranked
}

/// The rules of one field, in the order in which they are tried.
#[derive(Debug, PartialEq, Eq)]
pub struct FieldEntry {
    pub name: Vec<u8>,
    pub ranked: Vec<usize>,
}

/// The index holds each field's rules in the order in which they are
/// tried, and has an entry for every field that a rule names.
pub open spec fn index_ok(index: Seq<FieldEntry>, rules: Seq<RuleView>) -> bool {
    &&& forall|e: int|
        0 <= e < index.len() ==> ranks((#[trigger] index[e]).ranked@, rules, index[e].name@)
    &&& forall|j: int|
        0 <= j < rules.len() && (#[trigger] rules[j]).pattern is Some ==> exists|e: int|
            0 <= e < index.len() && (#[trigger] index[e]).name@ == rules[j].pattern.unwrap().field
}

/// The position of the first entry for `field`.
pub fn lookup(index: &Vec<FieldEntry>, field: &[u8]) -> (r: Option<usize>)
    ensures
        match r {
            Some(e) => e < index@.len() && index@[e as int].name@ == field@ && forall|d: int|
                0 <= d < e ==> (#[trigger] index@[d]).name@ != field@,
            None => forall|e: int| 0 <= e < index@.len() ==> (#[trigger] index@[e]).name@ != field@,
        },
{
    let mut e: usize = 0;
    while e < index.len()
        invariant
            e <= index.len(),
            forall|d: int| 0 <= d < e ==> (#[trigger] index@[d]).name@ != field@,
        decreases index.len() - e,
    {
        if same_bytes(index[e].name.as_slice(), field) {
            return Some(e);
        }
        e += 1;
    }
    None
}

/// Builds the index of a list of rules.
pub fn build_index(rules: &Vec<Rule>) -> (index: Vec<FieldEntry>)
    requires
        in_order(rule_views(rules@)),
    ensures
        index_ok(index@, rule_views(rules@)),
{
    let ghost rv = rule_views(rules@);
    let mut index: Vec<FieldEntry> = Vec::new();
    let mut i: usize = 0;
    while i < rules.len()
        invariant
            i <= rules.len(),
            rv == rule_views(rules@),
            in_order(rv),
            forall|e: int|
                0 <= e < index@.len() ==> ranks((#[trigger] index@[e]).ranked@, rv, index@[e].name@),
            forall|j: int|
                0 <= j < i && (#[trigger] rv[j]).pattern is Some ==> exists|e: int|
                    0 <= e < index@.len() && (#[trigger] index@[e]).name@
                        == rv[j].pattern.unwrap().field,
        decreases rules.len() - i,
    {
        match &rules[i].pattern {
            Some(p) => {
                let ghost before = index@;
                match lookup(&index, p.field.as_slice()) {
                    Some(e) => {
                        assert(index@[e as int].name@ == rv[i as int].pattern.unwrap().field);
                    },
                    None => {
                        let ranked = rank_field(rules, p.field.as_slice());
                        index.push(FieldEntry { name: copy_bytes(p.field.as_slice()), ranked });
                        proof {
                            let last = before.len() as int;
                            assert(index@[last].name@ == rv[i as int].pattern.unwrap().field);
                            assert forall|j: int|
                                0 <= j < i && (#[trigger] rv[j]).pattern is Some implies exists|
                                e: int,
                            |
                                0 <= e < index@.len() && (#[trigger] index@[e]).name@
                                    == rv[j].pattern.unwrap().field by {
                                let e = choose|e: int|
                                    0 <= e < before.len() && (#[trigger] before[e]).name@
                                        == rv[j].pattern.unwrap().field;
                                assert(index@[e] == before[e]);
                            }
                            assert forall|e: int| 0 <= e < index@.len() implies ranks(
                                (#[trigger] index@[e]).ranked@,
                                rv,
                                index@[e].name@,
                            ) by {
                                if e < before.len() {
                                    assert(index@[e] == before[e]);
                                }
                            }
                        }
                    },
                }
            },
            None => {},
        }
        i += 1;
    }
    index
}

/// Finds the rule that is used for a selection: the first rule in its
/// field's list that applies. Returns the rule's position and the cost it
/// gives.
pub fn find_in(rules: &Vec<Rule>, index: &Vec<FieldEntry>, sel: &Selection) -> (r: Option<
    (usize, BigInt),
>)
    requires
        all_valid(rule_views(rules@)),
        index_ok(index@, rule_views(rules@)),
    ensures
        r is Some <==> matched(rule_views(rules@), sel@) is Some,
        r is Some ==> r.unwrap().0 == matched(rule_views(rules@), sel@).unwrap(),
        r is Some ==> int_value(r.unwrap().1) == selection_cost(rule_views(rules@), sel@).unwrap(),
{
    let ghost rv = rule_views(rules@);
    let count = rules.len();
    match lookup(index, sel.field.as_slice()) {
        None => {
            proof {
                assert forall|i: int| !is_match(rv, sel@, i) by {
                    if is_match(rv, sel@, i) {
                        assert(rv[i].pattern is Some);
                        let e = choose|e: int|
                            0 <= e < index@.len() && (#[trigger] index@[e]).name@
                                == rv[i].pattern.unwrap().field;
                        assert(index@[e].name@ == sel@.field);
                    }
                }
            }
            None
        },
        Some(e) => {
            let entry = &index[e];
            let ghost ranked = entry.ranked@;
            assert(ranks(ranked, rv, sel@.field));
            let mut k: usize = 0;
            while k < entry.ranked.len()
                invariant
                    k <= entry.ranked.len(),
                    count == rules@.len(),
                    rv == rule_views(rules@),
                    all_valid(rv),
                    ranked == entry.ranked@,
                    ranks(ranked, rv, sel@.field),
                    forall|l: int| 0 <= l < k ==> !applies(rv[(#[trigger] ranked[l]) as int], sel@),
                decreases entry.ranked.len() - k,
            {
                let at = entry.ranked[k];
                assert(at == ranked[k as int]);
                let rule = &rules[at];
                assert(rule@ == rv[at as int]);
                match rule.charge(sel) {
                    Some(c) => {
                        proof {
                            assert forall|j: int|
                                0 <= j < rv.len() && j != at && applies(
                                    #[trigger] rv[j],
                                    sel@,
                                ) implies precedes(rv[at as int], rv[j]) by {
                                assert(has_field(rv[j], sel@.field));
                                assert(j < count);
                                assert(ranked.contains(j as usize));
                                let l = choose|l: int|
                                    0 <= l < ranked.len() && ranked[l] == j as usize;
                                assert(ranked[l] == j);
                                if l < k {
                                    assert(!applies(rv[ranked[l] as int], sel@));
                                }
                                assert(k < l);
                            }
                            assert(is_match(rv, sel@, at as int));
                            lemma_match_found(rv, sel@, at as int);
                        }
                        return Some((at, c));
                    },
                    None => {},
                }
                k += 1;
            }
            proof {
                assert forall|i: int| !is_match(rv, sel@, i) by {
                    if is_match(rv, sel@, i) {
                        assert(has_field(rv[i], sel@.field));
                        assert(i < count);
                        assert(ranked.contains(i as usize));
                        let l = choose|l: int| 0 <= l < ranked.len() && ranked[l] == i as usize;
                        assert(!applies(rv[ranked[l] as int], sel@));
                    }
                }
            }
            None
        },
    }
}

} // verus!
