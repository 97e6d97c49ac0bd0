//! Rules, the patterns they carry, and what it means for a rule to apply to a
//! selection of a query.

use crate::bindings::Bindings;
use crate::bytes::{copy_bytes, same_bytes};
use crate::expr::{
    cost_of, evaluate_cost, evaluate_guard, expr_closed, guard_closed, holds, Expr, ExprView,
    Guard, GuardView,
};
use crate::integer::int_value;
use crate::literal::{Literal, LiteralView};
use num_bigint::BigInt;
use vstd::prelude::*;

verus! {

/// What a pattern asks of one argument.
#[derive(Debug, PartialEq, Eq)]
pub enum Constraint {
    /// The argument must have this value.
    Exact(Literal),
    /// The argument must be there; its value is captured under this name.
    Bound(Vec<u8>),
}

/// The mathematical value of a [`Constraint`].
pub enum ConstraintView {
    Exact(LiteralView),
    Bound(Seq<u8>),
}

impl View for Constraint {
    type V = ConstraintView;

    open spec fn view(&self) -> ConstraintView {
        match self {
            Constraint::Exact(l) => ConstraintView::Exact(l@),
            Constraint::Bound(v) => ConstraintView::Bound(v@),
        }
    }
}

/// One argument of a field pattern.
#[derive(Debug, PartialEq, Eq)]
pub struct ArgPattern {
    pub name: Vec<u8>,
    pub constraint: Constraint,
}

/// The mathematical value of an [`ArgPattern`].
pub struct ArgPatternView {
    pub name: Seq<u8>,
    pub constraint: ConstraintView,
}

impl View for ArgPattern {
    type V = ArgPatternView;

    open spec fn view(&self) -> ArgPatternView {
        ArgPatternView { name: self.name@, constraint: self.constraint@ }
    }
}

/// The views of a list of argument patterns.
pub open spec fn arg_views(args: Seq<ArgPattern>) -> Seq<ArgPatternView> {
    args.map_values(|a: ArgPattern| a@)
}

/// A field name and the constraints on its arguments.
#[derive(Debug, PartialEq, Eq)]
pub struct FieldPattern {
    pub field: Vec<u8>,
    pub args: Vec<ArgPattern>,
}

/// The mathematical value of a [`FieldPattern`].
pub struct FieldPatternView {
    pub field: Seq<u8>,
    pub args: Seq<ArgPatternView>,
}

impl View for FieldPattern {
    type V = FieldPatternView;

    open spec fn view(&self) -> FieldPatternView {
        FieldPatternView { field: self.field@, args: arg_views(self.args@) }
    }
}

/// One statement of the rule language. A rule without a pattern is a default
/// rule.
#[derive(Debug, PartialEq, Eq)]
pub struct Rule {
    pub pattern: Option<FieldPattern>,
    pub guard: Option<Guard>,
    pub cost: Expr,
    /// The rule's position among the statements of its source text.
    pub order: usize,
}

/// The mathematical value of a [`Rule`].
pub struct RuleView {
    pub pattern: Option<FieldPatternView>,
    pub guard: Option<GuardView>,
    pub cost: ExprView,
    pub order: int,
}

impl View for Rule {
    type V = RuleView;

    open spec fn view(&self) -> RuleView {
        RuleView {
            pattern: match self.pattern {
                Some(p) => Some(p@),
                None => None,
            },
            guard: match self.guard {
                Some(g) => Some(g@),
                None => None,
            },
            cost: self.cost@,
            order: self.order as int,
        }
    }
}

/// The views of a list of rules.
pub open spec fn rule_views(rules: Seq<Rule>) -> Seq<RuleView> {
    rules.map_values(|r: Rule| r@)
}

/// A top-level field of a query with the values of its arguments.
#[derive(Debug)]
pub struct Selection {
    pub field: Vec<u8>,
    pub args: Bindings,
}

/// The mathematical value of a [`Selection`].
pub struct SelectionView {
    pub field: Seq<u8>,
    pub args: Map<Seq<u8>, LiteralView>,
}

impl View for Selection {
    type V = SelectionView;

    open spec fn view(&self) -> SelectionView {
        SelectionView { field: self.field@, args: self.args@ }
    }
}

/// The views of a list of selections.
pub open spec fn selection_views(s: Seq<Selection>) -> Seq<SelectionView> {
    s.map_values(|x: Selection| x@)
}

/// The argument `p` names is given, and has the value that `p` asks for.
pub open spec fn accepts(p: ArgPatternView, given: Map<Seq<u8>, LiteralView>) -> bool {
    given.contains_key(p.name) && match p.constraint {
        ConstraintView::Exact(l) => given[p.name] == l,
        ConstraintView::Bound(_) => true,
    }
}

/// Every argument pattern is met by the given arguments. Arguments that no
/// pattern names are not looked at.
pub open spec fn args_accept(args: Seq<ArgPatternView>, given: Map<Seq<u8>, LiteralView>) -> bool {
    forall|i: int| 0 <= i < args.len() ==> accepts(#[trigger] args[i], given)
}

/// The pattern is for the selection's field and its arguments are met.
pub open spec fn pattern_matches(p: FieldPatternView, sel: SelectionView) -> bool {
    p.field == sel.field && args_accept(p.args, sel.args)
}

/// The variables that a pattern binds, each to the value of its argument.
/// Where one variable is bound twice, the later argument counts.
pub open spec fn captured(args: Seq<ArgPatternView>, given: Map<Seq<u8>, LiteralView>) -> Map<
    Seq<u8>,
    LiteralView,
>
    decreases args.len(),
{
    if args.len() == 0 {
        Map::empty()
    } else {
        match args.last().constraint {
            ConstraintView::Bound(v) => captured(args.drop_last(), given).insert(
                v,
                given[args.last().name],
            ),
            ConstraintView::Exact(_) => captured(args.drop_last(), given),
        }
    }
}

/// The names of the variables that a pattern binds.
pub open spec fn bound_vars(args: Seq<ArgPatternView>) -> Set<Seq<u8>>
    decreases args.len(),
{
    if args.len() == 0 {
        Set::empty()
    } else {
        match args.last().constraint {
            ConstraintView::Bound(v) => bound_vars(args.drop_last()).insert(v),
            ConstraintView::Exact(_) => bound_vars(args.drop_last()),
        }
    }
}

/// No two argument patterns name the same argument.
pub open spec fn distinct_names(args: Seq<ArgPatternView>) -> bool {
    forall|a: int, b: int| 0 <= a < b < args.len() ==> args[a].name != args[b].name
}

/// The argument patterns of a rule; a default rule has none.
pub open spec fn pattern_args(r: RuleView) -> Seq<ArgPatternView> {
    match r.pattern {
        Some(p) => p.args,
        None => Seq::empty(),
    }
}

/// The number of argument patterns of a rule, and -1 for a default rule: the
/// more a rule asks, the earlier it is tried.
pub open spec fn specificity(r: RuleView) -> int {
    match r.pattern {
        Some(p) => p.args.len() as int,
        None => -1,
    }
}

/// A rule is well formed when its pattern names no argument twice and its
/// guard and cost use only variables that its pattern binds.
pub open spec fn rule_valid(r: RuleView) -> bool {
    &&& distinct_names(pattern_args(r))
    &&& expr_closed(r.cost, bound_vars(pattern_args(r)))
    &&& match r.guard {
        Some(g) => guard_closed(g, bound_vars(pattern_args(r))),
        None => true,
    }
}

/// The cost that a rule gives under the bindings `env`: that of its cost
/// expression, where its guard is absent or true. It gives none where the
/// guard is false, or where the guard or the cost cannot be evaluated on the
/// values bound.
pub open spec fn yield_under(r: RuleView, env: Map<Seq<u8>, LiteralView>) -> Option<int> {
    let open = match r.guard {
        Some(g) => holds(g, env) == Some(true),
        None => true,
    };
    if open {
        cost_of(r.cost, env)
    } else {
        None
    }
}

/// The cost that a field rule gives for a selection: its pattern must match
/// and, with the variables so captured, the rule must give a cost.
pub open spec fn charge_for(r: RuleView, sel: SelectionView) -> Option<int> {
    match r.pattern {
        Some(p) => if pattern_matches(p, sel) {
            yield_under(r, captured(p.args, sel.args))
        } else {
            None
        },
        None => None,
    }
}

/// The rule is a field rule that gives a cost for the selection.
pub open spec fn applies(r: RuleView, sel: SelectionView) -> bool {
    charge_for(r, sel) is Some
}

/// The cost that a default rule gives. It binds no variables.
pub open spec fn default_charge(r: RuleView) -> Option<int> {
    match r.pattern {
        Some(_) => None,
        None => yield_under(r, Map::empty()),
    }
}

/// A pattern captures exactly the variables it binds.
pub proof fn lemma_captured_domain(args: Seq<ArgPatternView>, given: Map<Seq<u8>, LiteralView>)
    ensures
        captured(args, given).dom() == bound_vars(args),
    decreases args.len(),
{
    if args.len() > 0 {
        lemma_captured_domain(args.drop_last(), given);
    }
    assert(captured(args, given).dom() =~= bound_vars(args));
}

/// A variable is bound exactly when some argument pattern binds it.
pub proof fn lemma_bound_vars(args: Seq<ArgPatternView>, var: Seq<u8>)
    ensures
        bound_vars(args).contains(var) <==> exists|i: int|
            0 <= i < args.len() && #[trigger] args[i].constraint == ConstraintView::Bound(var),
    decreases args.len(),
{
    if args.len() > 0 {
        let shorter = args.drop_last();
        lemma_bound_vars(shorter, var);
        if bound_vars(args).contains(var) {
            if args.last().constraint == ConstraintView::Bound(var) {
                assert(args[args.len() - 1].constraint == ConstraintView::Bound(var));
            } else {
                let i = choose|i: int|
                    0 <= i < shorter.len() && #[trigger] shorter[i].constraint
                        == ConstraintView::Bound(var);
                assert(args[i].constraint == ConstraintView::Bound(var));
            }
        }
        if exists|i: int|
            0 <= i < args.len() && #[trigger] args[i].constraint == ConstraintView::Bound(var) {
            let i = choose|i: int|
                0 <= i < args.len() && #[trigger] args[i].constraint == ConstraintView::Bound(var);
            if i < args.len() - 1 {
                assert(shorter[i].constraint == ConstraintView::Bound(var));
            }
        }
    }
}

/// Whether no two argument patterns name the same argument.
pub fn names_distinct(args: &Vec<ArgPattern>) -> (r: bool)
    ensures
        r == distinct_names(arg_views(args@)),
{
    let mut i: usize = 0;
    while i < args.len()
        invariant
            i <= args.len(),
            forall|a: int, b: int| 0 <= a < b < i ==> args@[a].name@ != args@[b].name@,
        decreases args.len() - i,
    {
        let mut j: usize = 0;
        while j < i
            invariant
                j <= i < args.len(),
                forall|a: int| 0 <= a < j ==> args@[a].name@ != args@[i as int].name@,
            decreases i - j,
        {
            if same_bytes(args[j].name.as_slice(), args[i].name.as_slice()) {
                assert(arg_views(args@)[j as int].name == arg_views(args@)[i as int].name);
                return false;
            }
            j += 1;
        }
        i += 1;
    }
    true
}

/// Whether some argument pattern binds the variable `var`.
pub fn binds(args: &Vec<ArgPattern>, var: &[u8]) -> (r: bool)
    ensures
        r == bound_vars(arg_views(args@)).contains(var@),
{
    let mut i: usize = 0;
    while i < args.len()
        invariant
            i <= args.len(),
            forall|j: int|
                0 <= j < i ==> (#[trigger] arg_views(args@)[j]).constraint != ConstraintView::Bound(
                    var@,
                ),
        decreases args.len() - i,
    {
        match &args[i].constraint {
            Constraint::Bound(v) => {
                if same_bytes(v.as_slice(), var) {
                    proof {
                        lemma_bound_vars(arg_views(args@), var@);
                        assert(arg_views(args@)[i as int].constraint == ConstraintView::Bound(
                            var@,
                        ));
                    }
                    return true;
                }
            },
            Constraint::Exact(_) => {},
        }
        i += 1;
    }
    proof {
        lemma_bound_vars(arg_views(args@), var@);
    }
    false
}

/// Whether the argument patterns bind every variable of the expression.
pub fn expr_is_closed(e: &Expr, args: &Vec<ArgPattern>) -> (r: bool)
    ensures
        r == expr_closed(e@, bound_vars(arg_views(args@))),
    decreases e,
{
    match e {
        Expr::Lit(_) => true,
        Expr::Var(v) => binds(args, v.as_slice()),
        Expr::Add(a, b) => expr_is_closed(a, args) && expr_is_closed(b, args),
        Expr::Mul(a, b) => expr_is_closed(a, args) && expr_is_closed(b, args),
    }
}

/// Whether the argument patterns bind every variable of the guard.
pub fn guard_is_closed(g: &Guard, args: &Vec<ArgPattern>) -> (r: bool)
    ensures
        r == guard_closed(g@, bound_vars(arg_views(args@))),
    decreases g,
{
    match g {
        Guard::Truth(e) => expr_is_closed(e, args),
        Guard::Compare(_, a, b) => expr_is_closed(a, args) && expr_is_closed(b, args),
        Guard::And(a, b) => guard_is_closed(a, args) && guard_is_closed(b, args),
    }
}

/// Tests the arguments of a selection against argument patterns and, where
/// all are met, captures the bound variables.
pub fn bind_args(args: &Vec<ArgPattern>, given: &Bindings) -> (r: Option<Bindings>)
    ensures
        r is Some <==> args_accept(arg_views(args@), given@),
        r is Some ==> r.unwrap()@ == captured(arg_views(args@), given@),
{
    let ghost views = arg_views(args@);
    let mut env = Bindings::new();
    let mut i: usize = 0;
    while i < args.len()
        invariant
            i <= args.len(),
            views == arg_views(args@),
            forall|j: int| 0 <= j < i ==> accepts(#[trigger] views[j], given@),
            env@ == captured(views.take(i as int), given@),
        decreases args.len() - i,
    {
        let arg = &args[i];
        assert(views[i as int] == arg@);
        proof {
            assert(views.take(i + 1).drop_last() =~= views.take(i as int));
        }
        match given.get(arg.name.as_slice()) {
            None => {
                assert(!accepts(views[i as int], given@));
                return None;
            },
            Some(value) => match &arg.constraint {
                Constraint::Exact(l) => {
                    if !l.same(value) {
                        assert(!accepts(views[i as int], given@));
                        return None;
                    }
                },
                Constraint::Bound(v) => {
                    env.set(copy_bytes(v.as_slice()), value.copy());
                },
            },
        }
        i += 1;
    }
    assert(views.take(i as int) =~= views);
    Some(env)
}

impl FieldPattern {
    /// The number of arguments that the pattern constrains.
    pub fn specificity(&self) -> (r: usize)
        ensures
            r == self@.args.len(),
    {
        self.args.len()
    }

    /// Matches a selection against the pattern and, on a match, captures the
    /// bound variables.
    pub fn bind(&self, sel: &Selection) -> (r: Option<Bindings>)
        ensures
            r is Some <==> pattern_matches(self@, sel@),
            r is Some ==> r.unwrap()@ == captured(self@.args, sel@.args),
    {
        if same_bytes(self.field.as_slice(), sel.field.as_slice()) {
            bind_args(&self.args, &sel.args)
        } else {
            None
        }
    }
}

impl Rule {
    /// The cost that the rule gives under `env`, which binds every variable
    /// of its guard and its cost.
    pub fn charge_under(&self, env: &Bindings) -> (r: Option<BigInt>)
        requires
            expr_closed(self@.cost, env@.dom()),
            self@.guard is Some ==> guard_closed(self@.guard.unwrap(), env@.dom()),
        ensures
            r is Some <==> yield_under(self@, env@) is Some,
            r is Some ==> int_value(r.unwrap()) == yield_under(self@, env@).unwrap(),
    {
        let open = match &self.guard {
            Some(g) => match evaluate_guard(g, env) {
                Ok(truth) => truth,
                Err(_) => false,
            },
            None => true,
        };
        if open {
            match evaluate_cost(&self.cost, env) {
                Ok(c) => Some(c),
                Err(_) => None,
            }
        } else {
            None
        }
    }

    /// The cost that the rule gives for a selection, if it applies to it.
    pub fn charge(&self, sel: &Selection) -> (r: Option<BigInt>)
        requires
            rule_valid(self@),
        ensures
            r is Some <==> applies(self@, sel@),
            r is Some ==> int_value(r.unwrap()) == charge_for(self@, sel@).unwrap(),
    {
        match &self.pattern {
            Some(p) => match p.bind(sel) {
                Some(env) => {
                    proof {
                        lemma_captured_domain(p@.args, sel@.args);
                    }
                    self.charge_under(&env)
                },
                None => None,
            },
            None => None,
        }
    }

    /// The cost that the rule gives as a default rule, if it is one and its
    /// guard lets it.
    pub fn charge_default(&self) -> (r: Option<BigInt>)
        requires
            rule_valid(self@),
        ensures
            r is Some <==> default_charge(self@) is Some,
            r is Some ==> int_value(r.unwrap()) == default_charge(self@).unwrap(),
    {
        match &self.pattern {
            Some(_) => None,
            None => {
                let env = Bindings::new();
                assert(env@.dom() =~= bound_vars(pattern_args(self@)));
                self.charge_under(&env)
            },
        }
    }
}

} // verus!
