//! What holds of variables, expressions and problems whatever their values.

use vstd::prelude::*;
use vstd::seq_lib::{commutative_foldl, lemma_fold_left_permutation};
use crate::constraint::ConstraintModel;
use crate::decimal::{lemma_product_by_unit, magnitude, representable, SCALE};
use crate::expression::{total_of, ExpressionModel};
use crate::problem::ProblemModel;
use crate::table::Table;
use crate::variable::{LpCategory, VariableModel};

verus! {

/// A fresh binary variable is binary and lies between zero and one, whatever
/// bounds were asked for.
pub proof fn lemma_binary_bounds(name: Seq<char>, low: Option<int>, up: Option<int>)
    ensures
        VariableModel::fresh(name, low, up, LpCategory::Binary).is_binary(),
        VariableModel::fresh(name, low, up, LpCategory::Binary).low == Some(0int),
        VariableModel::fresh(name, low, up, LpCategory::Binary).up == Some(SCALE as int),
{
}

/// Rounding keeps an acceptable value acceptable: where the value keeps both
/// bounds and, for an integer variable, lies at a whole number, each within
/// `eps`, it still does so after the variable was rounded. This is stated of
/// variables whose lower bound does not exceed the upper bound and, for an
/// integer variable, whose bounds lie within `eps` of whole numbers.
pub proof fn lemma_round_keeps_valid(m: VariableModel, eps_int: int, eps: int)
    requires
        m.valid(eps),
        m.bounds_ordered(),
        m.bounds_near_whole(eps),
    ensures
        m.round(eps_int, eps).valid(eps),
{
}

/// The default of a variable without a value is the number nearest to zero
/// that the bounds allow: it keeps both bounds, and no number that keeps both
/// bounds is nearer to zero. This is stated of variables whose lower bound does
/// not exceed the upper bound.
pub proof fn lemma_default_is_nearest_to_zero(m: VariableModel, other: int)
    requires
        m.value is None,
        m.bounds_ordered(),
        m.low matches Some(l) ==> l <= other,
        m.up matches Some(u) ==> other <= u,
    ensures
        m.low matches Some(l) ==> l <= m.value_or_default(),
        m.up matches Some(u) ==> m.value_or_default() <= u,
        magnitude(m.value_or_default()) <= magnitude(other),
{
}

/// A variable that is valid within a tolerance is valid within every larger
/// one.
pub proof fn lemma_variable_valid_within_larger(m: VariableModel, eps: int, larger: int)
    requires
        m.valid(eps),
        eps <= larger,
    ensures
        m.valid(larger),
{
}

/// A constraint that is valid within a tolerance is valid within every larger
/// one.
pub proof fn lemma_constraint_valid_within_larger(
    c: ConstraintModel,
    vars: Table<VariableModel>,
    eps: int,
    larger: int,
)
    requires
        c.valid(vars, eps),
        eps <= larger,
    ensures
        c.valid(vars, larger),
{
}

/// A problem that is valid within a tolerance is valid within every larger
/// one.
pub proof fn lemma_problem_valid_within_larger(p: ProblemModel, eps: int, larger: int)
    requires
        p.valid(eps),
        eps <= larger,
    ensures
        p.valid(larger),
{
    assert forall|i: int| 0 <= i < p.variables.values.len() implies (
    #[trigger] p.variables.values[i]).valid(larger) by {
        lemma_variable_valid_within_larger(p.variables.values[i], eps, larger);
    }
    assert forall|i: int| 0 <= i < p.constraints.values.len() implies (
    #[trigger] p.constraints.values[i]).valid(p.variables, larger) by {
        lemma_constraint_valid_within_larger(p.constraints.values[i], p.variables, eps, larger);
    }
}

/// A variable that is valid at tolerance zero has the gap zero.
pub proof fn lemma_valid_variable_has_no_gap(m: VariableModel, mip: bool)
    requires
        m.valid(0),
    ensures
        m.gap(mip) == 0,
{
}

/// A problem that is valid at tolerance zero has the gap zero. This is stated
/// of problems whose tables hold a value under every name.
pub proof fn lemma_valid_problem_has_no_gap(p: ProblemModel, mip: bool)
    requires
        p.valid(0),
        p.variables.wf(),
        p.constraints.wf(),
    ensures
        p.gap(mip) == 0,
{
    p.lemma_gap_is_largest(mip);
    assert forall|i: int| 0 <= i < p.variables.len() implies magnitude(
        (#[trigger] p.variables.values[i]).gap(mip),
    ) == 0 by {
        lemma_valid_variable_has_no_gap(p.variables.values[i], mip);
    }
}

/// Adding an expression and then subtracting it gives back the constant and
/// every coefficient, a name without a term counting as having the coefficient
/// zero. This is stated of sums that stay within the range of a `Decimal`: the
/// sum of the two constants, and the sum of the two coefficients of every name
/// that the added expression has a term for.
pub proof fn lemma_add_then_subtract(a: ExpressionModel, b: ExpressionModel)
    requires
        a.wf(),
        b.wf(),
        a.in_range(),
        b.in_range(),
        representable(a.constant + b.constant),
        forall|name: Seq<char>|
            b.terms.contains(name) ==> representable(
                #[trigger] a.coefficient(name) + b.coefficient(name),
            ),
    ensures
        a.plus(b).minus(b).constant == a.constant,
        forall|name: Seq<char>| #[trigger] a.plus(b).minus(b).coefficient(name) == a.coefficient(name),
{
    let one = SCALE as int;
    let added = a.plus(b);
    a.lemma_add_in_place(b, one);
    added.lemma_add_in_place(b, -one);
    lemma_product_by_unit(b.constant);
    assert forall|name: Seq<char>| #[trigger] added.minus(b).coefficient(name) == a.coefficient(
        name,
    ) by {
        if b.terms.contains(name) {
            let p = b.terms.position(name);
            assert(0 <= p < b.terms.values.len());
            assert(b.coefficient(name) == b.terms.values[p]);
            lemma_product_by_unit(b.coefficient(name));
            assert(representable(a.coefficient(name) + b.coefficient(name)));
            if a.terms.contains(name) {
                let q = a.terms.position(name);
                assert(0 <= q < a.terms.values.len());
                assert(a.coefficient(name) == a.terms.values[q]);
            }
        }
    }
}

/// The sum of two expressions does not depend on which of the two comes first:
/// the constant and every coefficient are the same, a name without a term
/// counting as having the coefficient zero.
pub proof fn lemma_plus_commutes(a: ExpressionModel, b: ExpressionModel)
    requires
        a.wf(),
        b.wf(),
        a.in_range(),
        b.in_range(),
    ensures
        a.plus(b).constant == b.plus(a).constant,
        forall|name: Seq<char>| #[trigger] a.plus(b).coefficient(name) == b.plus(a).coefficient(name),
{
    let one = SCALE as int;
    a.lemma_add_in_place(b, one);
    b.lemma_add_in_place(a, one);
    lemma_product_by_unit(a.constant);
    lemma_product_by_unit(b.constant);
    assert forall|name: Seq<char>| #[trigger] a.plus(b).coefficient(name) == b.plus(a).coefficient(
        name,
    ) by {
        if a.terms.contains(name) {
            let q = a.terms.position(name);
            assert(0 <= q < a.terms.values.len());
            assert(a.coefficient(name) == a.terms.values[q]);
        }
        if b.terms.contains(name) {
            let p = b.terms.position(name);
            assert(0 <= p < b.terms.values.len());
            assert(b.coefficient(name) == b.terms.values[p]);
        }
        lemma_product_by_unit(a.coefficient(name));
        lemma_product_by_unit(b.coefficient(name));
    }
}

/// The sum of the constants of the expressions.
pub open spec fn constant_sum(exprs: Seq<ExpressionModel>) -> int {
    exprs.fold_left(0int, |acc: int, e: ExpressionModel| acc + e.constant)
}

/// The sum of the coefficients that the expressions have for `name`.
pub open spec fn coefficient_sum(exprs: Seq<ExpressionModel>, name: Seq<char>) -> int {
    exprs.fold_left(0int, |acc: int, e: ExpressionModel| acc + e.coefficient(name))
}

/// Whether the expressions can be summed one after the other without leaving
/// the range of a `Decimal`: after each of them, the sum of the constants and,
/// for every name, the sum of the coefficients can be held.
pub open spec fn summable(exprs: Seq<ExpressionModel>) -> bool {
    &&& forall|i: int| 0 <= i < exprs.len() ==> (#[trigger] exprs[i]).wf() && exprs[i].in_range()
    &&& forall|k: int| 0 <= k <= exprs.len() ==> representable(constant_sum(#[trigger] exprs.take(k)))
    &&& forall|k: int, name: Seq<char>|
        0 <= k <= exprs.len() ==> representable(#[trigger] coefficient_sum(exprs.take(k), name))
}

/// The sum of expressions that can be summed within the range has as its
/// constant the sum of their constants and, for every name, as its coefficient
/// the sum of their coefficients.
pub proof fn lemma_total_is_exact(exprs: Seq<ExpressionModel>, n: nat)
    requires
        n <= exprs.len(),
        summable(exprs),
    ensures
        total_of(exprs, n).wf(),
        total_of(exprs, n).constant == constant_sum(exprs.take(n as int)),
        forall|name: Seq<char>|
            #[trigger] total_of(exprs, n).coefficient(name) == coefficient_sum(
                exprs.take(n as int),
                name,
            ),
    decreases n,
{
    let prefix = exprs.take(n as int);
    if n == 0 {
        assert(total_of(exprs, n) == ExpressionModel::zero());
        assert forall|name: Seq<char>| #[trigger] total_of(exprs, n).coefficient(name) == 0 by {
            assert(!ExpressionModel::zero().terms.contains(name));
        }
    } else {
        lemma_total_is_exact(exprs, (n - 1) as nat);
        let before = total_of(exprs, (n - 1) as nat);
        let last = exprs[n - 1];
        assert(prefix.drop_last() =~= exprs.take(n - 1));
        assert(prefix.last() == last);
        assert(last.wf() && last.in_range());
        before.lemma_add_in_place(last, SCALE as int);
        lemma_product_by_unit(last.constant);
        assert(representable(constant_sum(prefix)));
        assert forall|name: Seq<char>| #[trigger] total_of(exprs, n).coefficient(name)
            == coefficient_sum(prefix, name) by {
            assert(representable(coefficient_sum(prefix, name)));
            if last.terms.contains(name) {
                let p = last.terms.position(name);
                assert(0 <= p < last.terms.values.len());
                assert(last.coefficient(name) == last.terms.values[p]);
                lemma_product_by_unit(last.coefficient(name));
            }
        }
    }
}

/// The order in which expressions are summed does not matter: two sequences
/// that hold the same expressions, each as often as the other, have sums with
/// the same constant and the same coefficient for every name. This is stated of
/// sequences that can be summed within the range in the order they have.
pub proof fn lemma_sum_order(xs: Seq<ExpressionModel>, ys: Seq<ExpressionModel>)
    requires
        xs.to_multiset() == ys.to_multiset(),
        summable(xs),
        summable(ys),
    ensures
        total_of(xs, xs.len()).constant == total_of(ys, ys.len()).constant,
        forall|name: Seq<char>|
            #[trigger] total_of(xs, xs.len()).coefficient(name) == total_of(ys, ys.len()).coefficient(
                name,
            ),
{
    lemma_total_is_exact(xs, xs.len());
    lemma_total_is_exact(ys, ys.len());
    assert(xs.take(xs.len() as int) =~= xs);
    assert(ys.take(ys.len() as int) =~= ys);
    let add_constant = |acc: int, e: ExpressionModel| acc + e.constant;
    assert(commutative_foldl(add_constant));
    lemma_fold_left_permutation(xs, ys, add_constant, 0int);
    assert forall|name: Seq<char>| #[trigger] total_of(xs, xs.len()).coefficient(name) == total_of(
        ys,
        ys.len(),
    ).coefficient(name) by {
        let add_coefficient = |acc: int, e: ExpressionModel| acc + e.coefficient(name);
        assert(commutative_foldl(add_coefficient));
        lemma_fold_left_permutation(xs, ys, add_coefficient, 0int);
    }
}

} // verus!
