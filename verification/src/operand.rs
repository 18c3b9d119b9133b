//! What may stand to the right of a variable in a sum.

use vstd::prelude::*;
use crate::constraint::LpConstraint;
use crate::decimal::{sum, Decimal, SCALE};
use crate::expression::{ExpressionModel, LpAffineExpression};
use crate::variable::{LpVariable, VariableModel};

verus! {

/// The right-hand operand of a sum, once it is known what it is.
#[derive(Debug, Clone)]
pub enum Other {
    Variable(LpVariable),
    Constraint(LpConstraint),
    AffineExpression(LpAffineExpression),
    Constant(Decimal),
    Unknown,
}

/// The sum of the variable `variable` and `other`: the variable as an
/// expression, with a variable added as a term of coefficient one, a number
/// added to the constant, an expression added whole, a constraint added as its
/// expression, and anything else left out.
pub open spec fn added(variable: VariableModel, other: Other) -> ExpressionModel {
    let base = ExpressionModel::zero().add_term(variable.name, SCALE as int);
    match other {
        Other::Variable(var) => base.add_term(var@.name, SCALE as int),
        Other::Constant(c) => ExpressionModel { terms: base.terms, constant: sum(base.constant, c@) },
        Other::AffineExpression(e) => base.plus(e@),
        Other::Constraint(constraint) => base.plus(constraint@.expr),
        Other::Unknown => base,
    }
}

impl LpVariable {
    /// The sum of this variable and `other`.
    pub fn __add__(&self, other: &Other) -> (r: LpAffineExpression)
        ensures
            r@ == added(self@, *other),
    {
        let mut expr = LpAffineExpression::from_variable(self);
        match other {
            Other::Variable(var) => {
                expr.add_term(var, Decimal::one());
            },
            Other::Constant(c) => {
                expr.constant = expr.constant.plus(*c);
            },
            Other::AffineExpression(e) => {
                expr.addInPlace(e, Decimal::one());
            },
            Other::Constraint(constraint) => {
                expr.addInPlace(&constraint.expr, Decimal::one());
            },
            Other::Unknown => {},
        }
        expr
    }
}

} // verus!
