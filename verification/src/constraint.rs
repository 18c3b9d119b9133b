//! Constraints: an expression, a sense and a right-hand side.

use vstd::prelude::*;
use crate::decimal::{magnitude, Decimal};
use crate::expression::{assignment, ExpressionModel, LpAffineExpression};
use crate::table::{NameMap, Table};
use crate::text::{decimal_text, push_decimal};
use crate::variable::{count_of, LpVariable, VariableModel};

verus! {

/// How the expression of a constraint is to compare with its right-hand side.
#[derive(Debug, Clone, Copy, PartialEq, Eq, Structural)]
pub enum LpConstraintSense {
    Eq,
    Le,
    Ge,
}

/// The characters of an optional name.
pub open spec fn name_of(name: Option<String>) -> Option<Seq<char>> {
    match name {
        Some(s) => Some(s@),
        None => None,
    }
}

/// What a constraint is, with every number as its count of billionths.
pub struct ConstraintModel {
    pub expr: ExpressionModel,
    pub sense: LpConstraintSense,
    pub rhs: int,
    pub name: Option<Seq<char>>,
    pub pi: Option<int>,
    pub slack: Option<int>,
}

impl ConstraintModel {
    /// A constraint that no solver has written to.
    pub open spec fn fresh(
        expr: ExpressionModel,
        sense: LpConstraintSense,
        rhs: int,
        name: Option<Seq<char>>,
    ) -> ConstraintModel {
        ConstraintModel { expr, sense, rhs, name, pi: None, slack: None }
    }

    /// The lower bound that the sense implies: the right-hand side of a
    /// greater-or-equal or an equality constraint.
    pub open spec fn lb(self) -> Option<int> {
        match self.sense {
            LpConstraintSense::Ge | LpConstraintSense::Eq => Some(self.rhs),
            LpConstraintSense::Le => None,
        }
    }

    /// The upper bound that the sense implies: the right-hand side of a
    /// less-or-equal or an equality constraint.
    pub open spec fn ub(self) -> Option<int> {
        match self.sense {
            LpConstraintSense::Le | LpConstraintSense::Eq => Some(self.rhs),
            LpConstraintSense::Ge => None,
        }
    }

    /// The sign of the sense.
    pub open spec fn sense_text(self) -> Seq<char> {
        match self.sense {
            LpConstraintSense::Eq => "="@,
            LpConstraintSense::Le => "<="@,
            LpConstraintSense::Ge => ">="@,
        }
    }

    /// The constraint as text: the expression, the sign of the sense and the
    /// right-hand side, with a blank between them.
    pub open spec fn text(self) -> Seq<char> {
        self.expr.text() + " "@ + self.sense_text() + " "@ + decimal_text(self.rhs)
    }

    /// The value of the expression under `vars`, if it has one.
    pub open spec fn value(self, vars: Table<VariableModel>) -> Option<int> {
        self.expr.value(vars)
    }

    /// The value of the expression under `vars`, a variable that is missing or
    /// has no value counting as zero.
    pub open spec fn value_or_default(self, vars: Table<VariableModel>) -> int {
        self.expr.value_or_default(vars)
    }

    /// The value that the constraint is judged by: the value of the expression
    /// under `vars`, and zero where it has none.
    pub open spec fn judged_value(self, vars: Table<VariableModel>) -> int {
        match self.value(vars) {
            Some(v) => v,
            None => 0,
        }
    }

    /// Whether the judged value meets the constraint within `eps`: for an
    /// equality its magnitude is at most `eps`, for a less-or-equal it is at
    /// most the right-hand side plus `eps`, for a greater-or-equal it is at
    /// least the right-hand side minus `eps`.
    pub open spec fn valid(self, vars: Table<VariableModel>, eps: int) -> bool {
        match self.sense {
            LpConstraintSense::Eq => magnitude(self.judged_value(vars)) <= eps,
            LpConstraintSense::Le => self.judged_value(vars) <= self.rhs + eps,
            LpConstraintSense::Ge => self.judged_value(vars) >= self.rhs - eps,
        }
    }
}

/// A linear constraint.
#[derive(Debug, Clone)]
pub struct LpConstraint {
    pub expr: LpAffineExpression,
    pub sense: LpConstraintSense,
    pub rhs: Decimal,
    pub name: Option<String>,
    pub pi: Option<Decimal>,
    pub slack: Option<Decimal>,
}

impl View for LpConstraint {
    type V = ConstraintModel;

    open spec fn view(&self) -> ConstraintModel {
        ConstraintModel {
            expr: self.expr@,
            sense: self.sense,
            rhs: self.rhs@,
            name: name_of(self.name),
            pi: count_of(self.pi),
            slack: count_of(self.slack),
        }
    }
}

#[allow(non_snake_case)]
impl LpConstraint {
    /// A constraint without a dual price and without a slack.
    pub fn new(
        expr: LpAffineExpression,
        sense: LpConstraintSense,
        rhs: Decimal,
        name: Option<String>,
    ) -> (r: Self)
        ensures
            r@ == ConstraintModel::fresh(expr@, sense, rhs@, name_of(name)),
    {
        Self { expr, sense, rhs, name, pi: None, slack: None }
    }

    /// The lower bound that the sense implies.
    pub fn getLb(&self) -> (r: Option<Decimal>)
        ensures
            count_of(r) == self@.lb(),
    {
        match self.sense {
            LpConstraintSense::Ge | LpConstraintSense::Eq => Some(self.rhs),
            _ => None,
        }
    }

    /// The upper bound that the sense implies.
    pub fn getUb(&self) -> (r: Option<Decimal>)
        ensures
            count_of(r) == self@.ub(),
    {
        match self.sense {
            LpConstraintSense::Le | LpConstraintSense::Eq => Some(self.rhs),
            _ => None,
        }
    }

    /// The value of the expression under `vars`; nothing where a variable of
    /// the expression is missing from `vars` or has no value.
    pub fn value(&self, vars: &NameMap<LpVariable>) -> (r: Option<Decimal>)
        ensures
            count_of(r) == self@.value(assignment(vars@)),
    {
        self.expr.value(vars)
    }

    /// The value of the expression under `vars`, a variable that is missing or
    /// has no value counting as zero.
    pub fn valueOrDefault(&self, vars: &NameMap<LpVariable>) -> (r: Decimal)
        ensures
            r@ == self@.value_or_default(assignment(vars@)),
    {
        self.expr.valueOrDefault(vars)
    }

    /// Appends the constraint as text.
    pub(crate) fn push_text(&self, out: &mut String)
        ensures
            final(out)@ == old(out)@ + self@.text(),
    {
        self.expr.push_text(out);
        out.append(" ");
        match self.sense {
            LpConstraintSense::Eq => out.append("="),
            LpConstraintSense::Le => out.append("<="),
            LpConstraintSense::Ge => out.append(">="),
        }
        out.append(" ");
        push_decimal(out, self.rhs);
        assert(out@ =~= old(out)@ + self@.text());
    }

    /// The constraint as text: the expression, the sign of the sense and the
    /// right-hand side, with a blank between them.
    pub fn to_string(&self) -> (r: String)
        ensures
            r@ == self@.text(),
    {
        let mut out = String::new();
        self.push_text(&mut out);
        assert(out@ =~= self@.text());
        out
    }

    /// The value that the constraint is judged by: the value of the expression
    /// under `vars`, and zero where it has none.
    pub(crate) fn judged_value(&self, vars: &NameMap<LpVariable>) -> (r: Decimal)
        ensures
            r@ == self@.judged_value(assignment(vars@)),
    {
        match self.value(vars) {
            Some(v) => v,
            None => Decimal::zero(),
        }
    }

    /// Whether the judged value meets the constraint within `eps`.
    pub fn valid(&self, vars: &NameMap<LpVariable>, eps: Decimal) -> (r: bool)
        ensures
            r == self@.valid(assignment(vars@), eps@),
    {
        let val = self.judged_value(vars);
        match self.sense {
            LpConstraintSense::Eq => val.abs().wide() <= eps.wide(),
            LpConstraintSense::Le => val.wide() <= self.rhs.wide() + eps.wide(),
            LpConstraintSense::Ge => val.wide() >= self.rhs.wide() - eps.wide(),
        }
    }
}

} // verus!
