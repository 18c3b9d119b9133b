//! Affine expressions: a constant plus a weighted sum of variables, each
//! variable known by its name.

use vstd::prelude::*;
use crate::constraint::LpConstraint;
use crate::decimal::{clamp, product, quotient, representable, sum, Decimal, SCALE};
use crate::error::LpError;
use crate::table::{NameMap, Table};
use crate::text::{decimal_text, push_decimal};
use crate::variable::{count_of, LpVariable, VariableModel};

verus! {

/// The counts of a sequence of decimals.
pub open spec fn counts(values: Seq<Decimal>) -> Seq<int> {
    Seq::new(values.len(), |i: int| values[i]@)
}

/// What each variable of a sequence is.
pub open spec fn variable_models(values: Seq<LpVariable>) -> Seq<VariableModel> {
    Seq::new(values.len(), |i: int| values[i]@)
}

/// What a table of variables holds, each variable as what it is.
pub open spec fn assignment(vars: Table<LpVariable>) -> Table<VariableModel> {
    Table { names: vars.names, values: variable_models(vars.values) }
}

/// What an expression is: under each name a coefficient, and a constant, each
/// as its count of billionths.
pub struct ExpressionModel {
    pub terms: Table<int>,
    pub constant: int,
}

impl ExpressionModel {
    /// No name has two coefficients.
    pub open spec fn wf(self) -> bool {
        self.terms.wf()
    }

    /// Every number of the expression is one that a `Decimal` can hold.
    pub open spec fn in_range(self) -> bool {
        &&& representable(self.constant)
        &&& forall|i: int| 0 <= i < self.terms.values.len() ==> representable(#[trigger] self.terms.values[i])
    }

    /// The expression without terms whose constant is zero.
    pub open spec fn zero() -> ExpressionModel {
        ExpressionModel { terms: Table::empty(), constant: 0 }
    }

    /// The coefficient of `name`: zero where the expression has no term for it.
    pub open spec fn coefficient(self, name: Seq<char>) -> int {
        match self.terms.get(name) {
            Some(c) => c,
            None => 0,
        }
    }

    /// The expression with `amount` added to the coefficient of `name`.
    pub open spec fn add_term(self, name: Seq<char>, amount: int) -> ExpressionModel {
        ExpressionModel {
            terms: self.terms.put(name, sum(self.coefficient(name), amount)),
            constant: self.constant,
        }
    }

    /// The expression with the first `n` terms of `other` added, each times
    /// `sign`.
    pub open spec fn add_terms(self, other: Table<int>, sign: int, n: nat) -> ExpressionModel
        decreases n,
    {
        if n == 0 {
            self
        } else {
            self.add_terms(other, sign, (n - 1) as nat).add_term(
                other.names[n - 1],
                product(other.values[n - 1], sign),
            )
        }
    }

    /// The expression with `other` times `sign` added: the constant and every
    /// term.
    pub open spec fn add_in_place(self, other: ExpressionModel, sign: int) -> ExpressionModel {
        ExpressionModel {
            terms: self.add_terms(other.terms, sign, other.terms.len()).terms,
            constant: sum(self.constant, product(other.constant, sign)),
        }
    }

    /// The sum of two expressions.
    pub open spec fn plus(self, other: ExpressionModel) -> ExpressionModel {
        self.add_in_place(other, SCALE as int)
    }

    /// The difference of two expressions.
    pub open spec fn minus(self, other: ExpressionModel) -> ExpressionModel {
        self.add_in_place(other, -(SCALE as int))
    }

    /// The expression with the sign of the constant and of every coefficient
    /// changed.
    pub open spec fn negated(self) -> ExpressionModel {
        ExpressionModel {
            terms: Table {
                names: self.terms.names,
                values: Seq::new(self.terms.values.len(), |i: int| -self.terms.values[i]),
            },
            constant: -self.constant,
        }
    }

    /// The expression with the constant and every coefficient times `k`.
    pub open spec fn scaled(self, k: int) -> ExpressionModel {
        ExpressionModel {
            terms: Table {
                names: self.terms.names,
                values: Seq::new(self.terms.values.len(), |i: int| product(self.terms.values[i], k)),
            },
            constant: product(self.constant, k),
        }
    }

    /// The expression with the constant and every coefficient over `k`.
    pub open spec fn divided(self, k: int) -> ExpressionModel {
        ExpressionModel {
            terms: Table {
                names: self.terms.names,
                values: Seq::new(self.terms.values.len(), |i: int| quotient(self.terms.values[i], k)),
            },
            constant: quotient(self.constant, k),
        }
    }

    /// The value that `vars` gives to `name`, if it holds a variable of that
    /// name and that variable has a value.
    pub open spec fn assigned(vars: Table<VariableModel>, name: Seq<char>) -> Option<int> {
        match vars.get(name) {
            Some(v) => v.value,
            None => None,
        }
    }

    /// The sum of the first `n` terms, each coefficient times the value that
    /// `vars` gives to its variable; nothing where one of those variables is
    /// missing from `vars` or has no value.
    pub open spec fn terms_total(self, vars: Table<VariableModel>, n: nat) -> Option<int>
        decreases n,
    {
        if n == 0 {
            Some(0int)
        } else {
            match (
                self.terms_total(vars, (n - 1) as nat),
                Self::assigned(vars, self.terms.names[n - 1]),
            ) {
                (Some(t), Some(v)) => Some(t + product(v, self.terms.values[n - 1])),
                _ => None,
            }
        }
    }

    /// The sum of the first `n` terms, a variable that is missing from `vars` or
    /// has no value counting as zero.
    pub open spec fn terms_total_or_default(self, vars: Table<VariableModel>, n: nat) -> int
        decreases n,
    {
        if n == 0 {
            0
        } else {
            self.terms_total_or_default(vars, (n - 1) as nat) + product(
                match Self::assigned(vars, self.terms.names[n - 1]) {
                    Some(v) => v,
                    None => 0,
                },
                self.terms.values[n - 1],
            )
        }
    }

    /// The value of the expression under `vars`: the constant plus every term;
    /// nothing where a variable of a term is missing from `vars` or has no
    /// value.
    pub open spec fn value(self, vars: Table<VariableModel>) -> Option<int> {
        match self.terms_total(vars, self.terms.len()) {
            Some(t) => Some(clamp(self.constant + t)),
            None => None,
        }
    }

    /// The value of the expression under `vars`, a variable that is missing from
    /// `vars` or has no value counting as zero.
    pub open spec fn value_or_default(self, vars: Table<VariableModel>) -> int {
        clamp(self.constant + self.terms_total_or_default(vars, self.terms.len()))
    }

    /// Whether the expression is a single variable: one term with coefficient
    /// one, and the constant zero.
    pub open spec fn is_atomic(self) -> bool {
        self.terms.len() == 1 && self.constant == 0 && self.terms.values[0] == SCALE
    }

    /// Whether the expression has no term.
    pub open spec fn is_numerical_constant(self) -> bool {
        self.terms.len() == 0
    }

    /// The name of the first term, if there is a term.
    pub open spec fn atom(self) -> Option<Seq<char>> {
        if self.terms.len() == 0 {
            None
        } else {
            Some(self.terms.names[0])
        }
    }

    /// The first `n` terms as text: each as its coefficient, a star, its name
    /// and a plus sign between blanks.
    pub open spec fn terms_text(self, n: nat) -> Seq<char>
        decreases n,
    {
        if n == 0 {
            Seq::empty()
        } else {
            self.terms_text((n - 1) as nat) + decimal_text(self.terms.values[n - 1]) + "*"@
                + self.terms.names[n - 1] + " + "@
        }
    }

    /// The expression as text: its terms, then its constant.
    pub open spec fn text(self) -> Seq<char> {
        self.terms_text(self.terms.len()) + decimal_text(self.constant)
    }

    /// Once a prefix of the terms has no total, no longer prefix has one.
    pub proof fn lemma_total_stays_missing(self, vars: Table<VariableModel>, k: nat, n: nat)
        requires
            k <= n,
            self.terms_total(vars, k) is None,
        ensures
            self.terms_total(vars, n) is None,
        decreases n,
    {
        if k < n {
            self.lemma_total_stays_missing(vars, k, (n - 1) as nat);
        }
    }

    /// Where every term has a value, the total with missing values counted as
    /// zero is the total.
    pub proof fn lemma_total_or_default(self, vars: Table<VariableModel>, n: nat)
        requires
            self.terms_total(vars, n) is Some,
        ensures
            self.terms_total_or_default(vars, n) == self.terms_total(vars, n)->0,
        decreases n,
    {
        if n > 0 {
            self.lemma_total_or_default(vars, (n - 1) as nat);
        }
    }

    /// Where the expression has a value, its value with missing values counted
    /// as zero is that value.
    pub proof fn lemma_value_or_default(self, vars: Table<VariableModel>)
        requires
            self.value(vars) is Some,
        ensures
            self.value_or_default(vars) == self.value(vars)->0,
    {
        self.lemma_total_or_default(vars, self.terms.len());
    }

    /// Adding to a coefficient keeps the expression well-formed and changes
    /// that coefficient and no other.
    pub proof fn lemma_add_term(self, name: Seq<char>, amount: int)
        requires
            self.wf(),
        ensures
            self.add_term(name, amount).wf(),
            self.add_term(name, amount).constant == self.constant,
            self.add_term(name, amount).coefficient(name) == sum(self.coefficient(name), amount),
            forall|other: Seq<char>|
                other != name ==> #[trigger] self.add_term(name, amount).coefficient(other)
                    == self.coefficient(other),
            forall|other: Seq<char>|
                #[trigger] self.add_term(name, amount).terms.contains(other) <==> (other == name
                    || self.terms.contains(other)),
    {
        self.terms.lemma_put(name, sum(self.coefficient(name), amount));
    }

    /// Adding a prefix of the terms of a well-formed table changes the
    /// coefficient of each name in that prefix, once, and no other.
    pub proof fn lemma_add_terms(self, other: Table<int>, sign: int, n: nat)
        requires
            self.wf(),
            other.wf(),
            n <= other.len(),
        ensures
            self.add_terms(other, sign, n).wf(),
            self.add_terms(other, sign, n).constant == self.constant,
            forall|name: Seq<char>|
                #[trigger] self.add_terms(other, sign, n).coefficient(name) == if other.contains(name)
                    && other.position(name) < n {
                    sum(self.coefficient(name), product(other.values[other.position(name)], sign))
                } else {
                    self.coefficient(name)
                },
            forall|name: Seq<char>|
                #[trigger] self.add_terms(other, sign, n).terms.contains(name) <==> (
                self.terms.contains(name) || (other.contains(name) && other.position(name) < n)),
        decreases n,
    {
        if n > 0 {
            let before = self.add_terms(other, sign, (n - 1) as nat);
            let last = other.names[n - 1];
            let amount = product(other.values[n - 1], sign);
            self.lemma_add_terms(other, sign, (n - 1) as nat);
            before.lemma_add_term(last, amount);
            other.lemma_position(n - 1);
            let after = self.add_terms(other, sign, n);
            assert(after == before.add_term(last, amount));
            assert forall|name: Seq<char>| #[trigger] after.coefficient(name) == if other.contains(
                name,
            ) && other.position(name) < n {
                sum(self.coefficient(name), product(other.values[other.position(name)], sign))
            } else {
                self.coefficient(name)
            } by {
                if name == last {
                } else {
                    assert(after.coefficient(name) == before.coefficient(name));
                    if other.contains(name) {
                        let p = other.position(name);
                        assert(other.names[p] == name);
                        assert(p != n - 1);
                    }
                }
            }
            assert forall|name: Seq<char>| #[trigger] after.terms.contains(name) <==> (
            self.terms.contains(name) || (other.contains(name) && other.position(name) < n)) by {
                if name == last {
                } else {
                    if other.contains(name) {
                        let p = other.position(name);
                        assert(other.names[p] == name);
                        assert(p != n - 1);
                    }
                }
            }
        }
    }

    /// Adding an expression changes the coefficient of each of its names by
    /// that name's coefficient times `sign`, and no other.
    pub proof fn lemma_add_in_place(self, other: ExpressionModel, sign: int)
        requires
            self.wf(),
            other.wf(),
        ensures
            self.add_in_place(other, sign).wf(),
            self.add_in_place(other, sign).constant == sum(
                self.constant,
                product(other.constant, sign),
            ),
            forall|name: Seq<char>|
                #[trigger] self.add_in_place(other, sign).coefficient(name) == if other.terms.contains(
                    name,
                ) {
                    sum(self.coefficient(name), product(other.coefficient(name), sign))
                } else {
                    self.coefficient(name)
                },
            forall|name: Seq<char>|
                #[trigger] self.add_in_place(other, sign).terms.contains(name) <==> (
                self.terms.contains(name) || other.terms.contains(name)),
    {
        self.lemma_add_terms(other.terms, sign, other.terms.len());
        let merged = self.add_terms(other.terms, sign, other.terms.len());
        let after = self.add_in_place(other, sign);
        assert(after.terms == merged.terms);
        assert forall|name: Seq<char>| #[trigger] after.coefficient(name) == if other.terms.contains(
            name,
        ) {
            sum(self.coefficient(name), product(other.coefficient(name), sign))
        } else {
            self.coefficient(name)
        } by {
            assert(after.coefficient(name) == merged.coefficient(name));
            if other.terms.contains(name) {
                let p = other.terms.position(name);
                assert(0 <= p < other.terms.len());
            }
        }
        assert forall|name: Seq<char>| #[trigger] after.terms.contains(name) <==> (
        self.terms.contains(name) || other.terms.contains(name)) by {
            assert(after.terms.contains(name) == merged.terms.contains(name));
            if other.terms.contains(name) {
                let p = other.terms.position(name);
                assert(0 <= p < other.terms.len());
            }
        }
    }
}

/// A constant plus a weighted sum of variables.
#[derive(Debug)]
pub struct LpAffineExpression {
    pub terms: NameMap<Decimal>,
    pub constant: Decimal,
}

impl View for LpAffineExpression {
    type V = ExpressionModel;

    open spec fn view(&self) -> ExpressionModel {
        ExpressionModel {
            terms: Table { names: self.terms@.names, values: counts(self.terms@.values) },
            constant: self.constant@,
        }
    }
}

impl Clone for LpAffineExpression {
    fn clone(&self) -> (r: Self)
        ensures
            r@ == self@,
    {
        let terms = self.terms.clone();
        assert(counts(terms@.values) =~= counts(self.terms@.values));
        LpAffineExpression { terms, constant: self.constant }
    }
}

#[allow(non_snake_case)]
impl LpAffineExpression {
    /// The expression without terms whose constant is zero.
    pub fn init() -> (r: Self)
        ensures
            r@ == ExpressionModel::zero(),
    {
        let r = Self { terms: NameMap::new(), constant: Decimal::zero() };
        assert(counts(r.terms@.values) =~= Seq::empty());
        r
    }

    /// The expression that is the variable `var`.
    pub fn from_variable(var: &LpVariable) -> (r: Self)
        ensures
            r@ == ExpressionModel::zero().add_term(var@.name, SCALE as int),
            r@.is_atomic(),
            r@.atom() == Some(var@.name),
    {
        let mut r = Self::init();
        r.add_term(var, Decimal::one());
        r
    }

    /// The expression that is the number `c`.
    pub fn from_constant(c: Decimal) -> (r: Self)
        ensures
            r@ == (ExpressionModel { terms: Table::empty(), constant: c@ }),
    {
        let r = Self { terms: NameMap::new(), constant: c };
        assert(counts(r.terms@.values) =~= Seq::empty());
        r
    }

    /// A copy of `expr`.
    pub fn from_expression(expr: &LpAffineExpression) -> (r: Self)
        ensures
            r@ == expr@,
    {
        expr.clone()
    }

    /// A copy of the expression of `constraint`.
    pub fn from_constraint(constraint: &LpConstraint) -> (r: Self)
        ensures
            r@ == constraint@.expr,
    {
        constraint.expr.clone()
    }

    /// Adds `coeff` to the coefficient of the variable `var`.
    pub fn add_term(&mut self, var: &LpVariable, coeff: Decimal)
        ensures
            final(self)@ == old(self)@.add_term(var@.name, coeff@),
    {
        self.add_named(var.name.as_str(), coeff);
    }

    /// Adds `amount` to the coefficient of `name`.
    fn add_named(&mut self, name: &str, amount: Decimal)
        ensures
            final(self)@ == old(self)@.add_term(name@, amount@),
    {
        let current = match self.terms.get(name) {
            Some(c) => *c,
            None => Decimal::zero(),
        };
        let ghost before = self.terms@;
        let total = current.plus(amount);
        self.terms.insert(name.to_owned(), total);
        proof {
            let model = old(self)@;
            assert(model.terms.names == before.names);
            assert(model.terms.contains(name@) == before.contains(name@));
            assert(model.terms.position(name@) == before.position(name@));
            if before.contains(name@) {
                let p = before.position(name@);
                assert(0 <= p < before.names.len());
                assert(model.terms.values[p] == before.values[p]@);
                assert(counts(before.values.update(p, total)) =~= counts(before.values).update(
                    p,
                    total@,
                ));
            } else {
                assert(counts(before.values.push(total)) =~= counts(before.values).push(total@));
            }
        }
    }

    /// Adds `other` times `sign`: the constant and every term.
    pub fn addInPlace(&mut self, other: &LpAffineExpression, sign: Decimal)
        ensures
            final(self)@ == old(self)@.add_in_place(other@, sign@),
    {
        self.constant = self.constant.plus(other.constant.times(sign));
        let n: usize = other.terms.len();
        let mut i: usize = 0;
        while i < n
            invariant
                i <= n,
                n == other.terms@.len(),
                other.terms@.wf(),
                self.constant@ == sum(old(self)@.constant, product(other@.constant, sign@)),
                self@.terms == old(self)@.add_terms(other@.terms, sign@, i as nat).terms,
            decreases n - i,
        {
            let name = other.terms.name_at(i);
            let c = *other.terms.value_at(i);
            let ghost before = self@;
            self.add_named(name.as_str(), c.times(sign));
            proof {
                let grown = old(self)@.add_terms(other@.terms, sign@, i as nat);
                assert(before.terms == grown.terms);
                assert(before.coefficient(name@) == grown.coefficient(name@));
                assert(other@.terms.names[i as int] == name@);
                assert(other@.terms.values[i as int] == c@);
                assert(self@.terms == grown.add_term(name@, product(c@, sign@)).terms);
            }
            i += 1;
        }
    }

    /// Subtracts `other`: the constant and every term.
    pub fn subInPlace(&mut self, other: &LpAffineExpression)
        ensures
            final(self)@ == old(self)@.minus(other@),
    {
        self.addInPlace(other, Decimal::one().negated());
    }
    /// The sum of two expressions.
    pub fn add(self, rhs: LpAffineExpression) -> (r: Self)
        ensures
            r@ == self@.plus(rhs@),
    {
        let mut r = self;
        r.addInPlace(&rhs, Decimal::one());
        r
    }

    /// The difference of two expressions.
    pub fn sub(self, rhs: LpAffineExpression) -> (r: Self)
        ensures
            r@ == self@.minus(rhs@),
    {
        let mut r = self;
        r.subInPlace(&rhs);
        r
    }

    /// The expression with the sign of the constant and of every coefficient
    /// changed.
    pub fn neg(self) -> (r: Self)
        ensures
            r@ == self@.negated(),
    {
        let mut r = self;
        r.constant = r.constant.negated();
        let n: usize = r.terms.len();
        let mut i: usize = 0;
        while i < n
            invariant
                i <= n,
                n == self.terms@.len(),
                r.terms@.names == self.terms@.names,
                r.terms@.values.len() == n,
                r.constant@ == -self.constant@,
                forall|j: int| 0 <= j < i ==> (#[trigger] r.terms@.values[j])@ == -self.terms@.values[j]@,
                forall|j: int| i <= j < n ==> #[trigger] r.terms@.values[j] == self.terms@.values[j],
            decreases n - i,
        {
            let v = *r.terms.value_at(i);
            r.terms.set_value_at(i, v.negated());
            i += 1;
        }
        assert(r@.terms.values =~= self@.negated().terms.values);
        r
    }

    /// The expression with the constant and every coefficient times `rhs`.
    pub fn mul(self, rhs: Decimal) -> (r: Self)
        ensures
            r@ == self@.scaled(rhs@),
    {
        let mut r = self;
        r.constant = r.constant.times(rhs);
        let n: usize = r.terms.len();
        let mut i: usize = 0;
        while i < n
            invariant
                i <= n,
                n == self.terms@.len(),
                r.terms@.names == self.terms@.names,
                r.terms@.values.len() == n,
                r.constant@ == product(self.constant@, rhs@),
                forall|j: int|
                    0 <= j < i ==> (#[trigger] r.terms@.values[j])@ == product(
                        self.terms@.values[j]@,
                        rhs@,
                    ),
                forall|j: int| i <= j < n ==> #[trigger] r.terms@.values[j] == self.terms@.values[j],
            decreases n - i,
        {
            let v = *r.terms.value_at(i);
            r.terms.set_value_at(i, v.times(rhs));
            i += 1;
        }
        assert(r@.terms.values =~= self@.scaled(rhs@).terms.values);
        r
    }

    /// The expression with the constant and every coefficient over `rhs`; an
    /// error where `rhs` is zero.
    pub fn div(self, rhs: Decimal) -> (r: Result<Self, LpError>)
        ensures
            rhs@ == 0 <==> r is Err,
            r matches Err(e) ==> e == LpError::DivisionByZero,
            r matches Ok(q) ==> q@ == self@.divided(rhs@),
    {
        let mut r = self;
        r.constant = match r.constant.over(rhs) {
            Some(q) => q,
            None => {
                return Err(LpError::DivisionByZero);
            },
        };
        let n: usize = r.terms.len();
        let mut i: usize = 0;
        while i < n
            invariant
                i <= n,
                rhs@ != 0,
                n == self.terms@.len(),
                r.terms@.names == self.terms@.names,
                r.terms@.values.len() == n,
                r.constant@ == quotient(self.constant@, rhs@),
                forall|j: int|
                    0 <= j < i ==> (#[trigger] r.terms@.values[j])@ == quotient(
                        self.terms@.values[j]@,
                        rhs@,
                    ),
                forall|j: int| i <= j < n ==> #[trigger] r.terms@.values[j] == self.terms@.values[j],
            decreases n - i,
        {
            let v = *r.terms.value_at(i);
            let q = match v.over(rhs) {
                Some(q) => q,
                None => v,
            };
            r.terms.set_value_at(i, q);
            i += 1;
        }
        assert(r@.terms.values =~= self@.divided(rhs@).terms.values);
        Ok(r)
    }

    /// Whether the expression is a single variable: one term with coefficient
    /// one, and the constant zero.
    pub fn isAtomic(&self) -> (r: bool)
        ensures
            r == self@.is_atomic(),
    {
        self.terms.len() == 1 && self.constant.is_zero() && self.terms.value_at(0).raw() == SCALE
    }

    /// Whether the expression has no term.
    pub fn isNumericalConstant(&self) -> (r: bool)
        ensures
            r == self@.is_numerical_constant(),
    {
        self.terms.is_empty()
    }

    /// The name of the first term, if there is a term.
    pub fn atom(&self) -> (r: Option<&String>)
        ensures
            r is Some <==> self@.atom() is Some,
            r matches Some(name) ==> self@.atom() == Some(name@),
    {
        if self.terms.len() == 0 {
            None
        } else {
            Some(self.terms.name_at(0))
        }
    }

    /// Appends the expression as text.
    pub(crate) fn push_text(&self, out: &mut String)
        ensures
            final(out)@ == old(out)@ + self@.text(),
    {
        let n: usize = self.terms.len();
        let mut i: usize = 0;
        while i < n
            invariant
                i <= n,
                n == self.terms@.len(),
                self.terms@.wf(),
                out@ == old(out)@ + self@.terms_text(i as nat),
            decreases n - i,
        {
            let ghost before = out@;
            let name = self.terms.name_at(i);
            let coeff = *self.terms.value_at(i);
            push_decimal(out, coeff);
            out.append("*");
            out.append(name.as_str());
            out.append(" + ");
            proof {
                assert(self@.terms.names[i as int] == name@);
                assert(self@.terms.values[i as int] == coeff@);
                assert(out@ =~= old(out)@ + self@.terms_text((i + 1) as nat));
            }
            i += 1;
        }
        push_decimal(out, self.constant);
        assert(out@ =~= old(out)@ + self@.text());
    }

    /// The expression as text: each term as its coefficient, a star, its name
    /// and a plus sign between blanks, then the constant.
    pub fn to_string(&self) -> (r: String)
        ensures
            r@ == self@.text(),
    {
        let mut out = String::new();
        self.push_text(&mut out);
        assert(out@ =~= self@.text());
        out
    }

    /// The value of the expression under `vars`: the constant plus every
    /// coefficient times the value of its variable; nothing where a variable of
    /// a term is missing from `vars` or has no value.
    pub fn value(&self, vars: &NameMap<LpVariable>) -> (r: Option<Decimal>)
        ensures
            count_of(r) == self@.value(assignment(vars@)),
    {
        let n: usize = self.terms.len();
        let mut total: i128 = 0;
        let mut i: usize = 0;
        while i < n
            invariant
                i <= n,
                n == self.terms@.len(),
                self.terms@.wf(),
                self@.terms_total(assignment(vars@), i as nat) == Some(total as int),
                -(i * 9_000_000_000_000_000_000) <= total <= i * 9_000_000_000_000_000_000,
            decreases n - i,
        {
            let name = self.terms.name_at(i);
            let coeff = *self.terms.value_at(i);
            let held = match vars.get(name.as_str()) {
                Some(var) => var.varValue,
                None => None,
            };
            proof {
                assert(assignment(vars@).contains(name@) == vars@.contains(name@));
                if vars@.contains(name@) {
                    let p = vars@.position(name@);
                    assert(0 <= p < vars@.names.len());
                }
                assert(count_of(held) == ExpressionModel::assigned(assignment(vars@), name@));
                assert(self@.terms.names[i as int] == name@);
                assert(self@.terms.values[i as int] == coeff@);
            }
            match held {
                Some(v) => {
                    total = total + v.times(coeff).wide();
                },
                None => {
                    proof {
                        self@.lemma_total_stays_missing(assignment(vars@), (i + 1) as nat, n as nat);
                    }
                    return None;
                },
            }
            i += 1;
        }
        Some(Decimal::from_wide(self.constant.wide() + total))
    }

    /// The value of the expression under `vars`, a variable that is missing from
    /// `vars` or has no value counting as zero.
    pub fn valueOrDefault(&self, vars: &NameMap<LpVariable>) -> (r: Decimal)
        ensures
            r@ == self@.value_or_default(assignment(vars@)),
    {
        let n: usize = self.terms.len();
        let mut total: i128 = 0;
        let mut i: usize = 0;
        while i < n
            invariant
                i <= n,
                n == self.terms@.len(),
                self.terms@.wf(),
                self@.terms_total_or_default(assignment(vars@), i as nat) == total,
                -(i * 9_000_000_000_000_000_000) <= total <= i * 9_000_000_000_000_000_000,
            decreases n - i,
        {
            let name = self.terms.name_at(i);
            let coeff = *self.terms.value_at(i);
            let held = match vars.get(name.as_str()) {
                Some(var) => var.varValue,
                None => None,
            };
            proof {
                assert(assignment(vars@).contains(name@) == vars@.contains(name@));
                if vars@.contains(name@) {
                    let p = vars@.position(name@);
                    assert(0 <= p < vars@.names.len());
                }
                assert(count_of(held) == ExpressionModel::assigned(assignment(vars@), name@));
                assert(self@.terms.names[i as int] == name@);
                assert(self@.terms.values[i as int] == coeff@);
            }
            let v = match held {
                Some(v) => v,
                None => Decimal::zero(),
            };
            total = total + v.times(coeff).wide();
            i += 1;
        }
        Decimal::from_wide(self.constant.wide() + total)
    }
}

/// What each expression of a sequence is.
pub open spec fn expression_models(exprs: Seq<LpAffineExpression>) -> Seq<ExpressionModel> {
    Seq::new(exprs.len(), |i: int| exprs[i]@)
}

/// The sum of the first `n` expressions, added one after the other to the zero
/// expression.
pub open spec fn total_of(exprs: Seq<ExpressionModel>, n: nat) -> ExpressionModel
    decreases n,
{
    if n == 0 {
        ExpressionModel::zero()
    } else {
        total_of(exprs, (n - 1) as nat).plus(exprs[n - 1])
    }
}

/// The `i`-th expression of `a` with its constant times the constant of the
/// `i`-th expression of `b`.
pub open spec fn dot_term(a: Seq<ExpressionModel>, b: Seq<ExpressionModel>, i: int) -> ExpressionModel {
    ExpressionModel { terms: a[i].terms, constant: product(a[i].constant, b[i].constant) }
}

/// The sum of the first `n` dot terms of `a` and `b`.
pub open spec fn dot_of(a: Seq<ExpressionModel>, b: Seq<ExpressionModel>, n: nat) -> ExpressionModel
    decreases n,
{
    if n == 0 {
        ExpressionModel::zero()
    } else {
        dot_of(a, b, (n - 1) as nat).plus(dot_term(a, b, n - 1))
    }
}

/// The sum of the expressions, added one after the other to the zero
/// expression. The sum of none is the zero expression.
pub fn lp_sum(exprs: &[LpAffineExpression]) -> (r: LpAffineExpression)
    ensures
        r@ == total_of(expression_models(exprs@), exprs@.len()),
        exprs@.len() == 0 ==> r@ == ExpressionModel::zero(),
{
    let mut r = LpAffineExpression::init();
    let mut i: usize = 0;
    while i < exprs.len()
        invariant
            i <= exprs@.len(),
            r@ == total_of(expression_models(exprs@), i as nat),
        decreases exprs@.len() - i,
    {
        r.addInPlace(&exprs[i], Decimal::one());
        i += 1;
    }
    r
}

/// The sum, over the places that both sequences have, of the expression of
/// `v1` with its constant times the constant of the expression of `v2`.
pub fn lp_dot(v1: &[LpAffineExpression], v2: &[LpAffineExpression]) -> (r: LpAffineExpression)
    ensures
        r@ == dot_of(
            expression_models(v1@),
            expression_models(v2@),
            if v1@.len() <= v2@.len() {
                v1@.len()
            } else {
                v2@.len()
            },
        ),
{
    let n: usize = if v1.len() <= v2.len() {
        v1.len()
    } else {
        v2.len()
    };
    let mut r = LpAffineExpression::init();
    let mut i: usize = 0;
    while i < n
        invariant
            i <= n,
            n <= v1@.len(),
            n <= v2@.len(),
            r@ == dot_of(expression_models(v1@), expression_models(v2@), i as nat),
        decreases n - i,
    {
        let mut e = v1[i].clone();
        e.constant = e.constant.times(v2[i].constant);
        r.addInPlace(&e, Decimal::one());
        i += 1;
    }
    r
}

} // verus!
