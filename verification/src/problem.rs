//! Problems: an objective, named constraints and the variables they speak of.

use vstd::prelude::*;
use crate::constraint::{ConstraintModel, LpConstraint};
use crate::decimal::{magnitude, Decimal};
use crate::expression::{assignment, variable_models, ExpressionModel, LpAffineExpression};
use crate::table::{NameMap, Table};
use crate::variable::{LpVariable, VariableModel};

verus! {

/// How far a problem has come.
#[derive(Debug, Clone, Copy, PartialEq, Eq, Structural)]
pub enum LpStatus {
    NotSolved,
    Optimal,
    Infeasible,
    Unbounded,
}

/// What each constraint of a sequence is.
pub open spec fn constraint_models(values: Seq<LpConstraint>) -> Seq<ConstraintModel> {
    Seq::new(values.len(), |i: int| values[i]@)
}

/// What a table of constraints holds, each constraint as what it is.
pub open spec fn constraint_table(constraints: Table<LpConstraint>) -> Table<ConstraintModel> {
    Table { names: constraints.names, values: constraint_models(constraints.values) }
}

/// What an optional expression is.
pub open spec fn objective_of(objective: Option<LpAffineExpression>) -> Option<ExpressionModel> {
    match objective {
        Some(e) => Some(e@),
        None => None,
    }
}

/// The larger of two integers.
pub open spec fn larger(a: int, b: int) -> int {
    if a >= b {
        a
    } else {
        b
    }
}

/// What a problem is.
pub struct ProblemModel {
    pub name: Seq<char>,
    pub sense: int,
    pub objective: Option<ExpressionModel>,
    pub constraints: Table<ConstraintModel>,
    pub variables: Table<VariableModel>,
    pub status: LpStatus,
}

impl ProblemModel {
    /// A problem without objective, constraints and variables, not solved.
    pub open spec fn fresh(name: Seq<char>, sense: int) -> ProblemModel {
        ProblemModel {
            name,
            sense,
            objective: None,
            constraints: Table::empty(),
            variables: Table::empty(),
            status: LpStatus::NotSolved,
        }
    }

    /// The problem with `variable` under its own name: in place of the variable
    /// that had the name, or as a new last one.
    pub open spec fn add_variable(self, variable: VariableModel) -> ProblemModel {
        ProblemModel { variables: self.variables.put(variable.name, variable), ..self }
    }

    /// The problem with the first `n` of `variables` added one after the
    /// other.
    pub open spec fn add_variables(self, variables: Seq<VariableModel>, n: nat) -> ProblemModel
        decreases n,
    {
        if n == 0 {
            self
        } else {
            self.add_variables(variables, (n - 1) as nat).add_variable(variables[n - 1])
        }
    }

    /// The problem with `constraint` under `name`: in place of the constraint
    /// that had the name, or as a new last one.
    pub open spec fn add_constraint(self, name: Seq<char>, constraint: ConstraintModel) -> ProblemModel {
        ProblemModel { constraints: self.constraints.put(name, constraint), ..self }
    }

    /// The problem with `objective` as its objective.
    pub open spec fn set_objective(self, objective: ExpressionModel) -> ProblemModel {
        ProblemModel { objective: Some(objective), ..self }
    }

    /// The problem with the status `status`.
    pub open spec fn with_status(self, status: LpStatus) -> ProblemModel {
        ProblemModel { status, ..self }
    }

    /// The first `n` constraints as text: each on a line of its own, as its
    /// name, a colon, a blank and the constraint.
    pub open spec fn constraints_text(self, n: nat) -> Seq<char>
        decreases n,
    {
        if n == 0 {
            Seq::empty()
        } else {
            self.constraints_text((n - 1) as nat) + self.constraints.names[n - 1] + ": "@
                + self.constraints.values[n - 1].text() + "\n"@
        }
    }

    /// The first `n` variables as text: the name of each on a line of its own.
    pub open spec fn variables_text(self, n: nat) -> Seq<char>
        decreases n,
    {
        if n == 0 {
            Seq::empty()
        } else {
            self.variables_text((n - 1) as nat) + self.variables.values[n - 1].name + "\n"@
        }
    }

    /// The word for the direction: a sense of 1 asks for a minimum, any other
    /// for a maximum.
    pub open spec fn direction_text(self) -> Seq<char> {
        if self.sense == 1 {
            "MINIMIZE"@
        } else {
            "MAXIMIZE"@
        }
    }

    /// The objective on a line of its own, where there is one.
    pub open spec fn objective_text(self) -> Seq<char> {
        match self.objective {
            Some(e) => e.text() + "\n"@,
            None => Seq::empty(),
        }
    }

    /// The problem as text, line by line: the name and a colon; the direction;
    /// the objective, where there is one; `SUBJECT TO` and the constraints;
    /// `VARIABLES` and the variables.
    pub open spec fn text(self) -> Seq<char> {
        self.name + ":\n"@ + self.direction_text() + "\n"@ + self.objective_text() + "SUBJECT TO\n"@
            + self.constraints_text(self.constraints.len()) + "VARIABLES\n"@ + self.variables_text(
            self.variables.len(),
        )
    }

    /// Whether every variable is valid within `eps`, and every constraint is
    /// valid within `eps` under the variables of the problem.
    pub open spec fn valid(self, eps: int) -> bool {
        &&& forall|i: int|
            0 <= i < self.variables.values.len() ==> (#[trigger] self.variables.values[i]).valid(eps)
        &&& forall|i: int|
            0 <= i < self.constraints.values.len() ==> (#[trigger] self.constraints.values[i]).valid(
                self.variables,
                eps,
            )
    }

    /// The largest magnitude among the gaps of the first `n` variables, and
    /// zero.
    pub open spec fn variables_gap(self, mip: bool, n: nat) -> int
        decreases n,
    {
        if n == 0 {
            0
        } else {
            larger(
                self.variables_gap(mip, (n - 1) as nat),
                magnitude(self.variables.values[n - 1].gap(mip)),
            )
        }
    }

    /// The largest magnitude among the judged values of those of the first `n`
    /// constraints that are not valid at tolerance zero, and zero.
    pub open spec fn constraints_gap(self, n: nat) -> int
        decreases n,
    {
        if n == 0 {
            0
        } else if self.constraints.values[n - 1].valid(self.variables, 0) {
            self.constraints_gap((n - 1) as nat)
        } else {
            larger(
                self.constraints_gap((n - 1) as nat),
                magnitude(self.constraints.values[n - 1].judged_value(self.variables)),
            )
        }
    }

    /// The largest violation: the largest magnitude among the gaps of the
    /// variables and the judged values of the constraints that are not valid at
    /// tolerance zero; zero where there is none.
    pub open spec fn gap(self, mip: bool) -> int {
        larger(self.variables_gap(mip, self.variables.len()), self.constraints_gap(self.constraints.len()))
    }

    /// The gap of the first `n` variables is the largest of their magnitudes,
    /// or zero.
    pub proof fn lemma_variables_gap(self, mip: bool, n: nat)
        ensures
            self.variables_gap(mip, n) >= 0,
            forall|i: int|
                0 <= i < n ==> self.variables_gap(mip, n) >= magnitude(
                    (#[trigger] self.variables.values[i]).gap(mip),
                ),
            self.variables_gap(mip, n) == 0 || exists|i: int|
                0 <= i < n && self.variables_gap(mip, n) == magnitude(
                    (#[trigger] self.variables.values[i]).gap(mip),
                ),
        decreases n,
    {
        if n > 0 {
            self.lemma_variables_gap(mip, (n - 1) as nat);
            let before = self.variables_gap(mip, (n - 1) as nat);
            let last = magnitude(self.variables.values[n - 1].gap(mip));
            if self.variables_gap(mip, n) != 0 {
                if before >= last {
                    let i = choose|i: int|
                        0 <= i < n - 1 && before == magnitude(
                            (#[trigger] self.variables.values[i]).gap(mip),
                        );
                    assert(0 <= i < n && self.variables_gap(mip, n) == magnitude(
                        self.variables.values[i].gap(mip),
                    ));
                } else {
                    assert(self.variables_gap(mip, n) == magnitude(
                        self.variables.values[n - 1].gap(mip),
                    ));
                }
            }
        }
    }

    /// The gap of the first `n` constraints is the largest magnitude among the
    /// judged values of those that are not valid at tolerance zero, or zero.
    pub proof fn lemma_constraints_gap(self, n: nat)
        ensures
            self.constraints_gap(n) >= 0,
            forall|k: int|
                0 <= k < n && !(#[trigger] self.constraints.values[k]).valid(self.variables, 0)
                    ==> self.constraints_gap(n) >= magnitude(
                    self.constraints.values[k].judged_value(self.variables),
                ),
            self.constraints_gap(n) == 0 || exists|k: int|
                0 <= k < n && !(#[trigger] self.constraints.values[k]).valid(self.variables, 0)
                    && self.constraints_gap(n) == magnitude(
                    self.constraints.values[k].judged_value(self.variables),
                ),
        decreases n,
    {
        if n > 0 {
            self.lemma_constraints_gap((n - 1) as nat);
            let before = self.constraints_gap((n - 1) as nat);
            let violated = !self.constraints.values[n - 1].valid(self.variables, 0);
            let last = magnitude(self.constraints.values[n - 1].judged_value(self.variables));
            if self.constraints_gap(n) != 0 {
                if violated && last > before {
                    assert(!self.constraints.values[n - 1].valid(self.variables, 0)
                        && self.constraints_gap(n) == magnitude(
                        self.constraints.values[n - 1].judged_value(self.variables),
                    ));
                } else {
                    let k = choose|k: int|
                        0 <= k < n - 1 && !(#[trigger] self.constraints.values[k]).valid(
                            self.variables,
                            0,
                        ) && before == magnitude(
                            self.constraints.values[k].judged_value(self.variables),
                        );
                    assert(0 <= k < n && !self.constraints.values[k].valid(self.variables, 0)
                        && self.constraints_gap(n) == magnitude(
                        self.constraints.values[k].judged_value(self.variables),
                    ));
                }
            }
        }
    }

    /// The gap of a problem is at least the magnitude of the gap of every
    /// variable and of the judged value of every constraint that is not valid
    /// at tolerance zero, and it is one of these magnitudes or zero. So it is
    /// zero where nothing is registered, and where every variable has the gap
    /// zero and every constraint is valid at tolerance zero.
    pub proof fn lemma_gap_is_largest(self, mip: bool)
        ensures
            self.gap(mip) >= 0,
            forall|i: int|
                0 <= i < self.variables.len() ==> self.gap(mip) >= magnitude(
                    (#[trigger] self.variables.values[i]).gap(mip),
                ),
            forall|k: int|
                0 <= k < self.constraints.len() && !(#[trigger] self.constraints.values[k]).valid(
                    self.variables,
                    0,
                ) ==> self.gap(mip) >= magnitude(
                    self.constraints.values[k].judged_value(self.variables),
                ),
            self.gap(mip) == 0 || (exists|i: int|
                0 <= i < self.variables.len() && self.gap(mip) == magnitude(
                    (#[trigger] self.variables.values[i]).gap(mip),
                )) || (exists|k: int|
                0 <= k < self.constraints.len() && !(#[trigger] self.constraints.values[k]).valid(
                    self.variables,
                    0,
                ) && self.gap(mip) == magnitude(
                    self.constraints.values[k].judged_value(self.variables),
                )),
    {
        self.lemma_variables_gap(mip, self.variables.len());
        self.lemma_constraints_gap(self.constraints.len());
    }
}

/// A linear or mixed-integer problem.
#[derive(Debug, Clone)]
pub struct LpProblem {
    pub name: String,
    pub sense: i32,
    pub objective: Option<LpAffineExpression>,
    pub constraints: NameMap<LpConstraint>,
    pub variables: NameMap<LpVariable>,
    pub status: LpStatus,
}

impl View for LpProblem {
    type V = ProblemModel;

    open spec fn view(&self) -> ProblemModel {
        ProblemModel {
            name: self.name@,
            sense: self.sense as int,
            objective: objective_of(self.objective),
            constraints: constraint_table(self.constraints@),
            variables: assignment(self.variables@),
            status: self.status,
        }
    }
}

#[allow(non_snake_case)]
impl LpProblem {
    /// A problem without objective, constraints and variables, not solved. A
    /// sense of 1 asks for a minimum, a sense of -1 for a maximum.
    pub fn new(name: &str, sense: i32) -> (r: Self)
        ensures
            r@ == ProblemModel::fresh(name@, sense as int),
    {
        let r = Self {
            name: name.to_owned(),
            sense,
            objective: None,
            constraints: NameMap::new(),
            variables: NameMap::new(),
            status: LpStatus::NotSolved,
        };
        assert(r@.constraints.values =~= Seq::empty());
        assert(r@.variables.values =~= Seq::empty());
        r
    }

    /// Puts `variable` under its own name: in place of the variable that had
    /// the name, or as a new last one.
    pub fn addVariable(&mut self, variable: LpVariable)
        ensures
            final(self)@ == old(self)@.add_variable(variable@),
    {
        let ghost before = self.variables@;
        let name = variable.name.clone();
        self.variables.insert(name, variable);
        proof {
            let after = before.put(variable@.name, variable);
            if before.contains(variable@.name) {
                let p = before.position(variable@.name);
                assert(0 <= p < before.names.len());
                assert(assignment(after).values =~= assignment(before).values.update(p, variable@));
            } else {
                assert(assignment(after).values =~= assignment(before).values.push(variable@));
            }
        }
    }

    /// Puts each of `variables` under its own name, one after the other.
    pub fn addVariables(&mut self, variables: Vec<LpVariable>)
        ensures
            final(self)@ == old(self)@.add_variables(variable_models(variables@), variables@.len()),
    {
        let ghost all = variable_models(variables@);
        for v in it: variables
            invariant
                all == variable_models(it.seq()),
                self@ == old(self)@.add_variables(all, it.index() as nat),
        {
            self.addVariable(v);
        }
    }

    /// Puts `constraint` under `name`: in place of the constraint that had the
    /// name, or as a new last one.
    pub fn addConstraint(&mut self, name: &str, constraint: LpConstraint)
        ensures
            final(self)@ == old(self)@.add_constraint(name@, constraint@),
    {
        let ghost before = self.constraints@;
        self.constraints.insert(name.to_owned(), constraint);
        proof {
            let after = before.put(name@, constraint);
            if before.contains(name@) {
                let p = before.position(name@);
                assert(0 <= p < before.names.len());
                assert(constraint_table(after).values =~= constraint_table(before).values.update(
                    p,
                    constraint@,
                ));
            } else {
                assert(constraint_table(after).values =~= constraint_table(before).values.push(
                    constraint@,
                ));
            }
        }
    }

    /// Makes `obj` the objective.
    pub fn setObjective(&mut self, obj: LpAffineExpression)
        ensures
            final(self)@ == old(self)@.set_objective(obj@),
    {
        self.objective = Some(obj);
    }

    /// The variables, in the order in which their names first came.
    pub fn variables(&self) -> (r: Vec<&LpVariable>)
        ensures
            r@.len() == self.variables@.len(),
            forall|i: int| 0 <= i < r@.len() ==> *(#[trigger] r@[i]) == self.variables@.values[i],
    {
        let n: usize = self.variables.len();
        let mut r: Vec<&LpVariable> = Vec::new();
        let mut i: usize = 0;
        while i < n
            invariant
                i <= n,
                n == self.variables@.len(),
                r@.len() == i,
                forall|j: int| 0 <= j < i ==> *(#[trigger] r@[j]) == self.variables@.values[j],
            decreases n - i,
        {
            r.push(self.variables.value_at(i));
            i += 1;
        }
        r
    }

    /// The constraints, in the order in which their names first came.
    pub fn constraints(&self) -> (r: Vec<&LpConstraint>)
        ensures
            r@.len() == self.constraints@.len(),
            forall|i: int| 0 <= i < r@.len() ==> *(#[trigger] r@[i]) == self.constraints@.values[i],
    {
        let n: usize = self.constraints.len();
        let mut r: Vec<&LpConstraint> = Vec::new();
        let mut i: usize = 0;
        while i < n
            invariant
                i <= n,
                n == self.constraints@.len(),
                r@.len() == i,
                forall|j: int| 0 <= j < i ==> *(#[trigger] r@[j]) == self.constraints@.values[j],
            decreases n - i,
        {
            r.push(self.constraints.value_at(i));
            i += 1;
        }
        r
    }

    /// Records the status with which a solver ended, and hands it back. The
    /// solver itself is not part of this library.
    pub fn solve(&mut self, outcome: LpStatus) -> (r: LpStatus)
        ensures
            r == outcome,
            final(self)@ == old(self)@.with_status(outcome),
    {
        self.status = outcome;
        self.status
    }

    /// The number of variables.
    pub fn numVariables(&self) -> (r: usize)
        ensures
            r == self@.variables.len(),
    {
        self.variables.len()
    }

    /// The number of constraints.
    pub fn numConstraints(&self) -> (r: usize)
        ensures
            r == self@.constraints.len(),
    {
        self.constraints.len()
    }

    /// The problem as text, line by line: the name and a colon; the direction;
    /// the objective, where there is one; `SUBJECT TO` and the constraints, each
    /// as its name, a colon, a blank and the constraint; `VARIABLES` and the
    /// names of the variables.
    pub fn to_string(&self) -> (r: String)
        ensures
            r@ == self@.text(),
    {
        let mut out = String::new();
        out.append(self.name.as_str());
        out.append(":\n");
        if self.sense == 1 {
            out.append("MINIMIZE");
        } else {
            out.append("MAXIMIZE");
        }
        out.append("\n");
        match &self.objective {
            Some(obj) => {
                obj.push_text(&mut out);
                out.append("\n");
            },
            None => {},
        }
        out.append("SUBJECT TO\n");
        let ghost head = out@;
        assert(head =~= self@.name + ":\n"@ + self@.direction_text() + "\n"@ + self@.objective_text()
            + "SUBJECT TO\n"@);
        let m: usize = self.constraints.len();
        let mut k: usize = 0;
        while k < m
            invariant
                k <= m,
                m == self.constraints@.len(),
                self.constraints@.wf(),
                out@ == head + self@.constraints_text(k as nat),
            decreases m - k,
        {
            let name = self.constraints.name_at(k);
            let c = self.constraints.value_at(k);
            out.append(name.as_str());
            out.append(": ");
            c.push_text(&mut out);
            out.append("\n");
            proof {
                assert(self@.constraints.names[k as int] == name@);
                assert(self@.constraints.values[k as int] == c@);
                assert(out@ =~= head + self@.constraints_text((k + 1) as nat));
            }
            k += 1;
        }
        out.append("VARIABLES\n");
        let ghost middle = out@;
        let n: usize = self.variables.len();
        let mut i: usize = 0;
        while i < n
            invariant
                i <= n,
                n == self.variables@.len(),
                self.variables@.wf(),
                out@ == middle + self@.variables_text(i as nat),
            decreases n - i,
        {
            let v = self.variables.value_at(i);
            out.append(v.name.as_str());
            out.append("\n");
            proof {
                assert(self@.variables.values[i as int] == v@);
                assert(out@ =~= middle + self@.variables_text((i + 1) as nat));
            }
            i += 1;
        }
        assert(out@ =~= self@.text());
        out
    }

    /// Whether every variable is valid within `eps`, and every constraint is
    /// valid within `eps` under the variables of the problem.
    pub fn valid(&self, eps: Decimal) -> (r: bool)
        ensures
            r == self@.valid(eps@),
    {
        let n: usize = self.variables.len();
        let mut i: usize = 0;
        while i < n
            invariant
                i <= n,
                n == self.variables@.len(),
                self.variables@.wf(),
                forall|j: int| 0 <= j < i ==> (#[trigger] self@.variables.values[j]).valid(eps@),
            decreases n - i,
        {
            if !self.variables.value_at(i).valid(eps) {
                assert(!self@.variables.values[i as int].valid(eps@));
                return false;
            }
            i += 1;
        }
        let m: usize = self.constraints.len();
        let mut k: usize = 0;
        while k < m
            invariant
                k <= m,
                m == self.constraints@.len(),
                self.constraints@.wf(),
                forall|j: int|
                    0 <= j < k ==> (#[trigger] self@.constraints.values[j]).valid(
                        self@.variables,
                        eps@,
                    ),
            decreases m - k,
        {
            if !self.constraints.value_at(k).valid(&self.variables, eps) {
                assert(!self@.constraints.values[k as int].valid(self@.variables, eps@));
                return false;
            }
            k += 1;
        }
        true
    }

    /// The largest violation: the largest magnitude among the gaps of the
    /// variables and the judged values of the constraints that are not valid at
    /// tolerance zero; zero where there is none.
    pub fn infeasibilityGap(&self, mip: bool) -> (r: Decimal)
        ensures
            r@ == self@.gap(mip),
    {
        let mut worst = Decimal::zero();
        let n: usize = self.variables.len();
        let mut i: usize = 0;
        while i < n
            invariant
                i <= n,
                n == self.variables@.len(),
                self.variables@.wf(),
                worst@ == self@.variables_gap(mip, i as nat),
            decreases n - i,
        {
            let gap = self.variables.value_at(i).infeasibilityGap(mip).abs();
            assert(self@.variables.values[i as int] == self.variables@.values[i as int]@);
            worst = worst.max(gap);
            i += 1;
        }
        let mut worst_constraint = Decimal::zero();
        let m: usize = self.constraints.len();
        let mut k: usize = 0;
        while k < m
            invariant
                k <= m,
                m == self.constraints@.len(),
                self.constraints@.wf(),
                worst_constraint@ == self@.constraints_gap(k as nat),
            decreases m - k,
        {
            let c = self.constraints.value_at(k);
            assert(self@.constraints.values[k as int] == c@);
            if !c.valid(&self.variables, Decimal::zero()) {
                let size = c.judged_value(&self.variables).abs();
                worst_constraint = worst_constraint.max(size);
            }
            k += 1;
        }
        worst.max(worst_constraint)
    }
}

} // verus!
