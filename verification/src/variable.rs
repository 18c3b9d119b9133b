//! Decision variables: a name, two optional bounds, a category and, once a
//! candidate assignment is known, a value.

use vstd::prelude::*;
use crate::decimal::{difference, magnitude, nearest_whole, Decimal, SCALE};

verus! {

/// The kind of number a variable stands for.
#[derive(Debug, Clone, Copy, PartialEq, Eq, Hash, Structural)]
pub enum LpCategory {
    Continuous,
    Integer,
    Binary,
}

/// The count of an optional decimal.
pub open spec fn count_of(d: Option<Decimal>) -> Option<int> {
    match d {
        Some(x) => Some(x@),
        None => None,
    }
}

/// What a variable is, with every number as its count of billionths.
pub struct VariableModel {
    pub name: Seq<char>,
    pub low: Option<int>,
    pub up: Option<int>,
    pub cat: LpCategory,
    pub value: Option<int>,
    pub dj: Option<int>,
    pub low_original: Option<int>,
    pub up_original: Option<int>,
}

impl VariableModel {
    /// A fresh variable. A binary variable is an integer variable between zero
    /// and one, whatever bounds were asked for; the bounds asked for are kept
    /// beside the ones in force.
    pub open spec fn fresh(
        name: Seq<char>,
        low: Option<int>,
        up: Option<int>,
        cat: LpCategory,
    ) -> VariableModel {
        VariableModel {
            name,
            low: if cat is Binary { Some(0int) } else { low },
            up: if cat is Binary { Some(SCALE as int) } else { up },
            cat: if cat is Binary { LpCategory::Integer } else { cat },
            value: None,
            dj: None,
            low_original: low,
            up_original: up,
        }
    }

    /// The variable with other bounds.
    pub open spec fn with_bounds(self, low: Option<int>, up: Option<int>) -> VariableModel {
        VariableModel { low, up, ..self }
    }

    /// The variable with another value, or none.
    pub open spec fn with_value(self, value: Option<int>) -> VariableModel {
        VariableModel { value, ..self }
    }

    /// Whether `v` lies within `eps` of its nearest whole number.
    pub open spec fn near_whole(v: int, eps: int) -> bool {
        magnitude(v - nearest_whole(v)) <= eps
    }

    /// The value, moved to its nearest whole number where the variable is an
    /// integer variable and the value lies within `eps` of that number.
    pub open spec fn rounded(self, eps: int) -> Option<int> {
        match self.value {
            Some(v) => if self.cat is Integer && Self::near_whole(v, eps) {
                Some(nearest_whole(v))
            } else {
                Some(v)
            },
            None => None,
        }
    }

    /// The value, moved onto a bound that it misses by no more than `eps`. Where
    /// it misses both bounds so, the lower bound is taken.
    pub open spec fn snapped(self, eps: int) -> Option<int> {
        match self.value {
            Some(v) => if self.low is Some && self.low->0 - eps <= v < self.low->0 {
                self.low
            } else if self.up is Some && self.up->0 < v <= self.up->0 + eps {
                self.up
            } else {
                Some(v)
            },
            None => None,
        }
    }

    /// The variable after its value was snapped at tolerance `eps` and then
    /// rounded at tolerance `eps_int`.
    pub open spec fn round(self, eps_int: int, eps: int) -> VariableModel {
        self.with_value(self.with_value(self.snapped(eps)).rounded(eps_int))
    }

    /// The value, or where there is none the number nearest to zero that the
    /// bounds allow.
    pub open spec fn value_or_default(self) -> int {
        match self.value {
            Some(v) => v,
            None => match (self.low, self.up) {
                (Some(l), Some(u)) => if l <= 0 <= u {
                    0
                } else if l >= 0 {
                    l
                } else {
                    u
                },
                (Some(l), None) => if l <= 0 {
                    0
                } else {
                    l
                },
                (None, Some(u)) => if 0 <= u {
                    0
                } else {
                    u
                },
                (None, None) => 0,
            },
        }
    }

    /// Whether the variable has a value that keeps both bounds, and for an
    /// integer variable lies at a whole number, each within `eps`.
    pub open spec fn valid(self, eps: int) -> bool {
        &&& self.value is Some
        &&& self.up matches Some(u) ==> self.value->0 <= u + eps
        &&& self.low matches Some(l) ==> self.value->0 >= l - eps
        &&& self.cat is Integer ==> Self::near_whole(self.value->0, eps)
    }

    /// How far the value is from being acceptable: the excess over the upper
    /// bound; else the (negative) shortfall under the lower bound; else, for an
    /// integer variable when `mip` is set, the step to the nearest whole number;
    /// else zero. Without a value it is zero.
    pub open spec fn gap(self, mip: bool) -> int {
        match self.value {
            Some(v) => if self.up is Some && v > self.up->0 {
                difference(v, self.up->0)
            } else if self.low is Some && v < self.low->0 {
                difference(v, self.low->0)
            } else if mip && self.cat is Integer && nearest_whole(v) != v {
                nearest_whole(v) - v
            } else {
                0
            },
            None => 0,
        }
    }

    /// Whether the variable takes only the values zero and one.
    pub open spec fn is_binary(self) -> bool {
        self.cat is Binary || (self.cat is Integer && self.low == Some(0int) && self.up == Some(
            SCALE as int,
        ))
    }

    /// Whether the variable takes only whole numbers.
    pub open spec fn is_integer(self) -> bool {
        self.cat is Integer
    }

    /// Whether the variable has no bound.
    pub open spec fn is_free(self) -> bool {
        self.low is None && self.up is None
    }

    /// Whether both bounds are there and equal.
    pub open spec fn is_constant(self) -> bool {
        self.low is Some && self.up == self.low
    }

    /// Whether the variable is bounded by zero below and unbounded above.
    pub open spec fn is_positive(self) -> bool {
        self.low == Some(0int) && self.up is None
    }

    /// Whether the lower bound does not exceed the upper bound, where both are
    /// there.
    pub open spec fn bounds_ordered(self) -> bool {
        self.low is Some && self.up is Some ==> self.low->0 <= self.up->0
    }

    /// Whether, for an integer variable, each bound lies within `eps` of a whole
    /// number.
    pub open spec fn bounds_near_whole(self, eps: int) -> bool {
        self.cat is Integer ==> {
            &&& self.low matches Some(l) ==> Self::near_whole(l, eps)
            &&& self.up matches Some(u) ==> Self::near_whole(u, eps)
        }
    }
}

/// A decision variable.
#[allow(non_snake_case)]
#[derive(Debug, Clone)]
pub struct LpVariable {
    pub name: String,
    pub lowBound: Option<Decimal>,
    pub upBound: Option<Decimal>,
    pub cat: LpCategory,
    pub varValue: Option<Decimal>,
    pub dj: Option<Decimal>,
    pub _lowbound_original: Option<Decimal>,
    pub _upbound_original: Option<Decimal>,
}

impl View for LpVariable {
    type V = VariableModel;

    open spec fn view(&self) -> VariableModel {
        VariableModel {
            name: self.name@,
            low: count_of(self.lowBound),
            up: count_of(self.upBound),
            cat: self.cat,
            value: count_of(self.varValue),
            dj: count_of(self.dj),
            low_original: count_of(self._lowbound_original),
            up_original: count_of(self._upbound_original),
        }
    }
}

#[allow(non_snake_case)]
impl LpVariable {
    /// A variable without a value. A binary variable becomes an integer variable
    /// between zero and one; the bounds given are recorded all the same.
    pub fn init(
        name: &str,
        lowBound: Option<Decimal>,
        upBound: Option<Decimal>,
        cat: LpCategory,
    ) -> (v: Self)
        ensures
            v@ == VariableModel::fresh(name@, count_of(lowBound), count_of(upBound), cat),
            cat is Binary ==> v@.is_binary() && v@.low == Some(0int) && v@.up == Some(
                SCALE as int,
            ),
    {
        let (low, up, kind) = match cat {
            LpCategory::Binary => (
                Some(Decimal::zero()),
                Some(Decimal::one()),
                LpCategory::Integer,
            ),
            _ => (lowBound, upBound, cat),
        };
        Self {
            name: name.to_owned(),
            lowBound: low,
            upBound: up,
            cat: kind,
            varValue: None,
            dj: None,
            _lowbound_original: lowBound,
            _upbound_original: upBound,
        }
    }

    /// Replaces both bounds. Nothing is asked of the two.
    pub fn bounds(&mut self, low: Option<Decimal>, up: Option<Decimal>)
        ensures
            final(self)@ == old(self)@.with_bounds(count_of(low), count_of(up)),
    {
        self.lowBound = low;
        self.upBound = up;
    }

    /// Bounds the variable by zero below and frees it above.
    pub fn positive(&mut self)
        ensures
            final(self)@ == old(self)@.with_bounds(Some(0int), None),
    {
        self.lowBound = Some(Decimal::zero());
        self.upBound = None;
    }

    /// The value, if there is one.
    pub fn value(&self) -> (r: Option<Decimal>)
        ensures
            r == self.varValue,
    {
        self.varValue
    }

    /// Gives the variable the value `val`.
    pub fn set_value(&mut self, val: Decimal)
        ensures
            final(self)@ == old(self)@.with_value(Some(val@)),
    {
        self.varValue = Some(val);
    }

    /// Moves a value that misses a bound by no more than `eps` onto that bound,
    /// then moves the value of an integer variable to its nearest whole number
    /// where it lies within `epsInt` of it.
    pub fn round(&mut self, epsInt: Decimal, eps: Decimal)
        ensures
            final(self)@ == old(self)@.round(epsInt@, eps@),
    {
        if let Some(v) = self.varValue {
            if let Some(up) = self.upBound {
                if v.wide() > up.wide() && v.wide() <= up.wide() + eps.wide() {
                    self.varValue = Some(up);
                }
            }
            if let Some(low) = self.lowBound {
                if v.wide() < low.wide() && v.wide() >= low.wide() - eps.wide() {
                    self.varValue = Some(low);
                }
            }
            self.varValue = self.roundedValue(epsInt);
        }
    }

    /// The value, moved to its nearest whole number where the variable is an
    /// integer variable and the value lies within `eps` of that number.
    pub fn roundedValue(&self, eps: Decimal) -> (r: Option<Decimal>)
        ensures
            count_of(r) == self@.rounded(eps@),
    {
        if self.cat == LpCategory::Integer {
            if let Some(v) = self.varValue {
                proof {
                    use_type_invariant(&v);
                }
                let whole = v.round();
                if v.minus(whole).abs().wide() <= eps.wide() {
                    return Some(whole);
                }
            }
        }
        self.varValue
    }

    /// The value, or where there is none the number nearest to zero that the
    /// bounds allow.
    pub fn valueOrDefault(&self) -> (r: Decimal)
        ensures
            r@ == self@.value_or_default(),
    {
        if let Some(v) = self.varValue {
            v
        } else if let Some(low) = self.lowBound {
            if let Some(up) = self.upBound {
                if 0 >= low.raw() && 0 <= up.raw() {
                    Decimal::zero()
                } else if low.raw() >= 0 {
                    low
                } else {
                    up
                }
            } else if 0 >= low.raw() {
                Decimal::zero()
            } else {
                low
            }
        } else if let Some(up) = self.upBound {
            if 0 <= up.raw() {
                Decimal::zero()
            } else {
                up
            }
        } else {
            Decimal::zero()
        }
    }

    /// Whether the variable has a value that keeps both bounds, and for an
    /// integer variable lies at a whole number, each within `eps`.
    pub fn valid(&self, eps: Decimal) -> (r: bool)
        ensures
            r == self@.valid(eps@),
    {
        let v = match self.varValue {
            Some(v) => v,
            None => {
                return false;
            },
        };
        if let Some(up) = self.upBound {
            if v.wide() > up.wide() + eps.wide() {
                return false;
            }
        }
        if let Some(low) = self.lowBound {
            if v.wide() < low.wide() - eps.wide() {
                return false;
            }
        }
        proof {
            use_type_invariant(&v);
        }
        if self.cat == LpCategory::Integer && v.round().minus(v).abs().wide() > eps.wide() {
            return false;
        }
        true
    }

    /// How far the value is from being acceptable: the excess over the upper
    /// bound; else the (negative) shortfall under the lower bound; else, for an
    /// integer variable when `mip` is set, the step to the nearest whole number;
    /// else zero. Without a value it is zero.
    pub fn infeasibilityGap(&self, mip: bool) -> (r: Decimal)
        ensures
            r@ == self@.gap(mip),
    {
        if let Some(v) = self.varValue {
            if let Some(up) = self.upBound {
                if v.raw() > up.raw() {
                    return v.minus(up);
                }
            }
            if let Some(low) = self.lowBound {
                if v.raw() < low.raw() {
                    return v.minus(low);
                }
            }
            proof {
                use_type_invariant(&v);
            }
            let step = v.round().minus(v);
            if mip && self.cat == LpCategory::Integer && !step.is_zero() {
                return step;
            }
            Decimal::zero()
        } else {
            Decimal::zero()
        }
    }

    /// The variable as text: its name.
    pub fn to_string(&self) -> (r: String)
        ensures
            r@ == self@.name,
    {
        self.name.clone()
    }

    /// Whether the variable takes only the values zero and one.
    pub fn isBinary(&self) -> (r: bool)
        ensures
            r == self@.is_binary(),
    {
        self.cat == LpCategory::Binary || (self.cat == LpCategory::Integer && holds(
            self.lowBound,
            0,
        ) && holds(self.upBound, SCALE))
    }

    /// Whether the variable takes only whole numbers.
    pub fn isInteger(&self) -> (r: bool)
        ensures
            r == self@.is_integer(),
    {
        self.cat == LpCategory::Integer
    }

    /// Whether the variable has no bound.
    pub fn isFree(&self) -> (r: bool)
        ensures
            r == self@.is_free(),
    {
        self.lowBound.is_none() && self.upBound.is_none()
    }

    /// Whether both bounds are there and equal.
    pub fn isConstant(&self) -> (r: bool)
        ensures
            r == self@.is_constant(),
    {
        match (self.lowBound, self.upBound) {
            (Some(low), Some(up)) => low.raw() == up.raw(),
            _ => false,
        }
    }

    /// Whether the variable is bounded by zero below and unbounded above.
    pub fn isPositive(&self) -> (r: bool)
        ensures
            r == self@.is_positive(),
    {
        holds(self.lowBound, 0) && self.upBound.is_none()
    }
}

/// Whether `d` is there and has the count `count`.
fn holds(d: Option<Decimal>, count: i64) -> (r: bool)
    ensures
        r == (count_of(d) == Some(count as int)),
{
    match d {
        Some(x) => x.raw() == count,
        None => false,
    }
}

} // verus!
