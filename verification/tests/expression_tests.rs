use pulp_model::{
    lp_dot, lp_sum, Decimal, LpAffineExpression, LpCategory, LpConstraint, LpConstraintSense, LpError,
    LpVariable, NameMap, Other,
};

fn d(x: f64) -> Decimal {
    Decimal::from_raw((x * 1e9).round() as i64)
}

fn var(name: &str) -> LpVariable {
    LpVariable::init(name, None, None, LpCategory::Continuous)
}

fn valued(name: &str, value: f64) -> LpVariable {
    let mut v = var(name);
    v.set_value(d(value));
    v
}

/// The expression with the given terms and constant.
fn expr(terms: &[(&str, f64)], constant: f64) -> LpAffineExpression {
    let mut e = LpAffineExpression::from_constant(d(constant));
    for (name, c) in terms {
        e.add_term(&var(name), d(*c));
    }
    e
}

fn coefficient(e: &LpAffineExpression, name: &str) -> Decimal {
    match e.terms.get(name) {
        Some(c) => *c,
        None => Decimal::zero(),
    }
}

fn table(vars: Vec<LpVariable>) -> NameMap<LpVariable> {
    let mut t = NameMap::new();
    for v in vars {
        t.insert(v.name.clone(), v);
    }
    t
}

#[test]
fn the_sum_of_no_expressions_is_the_zero_expression() {
    let s = lp_sum(&[]);
    assert_eq!(s.terms.len(), 0);
    assert_eq!(s.constant, Decimal::zero());
    assert!(s.isNumericalConstant());
    let z = LpAffineExpression::init();
    assert_eq!(z.terms.len(), 0);
    assert_eq!(z.constant, Decimal::zero());
}

#[test]
fn adding_then_subtracting_gives_back_the_expression() {
    let a = expr(&[("x", 2.0), ("y", -0.3)], 1.25);
    let b = expr(&[("y", 0.1), ("z", 7.5)], -4.0);
    let r = a.clone().add(b.clone()).sub(b);
    assert_eq!(r.constant, a.constant);
    for name in ["x", "y", "z", "w"] {
        assert_eq!(coefficient(&r, name), coefficient(&a, name));
    }
    // the name that only the added expression had stays, with coefficient zero
    assert_eq!(r.terms.get("z"), Some(&Decimal::zero()));
    assert_eq!(a.terms.get("z"), None);
}

#[test]
fn adding_then_subtracting_beyond_the_range_loses_the_excess() {
    let top = Decimal::from_raw(pulp_model::decimal::LIMIT);
    let mut a = LpAffineExpression::init();
    a.add_term(&var("x"), top);
    let b = expr(&[("x", 1.0)], 0.0);
    let r = a.clone().add(b.clone()).sub(b);
    assert_eq!(coefficient(&r, "x"), top.minus(Decimal::one()));
}

#[test]
fn an_expression_from_a_variable_is_atomic() {
    let e = LpAffineExpression::from_variable(&var("x"));
    assert!(e.isAtomic());
    assert!(!e.isNumericalConstant());
    assert_eq!(e.atom(), Some(&"x".to_string()));
    assert_eq!(e.terms.get("x"), Some(&Decimal::one()));
    assert_eq!(e.constant, Decimal::zero());
}

#[test]
fn an_expression_from_a_number_is_a_numerical_constant() {
    let e = LpAffineExpression::from_constant(d(2.5));
    assert!(e.isNumericalConstant());
    assert!(!e.isAtomic());
    assert_eq!(e.atom(), None);
    assert_eq!(e.constant, d(2.5));
}

#[test]
fn atomic_means_one_term_of_coefficient_one_and_no_constant() {
    assert!(!expr(&[("x", 2.0)], 0.0).isAtomic());
    assert!(!expr(&[("x", 1.0)], 1.0).isAtomic());
    assert!(!expr(&[("x", 1.0), ("y", 1.0)], 0.0).isAtomic());
    assert!(expr(&[("x", 1.0)], 0.0).isAtomic());
    assert_eq!(expr(&[("y", 1.0), ("x", 1.0)], 0.0).atom(), Some(&"y".to_string()));
}

#[test]
fn a_copy_is_independent() {
    let a = expr(&[("x", 2.0)], 1.0);
    let mut b = LpAffineExpression::from_expression(&a);
    b.add_term(&var("x"), d(1.0));
    assert_eq!(coefficient(&a, "x"), d(2.0));
    assert_eq!(coefficient(&b, "x"), d(3.0));
    let c = LpConstraint::new(a.clone(), LpConstraintSense::Le, d(10.0), None);
    let e = LpAffineExpression::from_constraint(&c);
    assert_eq!(coefficient(&e, "x"), d(2.0));
    assert_eq!(e.constant, d(1.0));
}

#[test]
fn add_term_accumulates() {
    let mut e = LpAffineExpression::init();
    e.add_term(&var("x"), d(2.0));
    e.add_term(&var("y"), d(1.0));
    e.add_term(&var("x"), d(0.5));
    assert_eq!(e.terms.len(), 2);
    assert_eq!(coefficient(&e, "x"), d(2.5));
    assert_eq!(coefficient(&e, "y"), d(1.0));
    e.add_term(&var("x"), d(-2.5));
    assert_eq!(e.terms.get("x"), Some(&Decimal::zero()));
    assert_eq!(e.terms.len(), 2);
}

#[test]
fn add_in_place_scales_by_the_sign() {
    let mut a = expr(&[("x", 2.0), ("y", 3.0)], 1.0);
    let b = expr(&[("y", 1.0), ("z", 4.0)], 5.0);
    a.addInPlace(&b, d(2.0));
    assert_eq!(coefficient(&a, "x"), d(2.0));
    assert_eq!(coefficient(&a, "y"), d(5.0));
    assert_eq!(coefficient(&a, "z"), d(8.0));
    assert_eq!(a.constant, d(11.0));
    assert_eq!(a.terms.name_at(0), "x");
    assert_eq!(a.terms.name_at(1), "y");
    assert_eq!(a.terms.name_at(2), "z");
}

#[test]
fn sub_in_place_takes_away() {
    let mut a = expr(&[("x", 2.0), ("y", 3.0)], 1.0);
    let b = expr(&[("y", 1.0), ("z", 4.0)], 5.0);
    a.subInPlace(&b);
    assert_eq!(coefficient(&a, "x"), d(2.0));
    assert_eq!(coefficient(&a, "y"), d(2.0));
    assert_eq!(coefficient(&a, "z"), d(-4.0));
    assert_eq!(a.constant, d(-4.0));
}

#[test]
fn the_operators_agree_with_the_in_place_forms() {
    let a = expr(&[("x", 2.0)], 1.0);
    let b = expr(&[("x", 0.5), ("y", 4.0)], 5.0);
    let sum = a.clone().add(b.clone());
    let mut in_place = a.clone();
    in_place.addInPlace(&b, Decimal::one());
    assert_eq!(sum.to_string(), in_place.to_string());
    assert_eq!(sum.to_string(), "2.5*x + 4*y + 6");
    let difference = a.clone().sub(b.clone());
    let mut taken = a.clone();
    taken.addInPlace(&b, d(-1.0));
    assert_eq!(difference.to_string(), taken.to_string());
    assert_eq!(difference.to_string(), "1.5*x + -4*y + -4");
}

#[test]
fn negation_changes_every_sign() {
    let e = expr(&[("x", 2.0), ("y", -3.0)], 1.5).neg();
    assert_eq!(coefficient(&e, "x"), d(-2.0));
    assert_eq!(coefficient(&e, "y"), d(3.0));
    assert_eq!(e.constant, d(-1.5));
}

#[test]
fn scaling_multiplies_every_number() {
    let e = expr(&[("x", 2.0), ("y", -3.0)], 1.5).mul(d(2.5));
    assert_eq!(coefficient(&e, "x"), d(5.0));
    assert_eq!(coefficient(&e, "y"), d(-7.5));
    assert_eq!(e.constant, d(3.75));
}

#[test]
fn dividing_divides_every_number() {
    let e = expr(&[("x", 2.0), ("y", -3.0)], 1.5).div(d(4.0)).unwrap();
    assert_eq!(coefficient(&e, "x"), d(0.5));
    assert_eq!(coefficient(&e, "y"), d(-0.75));
    assert_eq!(e.constant, d(0.375));
    let thirds = expr(&[("x", 1.0)], 2.0).div(d(3.0)).unwrap();
    assert_eq!(coefficient(&thirds, "x"), Decimal::from_raw(333_333_333));
    assert_eq!(thirds.constant, Decimal::from_raw(666_666_667));
}

#[test]
fn dividing_by_zero_is_an_error() {
    let r = expr(&[("x", 2.0)], 1.5).div(Decimal::zero());
    assert!(matches!(r, Err(LpError::DivisionByZero)));
    let empty = LpAffineExpression::init().div(Decimal::zero());
    assert!(matches!(empty, Err(LpError::DivisionByZero)));
}

#[test]
fn value_is_the_constant_plus_every_term() {
    let e = expr(&[("x", 2.0), ("y", 3.0)], 1.0);
    let vars = table(vec![valued("x", 4.0), valued("y", 0.5)]);
    assert_eq!(e.value(&vars), Some(d(10.5)));
    assert_eq!(e.valueOrDefault(&vars), d(10.5));
    let constant = LpAffineExpression::from_constant(d(7.0));
    assert_eq!(constant.value(&NameMap::new()), Some(d(7.0)));
}

#[test]
fn value_needs_every_variable_and_every_value() {
    let e = expr(&[("x", 2.0), ("y", 3.0)], 1.0);
    let missing_variable = table(vec![valued("x", 4.0)]);
    assert_eq!(e.value(&missing_variable), None);
    let missing_value = table(vec![valued("x", 4.0), var("y")]);
    assert_eq!(e.value(&missing_value), None);
    // a term with coefficient zero still names its variable
    let zero_term = expr(&[("x", 2.0), ("y", 0.0)], 1.0);
    assert_eq!(zero_term.value(&missing_variable), None);
}

#[test]
fn value_or_default_counts_what_is_missing_as_zero() {
    let e = expr(&[("x", 2.0), ("y", 3.0)], 1.0);
    let missing_variable = table(vec![valued("x", 4.0)]);
    assert_eq!(e.valueOrDefault(&missing_variable), d(9.0));
    let mut bounded = LpVariable::init("y", Some(d(5.0)), Some(d(6.0)), LpCategory::Continuous);
    assert_eq!(bounded.valueOrDefault(), d(5.0));
    let missing_value = table(vec![valued("x", 4.0), bounded.clone()]);
    assert_eq!(e.valueOrDefault(&missing_value), d(9.0));
    bounded.set_value(d(5.5));
    let complete = table(vec![valued("x", 4.0), bounded]);
    assert_eq!(e.valueOrDefault(&complete), d(25.5));
    assert_eq!(e.valueOrDefault(&NameMap::new()), d(1.0));
}

#[test]
fn a_value_beyond_the_range_stops_at_its_end() {
    let top = Decimal::from_raw(pulp_model::decimal::LIMIT);
    let mut e = LpAffineExpression::from_constant(top);
    e.add_term(&var("x"), d(1.0));
    e.add_term(&var("y"), d(1.0));
    let mut x = var("x");
    x.set_value(top);
    let mut y = var("y");
    y.set_value(top.negated());
    // the three numbers add up to the top of the range, in whatever order
    assert_eq!(e.value(&table(vec![x.clone(), y.clone()])), Some(top));
    y.set_value(d(1.0));
    assert_eq!(e.value(&table(vec![x, y])), Some(top));
}

#[test]
fn lp_sum_adds_in_turn() {
    let s = lp_sum(&[expr(&[("x", 1.0)], 1.0), expr(&[("y", 2.0), ("x", 0.5)], 2.0), expr(&[], 0.25)]);
    assert_eq!(coefficient(&s, "x"), d(1.5));
    assert_eq!(coefficient(&s, "y"), d(2.0));
    assert_eq!(s.constant, d(3.25));
    assert_eq!(s.to_string(), "1.5*x + 2*y + 3.25");
    let reversed = lp_sum(&[expr(&[], 0.25), expr(&[("y", 2.0), ("x", 0.5)], 2.0), expr(&[("x", 1.0)], 1.0)]);
    for name in ["x", "y"] {
        assert_eq!(coefficient(&reversed, name), coefficient(&s, name));
    }
    assert_eq!(reversed.constant, s.constant);
}

#[test]
fn lp_dot_multiplies_the_constants_pairwise() {
    let v1 = [expr(&[("x", 1.0)], 2.0), expr(&[("y", 1.0)], 3.0), expr(&[("z", 1.0)], 100.0)];
    let v2 = [expr(&[("a", 9.0)], 5.0), expr(&[], 0.5)];
    let r = lp_dot(&v1, &v2);
    assert_eq!(coefficient(&r, "x"), d(1.0));
    assert_eq!(coefficient(&r, "y"), d(1.0));
    assert_eq!(coefficient(&r, "z"), Decimal::zero());
    assert_eq!(coefficient(&r, "a"), Decimal::zero());
    assert_eq!(r.terms.len(), 2);
    assert_eq!(r.constant, d(11.5));
    let none = lp_dot(&[], &v2);
    assert!(none.isNumericalConstant());
    assert_eq!(none.constant, Decimal::zero());
}

#[test]
fn an_expression_as_text() {
    assert_eq!(expr(&[("x", 2.0), ("y", 3.0)], 0.0).to_string(), "2*x + 3*y + 0");
    assert_eq!(expr(&[("x", -0.5)], 10.3).to_string(), "-0.5*x + 10.3");
    assert_eq!(LpAffineExpression::init().to_string(), "0");
}

#[test]
fn a_variable_plus_a_variable() {
    let e = var("x").__add__(&Other::Variable(var("y")));
    assert_eq!(e.to_string(), "1*x + 1*y + 0");
    let twice = var("x").__add__(&Other::Variable(var("x")));
    assert_eq!(twice.to_string(), "2*x + 0");
}

#[test]
fn a_variable_plus_a_number() {
    let e = var("x").__add__(&Other::Constant(d(2.5)));
    assert_eq!(e.to_string(), "1*x + 2.5");
}

#[test]
fn a_variable_plus_an_expression() {
    let e = var("x").__add__(&Other::AffineExpression(expr(&[("x", 2.0), ("y", 3.0)], 1.0)));
    assert_eq!(e.to_string(), "3*x + 3*y + 1");
}

#[test]
fn a_variable_plus_a_constraint_adds_its_expression() {
    let c = LpConstraint::new(expr(&[("y", 3.0)], -10.0), LpConstraintSense::Le, d(99.0), None);
    let e = var("x").__add__(&Other::Constraint(c));
    assert_eq!(e.to_string(), "1*x + 3*y + -10");
}

#[test]
fn a_variable_plus_something_unknown_is_the_variable() {
    let e = var("x").__add__(&Other::Unknown);
    assert!(e.isAtomic());
    assert_eq!(e.atom(), Some(&"x".to_string()));
}
