use pulp_model::{
    Decimal, LpAffineExpression, LpCategory, LpConstraint, LpConstraintSense, LpVariable, NameMap,
};

fn d(x: f64) -> Decimal {
    Decimal::from_raw((x * 1e9).round() as i64)
}

fn valued(name: &str, value: f64) -> LpVariable {
    let mut v = LpVariable::init(name, None, None, LpCategory::Continuous);
    v.set_value(d(value));
    v
}

fn table(vars: Vec<LpVariable>) -> NameMap<LpVariable> {
    let mut t = NameMap::new();
    for v in vars {
        t.insert(v.name.clone(), v);
    }
    t
}

/// The constraint `x + y + constant <sense> rhs`.
fn x_plus_y(constant: f64, sense: LpConstraintSense, rhs: f64) -> LpConstraint {
    let mut e = LpAffineExpression::from_constant(d(constant));
    e.add_term(&LpVariable::init("x", None, None, LpCategory::Continuous), Decimal::one());
    e.add_term(&LpVariable::init("y", None, None, LpCategory::Continuous), Decimal::one());
    LpConstraint::new(e, sense, d(rhs), None)
}

#[test]
fn a_new_constraint_has_no_dual_outputs() {
    let c = LpConstraint::new(
        LpAffineExpression::from_constant(d(1.0)),
        LpConstraintSense::Ge,
        d(2.0),
        Some("c1".to_string()),
    );
    assert_eq!(c.sense, LpConstraintSense::Ge);
    assert_eq!(c.rhs, d(2.0));
    assert_eq!(c.name, Some("c1".to_string()));
    assert_eq!(c.pi, None);
    assert_eq!(c.slack, None);
    assert_eq!(c.expr.constant, d(1.0));
}

#[test]
fn the_sense_gives_the_bounds() {
    let le = x_plus_y(0.0, LpConstraintSense::Le, 10.0);
    assert_eq!(le.getLb(), None);
    assert_eq!(le.getUb(), Some(d(10.0)));
    let ge = x_plus_y(0.0, LpConstraintSense::Ge, 10.0);
    assert_eq!(ge.getLb(), Some(d(10.0)));
    assert_eq!(ge.getUb(), None);
    let eq = x_plus_y(0.0, LpConstraintSense::Eq, 10.0);
    assert_eq!(eq.getLb(), Some(d(10.0)));
    assert_eq!(eq.getUb(), Some(d(10.0)));
}

#[test]
fn value_and_value_or_default_are_those_of_the_expression() {
    let c = x_plus_y(-10.0, LpConstraintSense::Le, 0.0);
    let both = table(vec![valued("x", 7.0), valued("y", 7.0)]);
    assert_eq!(c.value(&both), Some(d(4.0)));
    assert_eq!(c.valueOrDefault(&both), d(4.0));
    let one = table(vec![valued("x", 7.0)]);
    assert_eq!(c.value(&one), None);
    assert_eq!(c.valueOrDefault(&one), d(-3.0));
}

#[test]
fn a_less_or_equal_constraint_allows_the_tolerance_above() {
    let c = x_plus_y(0.0, LpConstraintSense::Le, 10.0);
    assert!(c.valid(&table(vec![valued("x", 4.0), valued("y", 4.0)]), d(1e-6)));
    assert!(c.valid(&table(vec![valued("x", 5.0), valued("y", 5.0)]), Decimal::zero()));
    assert!(c.valid(&table(vec![valued("x", 5.0), valued("y", 5.5)]), d(0.5)));
    assert!(!c.valid(&table(vec![valued("x", 5.0), valued("y", 5.5)]), d(0.4)));
    assert!(!c.valid(&table(vec![valued("x", 7.0), valued("y", 7.0)]), d(1e-6)));
}

#[test]
fn a_greater_or_equal_constraint_allows_the_tolerance_below() {
    let c = x_plus_y(0.0, LpConstraintSense::Ge, 10.0);
    assert!(c.valid(&table(vec![valued("x", 7.0), valued("y", 7.0)]), Decimal::zero()));
    assert!(c.valid(&table(vec![valued("x", 5.0), valued("y", 4.5)]), d(0.5)));
    assert!(!c.valid(&table(vec![valued("x", 5.0), valued("y", 4.5)]), d(0.4)));
}

#[test]
fn an_equality_constraint_asks_for_a_value_near_zero() {
    let c = x_plus_y(-10.0, LpConstraintSense::Eq, 0.0);
    assert!(c.valid(&table(vec![valued("x", 5.0), valued("y", 5.0)]), Decimal::zero()));
    assert!(c.valid(&table(vec![valued("x", 5.0), valued("y", 5.2)]), d(0.2)));
    assert!(c.valid(&table(vec![valued("x", 5.0), valued("y", 4.8)]), d(0.2)));
    assert!(!c.valid(&table(vec![valued("x", 5.0), valued("y", 5.2)]), d(0.1)));
    // the right-hand side plays no part in judging an equality
    let shifted = x_plus_y(0.0, LpConstraintSense::Eq, 10.0);
    assert!(!shifted.valid(&table(vec![valued("x", 5.0), valued("y", 5.0)]), Decimal::zero()));
}

#[test]
fn a_constraint_without_a_value_is_judged_at_zero() {
    let one = table(vec![valued("x", 70.0)]);
    assert!(x_plus_y(0.0, LpConstraintSense::Le, 10.0).valid(&one, Decimal::zero()));
    assert!(!x_plus_y(0.0, LpConstraintSense::Ge, 10.0).valid(&one, Decimal::zero()));
    assert!(x_plus_y(0.0, LpConstraintSense::Ge, 10.0).valid(&one, d(10.0)));
    assert!(x_plus_y(-10.0, LpConstraintSense::Eq, 0.0).valid(&one, Decimal::zero()));
}

#[test]
fn a_constraint_as_text() {
    assert_eq!(x_plus_y(0.0, LpConstraintSense::Le, 10.0).to_string(), "1*x + 1*y + 0 <= 10");
    assert_eq!(x_plus_y(-2.5, LpConstraintSense::Ge, 0.5).to_string(), "1*x + 1*y + -2.5 >= 0.5");
    assert_eq!(x_plus_y(0.0, LpConstraintSense::Eq, -1.0).to_string(), "1*x + 1*y + 0 = -1");
}
