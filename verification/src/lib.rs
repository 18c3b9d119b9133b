//! A modelling layer for linear and mixed-integer programs: decision variables,
//! affine expressions over them, constraints, and problems that gather an
//! objective, constraints and variables and judge a candidate assignment. No
//! problem is solved here.

pub mod constraint;
pub mod decimal;
pub mod error;
pub mod expression;
pub mod laws;
pub mod operand;
pub mod problem;
pub mod table;
pub mod text;
pub mod variable;

pub use constraint::{LpConstraint, LpConstraintSense};
pub use decimal::Decimal;
pub use error::LpError;
pub use expression::{lp_dot, lp_sum, LpAffineExpression};
pub use operand::Other;
pub use problem::{LpProblem, LpStatus};
pub use table::NameMap;
pub use variable::{LpCategory, LpVariable};
