//! Closed-form trajectory solving for a constant-gravity 2D projectile
//! model, together with the grouping and formatting of the solutions.
//!
//! All arithmetic is carried out on scaled integers: lengths in whole
//! world units, angles in whole degrees, and speeds, times, gravity and
//! tangents in thousandths (milli-units), so every quantity is exact
//! and every function is deterministic.

pub mod laws;
pub mod model;
pub mod num;
pub mod organize;
pub mod session;
pub mod solver;
pub mod trig;

pub use model::{Config, Hit, Mode, Point2D, Rect, RelativeTarget, SolveError};
pub use model::translate;
pub use organize::{format_hits, into_angle_categories};
pub use solver::{solve, solve_angle, solve_velocity};
