//! The data model: points and rectangles in screen space, the relative
//! target vector, the solving modes, the physical constants, and hits.

use vstd::prelude::*;
use vstd::string::StringExecFns;

verus! {

/// How many hits a rendered line shows at most.
pub const SHOW_MAX_HITS: usize = 5;

/// A screen-space position, with y growing downward.
#[derive(Clone, Copy, PartialEq, Eq, Structural, Debug)]
pub struct Point2D {
    pub x: i32,
    pub y: i32,
}

/// A window rectangle in screen space; it fixes the coordinate frame
/// that `translate` converts out of.
#[derive(Clone, Copy, PartialEq, Eq, Structural, Debug)]
pub struct Rect {
    pub left: i32,
    pub top: i32,
    pub right: i32,
    pub bottom: i32,
}

impl Rect {
    /// A rectangle must enclose a positive area to define a frame.
    pub open spec fn wf(self) -> bool {
        self.left < self.right && self.top < self.bottom
    }
}

/// The signed displacement from launch origin to target in the physics
/// frame: `dy > 0` means the target lies above the origin.
#[derive(Clone, Copy, PartialEq, Eq, Structural, Debug)]
pub struct RelativeTarget {
    pub dx: i64,
    pub dy: i64,
}

impl RelativeTarget {
    /// The displacements that two screen points can produce.
    pub open spec fn wf(self) -> bool {
        -4_294_967_296 <= self.dx <= 4_294_967_296 && -4_294_967_296 <= self.dy
            <= 4_294_967_296
    }
}

/// Rejection of inputs that cannot define a computation, per the error
/// policy: an unreachable target is an empty result, never an error.
#[derive(Clone, Copy, PartialEq, Eq, Structural, Debug)]
pub enum SolveError {
    InvalidInput,
}

/// The two solving modes: find the angles for a fixed speed, or find
/// the speed for each swept angle.
#[derive(Clone, Copy, PartialEq, Eq, Structural, Debug)]
pub enum Mode {
    Angle,
    Velocity,
}

impl Mode {
    /// The other mode; switching twice restores the original mode.
    pub fn toggled(self) -> (m: Mode)
        ensures
            self == Mode::Angle ==> m == Mode::Velocity,
            self == Mode::Velocity ==> m == Mode::Angle,
    {
        match self {
            Mode::Angle => Mode::Velocity,
            Mode::Velocity => Mode::Angle,
        }
    }

    /// The display name of the mode.
    pub fn name(&self) -> (s: String)
        ensures
            *self == Mode::Angle ==> s@ == "ANGLE"@,
            *self == Mode::Velocity ==> s@ == "VELOCITY"@,
    {
        match self {
            Mode::Angle => String::from_str("ANGLE"),
            Mode::Velocity => String::from_str("VELOCITY"),
        }
    }
}

/// The process-wide physical constants. They are plain data so that a
/// test can substitute hand-checkable values (for example gravity 10
/// instead of 9.81 units per squared second).
#[derive(Clone, Copy, PartialEq, Eq, Structural, Debug)]
pub struct Config {
    /// Gravity in milli-units per squared second.
    pub gravity_milli: u64,
    /// The fixed launch speed assumed when solving for angles, in
    /// milli-units per second.
    pub v0_milli: u64,
    /// How far, in milli-units of height, a rounded candidate angle may
    /// miss the target and still count as a hit when solving for angles.
    pub tol_milli: u64,
}

impl Config {
    /// The ranges under which every intermediate product of the solver
    /// fits the machine arithmetic.
    pub open spec fn wf(self) -> bool {
        1 <= self.gravity_milli <= 100_000 && 1_000 <= self.v0_milli <= 1_000_000_000
            && self.tol_milli <= 1_000_000_000_000
    }
}

/// The constants used when none are overridden.
pub fn default_config() -> (c: Config)
    ensures
        c.wf(),
        c == (Config { gravity_milli: 9_810u64, v0_milli: 100_000u64, tol_milli: 1_000u64 }),
{
    Config { gravity_milli: 9_810, v0_milli: 100_000, tol_milli: 1_000 }
}

/// One feasible launch solution.
#[derive(Clone, Copy, PartialEq, Eq, Structural, Debug)]
pub struct Hit {
    /// Launch angle in whole degrees above the horizontal, measured
    /// toward the target; always in `(-90, 90]`.
    pub angle: i32,
    /// Launch speed in milli-units per second.
    pub velocity: u64,
    /// Flight time in milli-seconds.
    pub time: u64,
}

impl Hit {
    pub fn get_angle(&self) -> (a: i32)
        ensures
            a == self.angle,
    {
        self.angle
    }

    pub fn get_velocity(&self) -> (v: u64)
        ensures
            v == self.velocity,
    {
        self.velocity
    }

    pub fn get_time(&self) -> (t: u64)
        ensures
            t == self.time,
    {
        self.time
    }
}

/// Converts two absolute screen points and the window rectangle into
/// the relative target vector of the physics frame: `dx` keeps the
/// screen sign, `dy` is flipped so that a target above the origin is
/// positive. A degenerate rectangle cannot define a frame and is
/// rejected; any two points are valid.
pub fn translate(rect: &Rect, from: &Point2D, to: &Point2D) -> (r: Result<
    RelativeTarget,
    SolveError,
>)
    ensures
        r is Ok <==> rect.wf(),
        r is Ok ==> r->Ok_0.dx == to.x - from.x && r->Ok_0.dy == from.y - to.y
            && r->Ok_0.wf(),
        r is Err ==> r->Err_0 == SolveError::InvalidInput,
{
    if rect.left < rect.right && rect.top < rect.bottom {
        Ok(
            RelativeTarget {
                dx: to.x as i64 - from.x as i64,
                dy: from.y as i64 - to.y as i64,
            },
        )
    } else {
        Err(SolveError::InvalidInput)
    }
}

/// Swapping origin and target negates the translated vector exactly:
/// the two calls return component-wise opposite displacements.
pub proof fn lemma_translate_negation(
    rect: Rect,
    a: Point2D,
    b: Point2D,
    r_ab: RelativeTarget,
    r_ba: RelativeTarget,
)
    requires
        rect.wf(),
        r_ab.dx == b.x - a.x && r_ab.dy == a.y - b.y,
        r_ba.dx == a.x - b.x && r_ba.dy == b.y - a.y,
    ensures
        r_ab.dx == -r_ba.dx,
        r_ab.dy == -r_ba.dy,
{
}

} // verus!
