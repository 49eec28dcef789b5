//! The trajectory solver. Both modes solve the range equation of
//! drag-free projectile motion,
//! `dy = dx*tan(a) - g*dx^2 / (2*v^2*cos(a)^2)`,
//! on scaled integers, using `1/cos(a)^2 = 1 + tan(a)^2`: the angle
//! mode takes the roots of the equation read as a quadratic in
//! `tan(a)` at the fixed speed, the velocity mode solves it for the
//! speed at every swept whole degree.

use vstd::prelude::*;
use crate::model::{Config, Hit, Mode, RelativeTarget};
use crate::num::{div_floor, isqrt, isqrt_spec};
use crate::trig::{atan_deg, atan_lookup, dist, tan_lookup, tan_milli, tan_signed};

verus! {

/// The largest drop coefficient the solver evaluates; any larger one
/// puts the discriminant below zero for every in-range target, so the
/// target is unreachable anyway.
pub const K_CAP_MILLI: u128 = 1_000_000_000_000_000_000;

/// Magnitude of an integer.
pub open spec fn iabs(a: int) -> int {
    if a >= 0 {
        a
    } else {
        -a
    }
}

/// The displacements that `translate` can produce.
pub open spec fn coord_ok(x: int) -> bool {
    -4_294_967_296 <= x <= 4_294_967_296
}

/// The drop coefficient `k = g*dx^2 / (2*v0^2)` in milli-units: how far
/// below the aiming line the projectile has fallen after travelling the
/// horizontal distance `adx`.
pub open spec fn drop_k_milli(c: Config, adx: int) -> int {
    500_000 * (c.gravity_milli as int) * adx * adx / ((c.v0_milli as int) * (c.v0_milli as int))
}

/// The discriminant of the range equation read as a quadratic in the
/// tangent of the launch angle, in squared milli-units.
pub open spec fn disc_mm(c: Config, adx: int, dy: int) -> int {
    1_000_000 * adx * adx - 4 * drop_k_milli(c, adx) * (drop_k_milli(c, adx) + 1000 * dy)
}

/// The smaller root of that quadratic, as a tangent in milli-units.
pub open spec fn root_lo_milli(c: Config, adx: int, dy: int) -> int {
    (1_000_000 * adx - 1000 * isqrt_spec(disc_mm(c, adx, dy) as nat)) / (2 * drop_k_milli(
        c,
        adx,
    ))
}

/// The larger root of that quadratic, as a tangent in milli-units.
pub open spec fn root_hi_milli(c: Config, adx: int, dy: int) -> int {
    (1_000_000 * adx + 1000 * isqrt_spec(disc_mm(c, adx, dy) as nat)) / (2 * drop_k_milli(
        c,
        adx,
    ))
}

/// The height in milli-units reached at horizontal distance `adx` when
/// firing at `d` whole degrees with the fixed speed of `c`.
pub open spec fn height_at_milli(c: Config, adx: int, d: int) -> int {
    adx * tan_signed(d) - drop_k_milli(c, adx) - drop_k_milli(c, adx) * (tan_signed(d)
        * tan_signed(d)) / 1_000_000
}

/// Whether firing at `d` whole degrees with the fixed speed meets the
/// target within the configured tolerance.
pub open spec fn angle_hits(c: Config, adx: int, dy: int, d: int) -> bool {
    dist(height_at_milli(c, adx, d), 1000 * dy) <= c.tol_milli
}

/// Flight time in milli-seconds to cover `adx` at `d` whole degrees
/// with speed `v` milli-units: `t = dx / (v*cos(a))`.
pub open spec fn flight_time_milli(adx: int, d: int, v: int) -> int {
    1000 * adx * isqrt_spec((1_000_000 + tan_signed(d) * tan_signed(d)) as nat) / v
}

/// The hit emitted by the angle mode for degree `d`.
pub open spec fn angle_hit(c: Config, adx: int, d: int) -> Hit {
    Hit {
        angle: d as i32,
        velocity: c.v0_milli,
        time: flight_time_milli(adx, d, c.v0_milli as int) as u64,
    }
}

/// Zero or one hit at degree `d`, depending on the tolerance check.
pub open spec fn angle_emit(c: Config, adx: int, dy: int, d: int) -> Seq<Hit> {
    if angle_hits(c, adx, dy, d) {
        seq![angle_hit(c, adx, d)]
    } else {
        Seq::empty()
    }
}

/// The hit of a purely vertical shot: straight up, with exactly the
/// speed that runs out at height `dy`, for time `v/g`.
pub open spec fn vertical_hit(c: Config, dy: int) -> Hit {
    let v = isqrt_spec((2_000 * (c.gravity_milli as int) * dy) as nat);
    Hit {
        angle: 90i32,
        velocity: v as u64,
        time: (1_000 * (v as int) / (c.gravity_milli as int)) as u64,
    }
}

/// Everything the angle mode returns, best (lowest angle) first.
pub open spec fn spec_solve_angle(c: Config, dx: int, dy: int) -> Seq<Hit> {
    let adx = iabs(dx);
    if adx == 0 {
        if dy > 0 {
            seq![vertical_hit(c, dy)]
        } else {
            Seq::empty()
        }
    } else {
        let k = drop_k_milli(c, adx);
        if k <= 0 || k > K_CAP_MILLI {
            Seq::empty()
        } else if disc_mm(c, adx, dy) < 0 {
            Seq::empty()
        } else {
            let d1 = atan_deg(root_lo_milli(c, adx, dy));
            let d2 = atan_deg(root_hi_milli(c, adx, dy));
            let lo = if d1 <= d2 {
                d1
            } else {
                d2
            };
            let hi = if d1 <= d2 {
                d2
            } else {
                d1
            };
            if lo == hi {
                angle_emit(c, adx, dy, lo)
            } else {
                angle_emit(c, adx, dy, lo) + angle_emit(c, adx, dy, hi)
            }
        }
    }
}

/// Computes the drop coefficient.
fn compute_k(c: &Config, adx: i64) -> (k: u128)
    requires
        c.wf(),
        0 < adx <= 4_294_967_296,
    ensures
        k == drop_k_milli(*c, adx as int),
{
    let g: u128 = c.gravity_milli as u128;
    let v0: u128 = c.v0_milli as u128;
    let adxu: u128 = adx as u128;
    let a1: u128 = 500_000 * g;
    proof {
        assert(a1 * adxu <= 50_000_000_000 * 4_294_967_296) by (nonlinear_arith)
            requires
                0 <= a1 <= 50_000_000_000,
                0 <= adxu <= 4_294_967_296,
        ;
    }
    let a2: u128 = a1 * adxu;
    proof {
        assert(a2 * adxu <= 214_748_364_800_000_000_000 * 4_294_967_296) by (nonlinear_arith)
            requires
                0 <= a2 <= 214_748_364_800_000_000_000,
                0 <= adxu <= 4_294_967_296,
        ;
        assert(v0 * v0 >= 1) by (nonlinear_arith)
            requires
                v0 >= 1_000,
        ;
        assert(v0 * v0 <= 1_000_000_000_000_000_000) by (nonlinear_arith)
            requires
                0 <= v0 <= 1_000_000_000,
        ;
    }
    let a3: u128 = a2 * adxu;
    a3 / (v0 * v0)
}

/// The angle-mode tolerance check and hit construction for one
/// candidate degree.
fn try_angle(c: &Config, adx: i64, dy: i64, d: i32, k: u128) -> (r: Option<Hit>)
    requires
        c.wf(),
        0 < adx <= 4_294_967_296,
        coord_ok(dy as int),
        -89 <= d <= 89,
        k == drop_k_milli(*c, adx as int),
        1 <= k <= K_CAP_MILLI,
    ensures
        angle_hits(*c, adx as int, dy as int, d as int) ==> r == Some(
            angle_hit(*c, adx as int, d as int),
        ),
        !angle_hits(*c, adx as int, dy as int, d as int) ==> r is None,
{
    let tv: i64 = if d >= 0 {
        tan_lookup(d)
    } else {
        -tan_lookup(-d)
    };
    assert(tv == tan_signed(d as int));
    let tvi: i128 = tv as i128;
    let kk: i128 = k as i128;
    proof {
        assert((adx as i128) * tvi <= 4_294_967_296 * 57_290 && (adx as i128) * tvi >= -(
        4_294_967_296 * 57_290)) by (nonlinear_arith)
            requires
                0 <= adx as i128 <= 4_294_967_296,
                -57_290 <= tvi <= 57_290,
        ;
        assert(0 <= tvi * tvi <= 57_290 * 57_290) by (nonlinear_arith)
            requires
                -57_290 <= tvi <= 57_290,
        ;
    }
    let h1: i128 = (adx as i128) * tvi;
    let tsq: i128 = tvi * tvi;
    proof {
        assert(0 <= kk * tsq <= 1_000_000_000_000_000_000 * (57_290 * 57_290)) by (nonlinear_arith)
            requires
                1 <= kk <= 1_000_000_000_000_000_000,
                0 <= tsq <= 57_290 * 57_290,
        ;
    }
    let h2: i128 = kk * tsq;
    let h3: i128 = h2 / 1_000_000;
    let height: i128 = h1 - kk - h3;
    let target: i128 = 1_000 * (dy as i128);
    let diff: i128 = if height >= target {
        height - target
    } else {
        target - height
    };
    assert(height == height_at_milli(*c, adx as int, d as int));
    assert(diff == dist(height_at_milli(*c, adx as int, d as int), 1_000 * dy));
    if diff <= c.tol_milli as i128 {
        let st: u128 = isqrt((1_000_000 + tsq) as u128);
        proof {
            assert(st <= 57_300) by (nonlinear_arith)
                requires
                    (st as int) * (st as int) <= 1_000_000 + tsq,
                    0 <= tsq <= 57_290 * 57_290,
                    st >= 0,
            ;
            assert(1_000 * (adx as u128) * st <= 1_000 * 4_294_967_296 * 57_300)
                by (nonlinear_arith)
                requires
                    0 < adx as u128 <= 4_294_967_296,
                    0 <= st <= 57_300,
            ;
        }
        let tmul: u128 = 1_000 * (adx as u128) * st;
        let time: u128 = tmul / (c.v0_milli as u128);
        Some(Hit { angle: d, velocity: c.v0_milli, time: time as u64 })
    } else {
        None
    }
}

/// All launch angles that reach the target at the fixed speed of `c`,
/// each with that speed and its flight time; empty when the target is
/// out of range. `dx` may have either sign: the angle is measured
/// toward the target.
#[verifier::rlimit(100)]
pub fn solve_angle(c: &Config, dx: i64, dy: i64) -> (r: Vec<Hit>)
    requires
        c.wf(),
        coord_ok(dx as int),
        coord_ok(dy as int),
    ensures
        r@ == spec_solve_angle(*c, dx as int, dy as int),
{
    let mut out: Vec<Hit> = Vec::new();
    let adx: i64 = if dx < 0 {
        -dx
    } else {
        dx
    };
    assert(adx == iabs(dx as int));
    if adx == 0 {
        if dy > 0 {
            let g: u128 = c.gravity_milli as u128;
            proof {
                assert(2_000 * g * (dy as u128) <= 200_000_000 * 4_294_967_296)
                    by (nonlinear_arith)
                    requires
                        0 <= 2_000 * g <= 200_000_000,
                        0 < dy as u128 <= 4_294_967_296,
                ;
            }
            let vsq: u128 = 2_000 * g * (dy as u128);
            let v: u128 = isqrt(vsq);
            let tm: u128 = 1_000 * v / g;
            out.push(Hit { angle: 90, velocity: v as u64, time: tm as u64 });
            assert(out@ =~= spec_solve_angle(*c, dx as int, dy as int));
        } else {
            assert(out@ =~= spec_solve_angle(*c, dx as int, dy as int));
        }
        return out;
    }
    let k: u128 = compute_k(c, adx);
    if k == 0 || k > K_CAP_MILLI {
        assert(out@ =~= spec_solve_angle(*c, dx as int, dy as int));
        return out;
    }
    let kk: i128 = k as i128;
    let lin: i128 = kk + 1_000 * (dy as i128);
    proof {
        assert(1_000_000 * (adx as i128) * (adx as i128) <= 1_000_000 * (4_294_967_296
            * 4_294_967_296)) by (nonlinear_arith)
            requires
                0 < adx as i128 <= 4_294_967_296,
        ;
        assert(-(4 * (1_000_000_000_000_000_000 + 4_294_967_296_000) * 1_000_000_000_000_000_000)
            <= 4 * kk * lin <= 4 * (1_000_000_000_000_000_000 + 4_294_967_296_000)
            * 1_000_000_000_000_000_000) by (nonlinear_arith)
            requires
                1 <= kk <= 1_000_000_000_000_000_000,
                -(1_000_000_000_000_000_000i128 + 4_294_967_296_000) <= lin
                    <= 1_000_000_000_000_000_000i128 + 4_294_967_296_000,
        ;
    }
    let dmm: i128 = 1_000_000 * (adx as i128) * (adx as i128) - 4 * kk * lin;
    if dmm < 0 {
        assert(out@ =~= spec_solve_angle(*c, dx as int, dy as int));
        return out;
    }
    let s: u128 = isqrt(dmm as u128);
    proof {
        assert(s <= 2_100_000_000_000_000_000) by (nonlinear_arith)
            requires
                (s as int) * (s as int) <= dmm as int,
                dmm as int <= 4_100_000_000_000_000_000_000_000_000_000_000_000,
                s >= 0,
        ;
    }
    let num_base: i128 = 1_000_000 * (adx as i128);
    let r_lo: i128 = div_floor(num_base - 1_000 * (s as i128), 2 * kk);
    let r_hi: i128 = div_floor(num_base + 1_000 * (s as i128), 2 * kk);
    let d1: i32 = atan_lookup(r_lo);
    let d2: i32 = atan_lookup(r_hi);
    proof {
        assert(dmm == disc_mm(*c, adx as int, dy as int));
        assert(r_lo == root_lo_milli(*c, adx as int, dy as int));
        assert(r_hi == root_hi_milli(*c, adx as int, dy as int));
        assert(d1 == atan_deg(root_lo_milli(*c, adx as int, dy as int)));
        assert(d2 == atan_deg(root_hi_milli(*c, adx as int, dy as int)));
    }
    let lo: i32 = if d1 <= d2 {
        d1
    } else {
        d2
    };
    let hi: i32 = if d1 <= d2 {
        d2
    } else {
        d1
    };
    if let Some(h) = try_angle(c, adx, dy, lo, k) {
        out.push(h);
    }
    proof {
        assert(out@ =~= angle_emit(*c, adx as int, dy as int, lo as int));
    }
    if hi != lo {
        if let Some(h) = try_angle(c, adx, dy, hi, k) {
            out.push(h);
        }
        proof {
            assert(out@ =~= angle_emit(*c, adx as int, dy as int, lo as int) + angle_emit(
                *c,
                adx as int,
                dy as int,
                hi as int,
            ));
        }
    }
    assert(out@ =~= spec_solve_angle(*c, dx as int, dy as int));
    out
}
/// The denominator of the speed solution at degree `d`, in milli-units:
/// positive exactly when some finite speed can meet the target there.
pub open spec fn vel_den_milli(adx: int, dy: int, d: int) -> int {
    adx * tan_milli(d) - 1_000 * dy
}

/// The squared speed solving the range equation at degree `d`, in
/// squared milli-units; meaningful only for a positive denominator.
pub open spec fn vel_vsq_milli(c: Config, adx: int, dy: int, d: int) -> int {
    (c.gravity_milli as int) * adx * adx * (1_000_000 + tan_milli(d) * tan_milli(d)) / (2
        * vel_den_milli(adx, dy, d))
}

/// The speed-mode solution at degree `d`: none when no real positive
/// speed reaches the target at that angle.
pub open spec fn vel_hit(c: Config, adx: int, dy: int, d: int) -> Option<Hit> {
    if vel_den_milli(adx, dy, d) <= 0 {
        None
    } else {
        let v = isqrt_spec(vel_vsq_milli(c, adx, dy, d) as nat);
        if v == 0 {
            None
        } else {
            Some(
                Hit {
                    angle: d as i32,
                    velocity: v as u64,
                    time: flight_time_milli(adx, d, v as int) as u64,
                },
            )
        }
    }
}

/// Zero or one hit contributed by degree `d` of the sweep.
pub open spec fn vel_emit(c: Config, adx: int, dy: int, d: int) -> Seq<Hit> {
    match vel_hit(c, adx, dy, d) {
        Some(h) => seq![h],
        None => Seq::empty(),
    }
}

/// The hits of the swept degrees `1..=d`, in sweep order.
pub open spec fn sweep_upto(c: Config, adx: int, dy: int, d: int) -> Seq<Hit>
    decreases d,
{
    if d <= 0 {
        Seq::empty()
    } else {
        sweep_upto(c, adx, dy, d - 1) + vel_emit(c, adx, dy, d)
    }
}

/// The preference order on hits: lowest required speed first, then
/// lowest angle, then lowest flight time.
pub open spec fn hit_le(a: Hit, b: Hit) -> bool {
    a.velocity < b.velocity || (a.velocity == b.velocity && (a.angle < b.angle || (a.angle
        == b.angle && a.time <= b.time)))
}

/// Insertion into a sorted sequence, keeping earlier equals first.
pub open spec fn insert_sorted(h: Hit, s: Seq<Hit>) -> Seq<Hit>
    decreases s.len(),
{
    if s.len() == 0 {
        seq![h]
    } else if hit_le(h, s[0]) {
        seq![h] + s
    } else {
        seq![s[0]] + insert_sorted(h, s.drop_first())
    }
}

/// Insertion sort of a hit sequence under `hit_le`.
pub open spec fn sort_hits_spec(s: Seq<Hit>) -> Seq<Hit>
    decreases s.len(),
{
    if s.len() == 0 {
        s
    } else {
        insert_sorted(s.last(), sort_hits_spec(s.drop_last()))
    }
}

/// Everything the velocity mode returns: one hit per reachable swept
/// degree, ordered best first.
pub open spec fn spec_solve_velocity(c: Config, dx: int, dy: int) -> Seq<Hit> {
    sort_hits_spec(sweep_upto(c, iabs(dx), dy, 89))
}

/// What `solve` returns for each mode.
pub open spec fn spec_solve(c: Config, m: Mode, t: RelativeTarget) -> Seq<Hit> {
    match m {
        Mode::Angle => spec_solve_angle(c, t.dx as int, t.dy as int),
        Mode::Velocity => spec_solve_velocity(c, t.dx as int, t.dy as int),
    }
}

/// The preference order, executably.
fn hit_le_exec(a: &Hit, b: &Hit) -> (r: bool)
    ensures
        r == hit_le(*a, *b),
{
    a.velocity < b.velocity || (a.velocity == b.velocity && (a.angle < b.angle || (a.angle
        == b.angle && a.time <= b.time)))
}

/// Inserts a hit into an already sorted vector.
fn insert_hit(h: Hit, v: Vec<Hit>) -> (r: Vec<Hit>)
    ensures
        r@ == insert_sorted(h, v@),
    decreases v@.len(),
{
    let mut v = v;
    if v.len() == 0 {
        v.push(h);
        proof {
            assert(v@ =~= seq![h]);
        }
        v
    } else if hit_le_exec(&h, &v[0]) {
        let ghost before = v@;
        v.insert(0, h);
        proof {
            assert(v@ =~= seq![h] + before);
        }
        v
    } else {
        let ghost orig = v@;
        let first = v.remove(0);
        proof {
            assert(v@ =~= orig.drop_first());
        }
        let mut out = insert_hit(h, v);
        out.insert(0, first);
        proof {
            assert(out@ =~= seq![first] + insert_sorted(h, orig.drop_first()));
        }
        out
    }
}

/// The speed-mode check and hit construction for one swept degree.
fn try_velocity(c: &Config, adx: i64, dy: i64, d: i32) -> (r: Option<Hit>)
    requires
        c.wf(),
        0 <= adx <= 4_294_967_296,
        coord_ok(dy as int),
        1 <= d <= 89,
    ensures
        r == vel_hit(*c, adx as int, dy as int, d as int),
{
    let tv: i64 = tan_lookup(d);
    let tvi: i128 = tv as i128;
    proof {
        assert(-(4_294_967_296 * 57_290) <= (adx as i128) * tvi <= 4_294_967_296 * 57_290)
            by (nonlinear_arith)
            requires
                0 <= adx as i128 <= 4_294_967_296,
                0 <= tvi <= 57_290,
        ;
    }
    let den: i128 = (adx as i128) * tvi - 1_000 * (dy as i128);
    if den <= 0 {
        return None;
    }
    proof {
        assert(0 <= tvi * tvi <= 57_290 * 57_290) by (nonlinear_arith)
            requires
                0 <= tvi <= 57_290,
        ;
    }
    let tsq: i128 = tvi * tvi;
    let g: u128 = c.gravity_milli as u128;
    let adxu: u128 = adx as u128;
    proof {
        assert(g * adxu <= 100_000 * 4_294_967_296) by (nonlinear_arith)
            requires
                0 <= g <= 100_000,
                0 <= adxu <= 4_294_967_296,
        ;
    }
    let n1: u128 = g * adxu;
    proof {
        assert(n1 * adxu <= 429_496_729_600_000 * 4_294_967_296) by (nonlinear_arith)
            requires
                0 <= n1 <= 429_496_729_600_000,
                0 <= adxu <= 4_294_967_296,
        ;
    }
    let n2: u128 = n1 * adxu;
    proof {
        assert(n2 * ((1_000_000 + tsq) as u128) <= 1_844_674_407_370_955_161_600_000
            * 3_283_204_100) by (nonlinear_arith)
            requires
                0 <= n2 <= 1_844_674_407_370_955_161_600_000,
                0 <= (1_000_000 + tsq) as u128 <= 3_283_204_100,
        ;
    }
    let n3: u128 = n2 * ((1_000_000 + tsq) as u128);
    let vsq: u128 = n3 / (2 * (den as u128));
    proof {
        vstd::arithmetic::div_mod::lemma_div_nonincreasing(n3 as int, 2 * (den as int));
    }
    let v: u128 = isqrt(vsq);
    if v == 0 {
        proof {
            assert(vel_hit(*c, adx as int, dy as int, d as int) is None);
        }
        return None;
    }
    let st: u128 = isqrt((1_000_000 + tsq) as u128);
    proof {
        assert(st <= 57_300) by (nonlinear_arith)
            requires
                (st as int) * (st as int) <= 1_000_000 + tsq,
                0 <= tsq <= 57_290 * 57_290,
                st >= 0,
        ;
        assert(1_000 * adxu * st <= 1_000 * 4_294_967_296 * 57_300) by (nonlinear_arith)
            requires
                0 <= adxu <= 4_294_967_296,
                0 <= st <= 57_300,
        ;
    }
    let tmul: u128 = 1_000 * adxu * st;
    let time: u128 = tmul / v;
    Some(Hit { angle: d, velocity: v as u64, time: time as u64 })
}

/// The speed required at every swept whole degree (1 through 89) that
/// can reach the target, each with its flight time, lowest speed
/// first. `dx` may have either sign: the angle is measured toward the
/// target.
pub fn solve_velocity(c: &Config, dx: i64, dy: i64) -> (r: Vec<Hit>)
    requires
        c.wf(),
        coord_ok(dx as int),
        coord_ok(dy as int),
    ensures
        r@ == spec_solve_velocity(*c, dx as int, dy as int),
{
    let adx: i64 = if dx < 0 {
        -dx
    } else {
        dx
    };
    assert(adx == iabs(dx as int));
    let mut out: Vec<Hit> = Vec::new();
    let mut dd: i32 = 1;
    proof {
        assert(out@ =~= sort_hits_spec(sweep_upto(*c, adx as int, dy as int, 0)));
    }
    while dd <= 89
        invariant
            1 <= dd <= 90,
            c.wf(),
            0 <= adx <= 4_294_967_296,
            adx == iabs(dx as int),
            coord_ok(dy as int),
            out@ == sort_hits_spec(sweep_upto(*c, adx as int, dy as int, dd - 1)),
        decreases 90 - dd,
    {
        let ghost pre = sweep_upto(*c, adx as int, dy as int, dd - 1);
        let oh = try_velocity(c, adx, dy, dd);
        match oh {
            Some(h) => {
                proof {
                    let cur = sweep_upto(*c, adx as int, dy as int, dd as int);
                    assert(cur == pre + seq![h]);
                    assert(cur.drop_last() =~= pre);
                    assert(cur.last() == h);
                    assert(sort_hits_spec(cur) == insert_sorted(h, sort_hits_spec(pre)));
                }
                out = insert_hit(h, out);
            },
            None => {
                proof {
                    assert(sweep_upto(*c, adx as int, dy as int, dd as int) =~= pre);
                }
            },
        }
        dd = dd + 1;
    }
    out
}

/// Dispatches the active mode on a translated target.
pub fn solve(c: &Config, mode: Mode, target: &RelativeTarget) -> (r: Vec<Hit>)
    requires
        c.wf(),
        target.wf(),
    ensures
        r@ == spec_solve(*c, mode, *target),
{
    match mode {
        Mode::Angle => solve_angle(c, target.dx, target.dy),
        Mode::Velocity => solve_velocity(c, target.dx, target.dy),
    }
}

} // verus!
