//! The guarantees the library states about itself, each proved once
//! and for all over the solver's and organizer's specifications.

use vstd::prelude::*;
use vstd::seq_lib::{group_to_multiset_ensures, lemma_multiset_commutative};
use crate::model::{Config, Hit, Mode, RelativeTarget};
use crate::num::{isqrt_spec, lemma_isqrt_bounds};
use crate::trig::{dist, lemma_atan_deg_range, tan_milli};
use crate::solver::{angle_hits, coord_ok, height_at_milli, hit_le, iabs, insert_sorted,
    sort_hits_spec, spec_solve, spec_solve_angle, spec_solve_velocity, sweep_upto, vel_den_milli,
    vel_emit, vel_hit, vel_vsq_milli};
use crate::organize::{angles_ok, bucket_of, cats_add, join_tokens, spec_categories, spec_format};

verus! {

/// Every hit of the angle mode, substituted back into the range
/// equation at its rounded angle and the fixed speed, meets the target
/// height within the configured tolerance.
#[verifier::rlimit(100)]
pub proof fn lemma_angle_mode_within_tolerance(c: Config, dx: int, dy: int, i: int)
    requires
        dx != 0,
        0 <= i < spec_solve_angle(c, dx, dy).len(),
    ensures
        angle_hits(c, iabs(dx), dy, spec_solve_angle(c, dx, dy)[i].angle as int),
        dist(
            height_at_milli(c, iabs(dx), spec_solve_angle(c, dx, dy)[i].angle as int),
            1_000 * dy,
        ) <= c.tol_milli,
{
    let adx = iabs(dx);
    let s = spec_solve_angle(c, dx, dy);
    lemma_atan_deg_range(crate::solver::root_lo_milli(c, adx, dy));
    lemma_atan_deg_range(crate::solver::root_hi_milli(c, adx, dy));
}

/// Inserting into a sequence adds exactly that element to its contents.
pub proof fn lemma_insert_sorted_multiset(h: Hit, s: Seq<Hit>)
    ensures
        insert_sorted(h, s).to_multiset() =~= s.to_multiset().insert(h),
    decreases s.len(),
{
    broadcast use group_to_multiset_ensures;
    broadcast use lemma_multiset_commutative;
    broadcast use vstd::multiset::group_multiset_axioms;

    if s.len() == 0 {
        assert(insert_sorted(h, s) =~= Seq::<Hit>::empty().push(h));
    } else if hit_le(h, s[0]) {
        assert(seq![h] =~= Seq::<Hit>::empty().push(h));
        assert((seq![h] + s).to_multiset() =~= s.to_multiset().insert(h));
    } else {
        lemma_insert_sorted_multiset(h, s.drop_first());
        assert(seq![s[0]] =~= Seq::<Hit>::empty().push(s[0]));
        assert(s =~= seq![s[0]] + s.drop_first());
        assert((seq![s[0]] + insert_sorted(h, s.drop_first())).to_multiset() =~= s.to_multiset()
            .insert(h));
    }
}

/// Sorting keeps exactly the same hits.
pub proof fn lemma_sort_multiset(s: Seq<Hit>)
    ensures
        sort_hits_spec(s).to_multiset() =~= s.to_multiset(),
    decreases s.len(),
{
    broadcast use group_to_multiset_ensures;

    if s.len() > 0 {
        lemma_sort_multiset(s.drop_last());
        lemma_insert_sorted_multiset(s.last(), sort_hits_spec(s.drop_last()));
        assert(s =~= s.drop_last().push(s.last()));
    }
}

/// Each member of the sweep was produced by its own swept degree.
pub proof fn lemma_sweep_member(c: Config, adx: int, dy: int, d: int, h: Hit)
    requires
        sweep_upto(c, adx, dy, d).contains(h),
        d <= 89,
    ensures
        1 <= h.angle <= 89,
        vel_hit(c, adx, dy, h.angle as int) == Some(h),
    decreases d,
{
    if d <= 0 {
        assert(false);
    } else {
        let pre = sweep_upto(c, adx, dy, d - 1);
        let em = vel_emit(c, adx, dy, d);
        let whole = pre + em;
        let i = choose|i: int| 0 <= i < whole.len() && whole[i] == h;
        if i < pre.len() {
            assert(pre.contains(h));
            lemma_sweep_member(c, adx, dy, d - 1, h);
        } else {
            assert(em[i - pre.len()] == h);
            assert(vel_hit(c, adx, dy, d) == Some(h));
            assert(h.angle == d as i32);
        }
    }
}

/// Every hit of the velocity mode satisfies the range equation at its
/// swept angle within the integer rounding: the positive-denominator
/// quotient that solves the equation for the squared speed is
/// bracketed by the squares of the returned speed and its successor.
pub proof fn lemma_velocity_mode_satisfies_equation(c: Config, dx: int, dy: int, i: int)
    requires
        c.wf(),
        coord_ok(dx),
        coord_ok(dy),
        0 <= i < spec_solve_velocity(c, dx, dy).len(),
    ensures
        ({
            let h = spec_solve_velocity(c, dx, dy)[i];
            let d = h.angle as int;
            &&& 1 <= h.angle <= 89
            &&& vel_den_milli(iabs(dx), dy, d) > 0
            &&& h.velocity >= 1
            &&& (h.velocity as int) * (h.velocity as int) <= vel_vsq_milli(c, iabs(dx), dy, d)
            &&& vel_vsq_milli(c, iabs(dx), dy, d) < ((h.velocity as int) + 1) * ((
            h.velocity as int) + 1)
        }),
{
    broadcast use group_to_multiset_ensures;

    let adx = iabs(dx);
    let sorted = spec_solve_velocity(c, dx, dy);
    let sw = sweep_upto(c, adx, dy, 89);
    lemma_sort_multiset(sw);
    let h = sorted[i];
    assert(sorted.contains(h));
    assert(sorted.to_multiset().count(h) > 0);
    assert(sw.to_multiset().count(h) > 0);
    assert(sw.contains(h));
    lemma_sweep_member(c, adx, dy, 89, h);
    let d = h.angle as int;
    let vsq = vel_vsq_milli(c, adx, dy, d);
    let tm = tan_milli(d);
    assert(0 <= tm <= 57_290);
    let g = c.gravity_milli as int;
    let num = g * adx * adx * (1_000_000 + tm * tm);
    crate::num::lemma_mul_le(g, adx, 100_000, 4_294_967_296);
    crate::num::lemma_mul_le(g * adx, adx, 429_496_729_600_000, 4_294_967_296);
    crate::num::lemma_mul_le(tm, tm, 57_290, 57_290);
    crate::num::lemma_mul_le(
        g * adx * adx,
        1_000_000 + tm * tm,
        1_844_674_407_370_955_161_600_000,
        3_283_204_100,
    );
    assert(vel_den_milli(adx, dy, d) > 0);
    vstd::arithmetic::div_mod::lemma_div_pos_is_pos(num, 2 * vel_den_milli(adx, dy, d));
    vstd::arithmetic::div_mod::lemma_div_nonincreasing(num, 2 * vel_den_milli(adx, dy, d));
    assert(vsq == num / (2 * vel_den_milli(adx, dy, d)));
    assert(0 <= vsq <= 1_844_674_407_370_955_161_600_000 * 3_283_204_100);
    lemma_isqrt_bounds(vsq as nat);
    let v = isqrt_spec(vsq as nat);
    crate::num::lemma_sq_le(v as int, vsq, 0xffff_ffff_ffff_ffff);
    assert(h.velocity == v as u64);
}

/// A swept angle at which no real positive speed reaches the target
/// (the denominator of the squared-speed solution is not positive)
/// contributes no hit to the velocity mode's output.
pub proof fn lemma_velocity_mode_skips_unreachable(c: Config, dx: int, dy: int, d: int, i: int)
    requires
        c.wf(),
        coord_ok(dx),
        coord_ok(dy),
        vel_den_milli(iabs(dx), dy, d) <= 0,
        0 <= i < spec_solve_velocity(c, dx, dy).len(),
    ensures
        spec_solve_velocity(c, dx, dy)[i].angle != d,
{
    lemma_velocity_mode_satisfies_equation(c, dx, dy, i);
}

/// Solving twice with identical inputs and unchanged constants yields
/// identical ordered output: the result is a function of its inputs
/// alone.
pub proof fn lemma_solve_deterministic(
    c: Config,
    m: Mode,
    t: RelativeTarget,
    r1: Seq<Hit>,
    r2: Seq<Hit>,
)
    requires
        r1 == spec_solve(c, m, t),
        r2 == spec_solve(c, m, t),
    ensures
        r1 == r2,
{
}

/// Keys of a grouping, in strictly ascending order.
pub open spec fn keys_ascending(m: Seq<(i32, Seq<Hit>)>) -> bool {
    forall|i: int, j: int| 0 <= i < j < m.len() ==> (#[trigger] m[i]).0 < (#[trigger] m[j]).0
}

/// Every bucket is non-empty and keyed by a multiple of ten.
pub open spec fn buckets_keyed(m: Seq<(i32, Seq<Hit>)>) -> bool {
    forall|i: int| 0 <= i < m.len() ==> ((#[trigger] m[i]).1.len() > 0 && m[i].0 % 10 == 0)
}

/// Every bucket holds only hits whose own floor bucket is its key.
pub open spec fn buckets_hold_own(m: Seq<(i32, Seq<Hit>)>) -> bool {
    forall|i: int, j: int|
        0 <= i < m.len() && 0 <= j < m[i].1.len() ==> bucket_of(
            (#[trigger] m[i].1[j]).angle as int,
        ) == m[i].0
}

/// How many hits a grouping holds in all.
pub open spec fn total_len(m: Seq<(i32, Seq<Hit>)>) -> int
    decreases m.len(),
{
    if m.len() == 0 {
        0
    } else {
        m[0].1.len() + total_len(m.drop_first())
    }
}

/// Adding one hit keeps the grouping well formed and grows it by one.
pub proof fn lemma_cats_add_wf(m: Seq<(i32, Seq<Hit>)>, key: i32, h: Hit)
    requires
        keys_ascending(m),
        buckets_keyed(m),
        buckets_hold_own(m),
        key % 10 == 0,
        bucket_of(h.angle as int) == key,
    ensures
        keys_ascending(cats_add(m, key, h)),
        buckets_keyed(cats_add(m, key, h)),
        buckets_hold_own(cats_add(m, key, h)),
        total_len(cats_add(m, key, h)) == total_len(m) + 1,
        cats_add(m, key, h).len() > 0,
        cats_add(m, key, h)[0].0 == key || (m.len() > 0 && cats_add(m, key, h)[0].0 == m[0].0),
    decreases m.len(),
{
    let out = cats_add(m, key, h);
    if m.len() == 0 {
        assert(out =~~= seq![(key, seq![h])]);
        assert(out.drop_first() =~~= Seq::<(i32, Seq<Hit>)>::empty());
        assert(total_len(Seq::<(i32, Seq<Hit>)>::empty()) == 0);
        assert(out[0].1 =~= seq![h]);
        assert(total_len(out) == out[0].1.len() + total_len(out.drop_first()));
        assert(total_len(out) == 1);
    } else if key == m[0].0 {
        assert(out =~~= seq![(m[0].0, m[0].1.push(h))] + m.drop_first());
        assert(out.drop_first() =~~= m.drop_first());
        assert(forall|i: int| 1 <= i < out.len() ==> #[trigger] out[i] == m[i]);
        assert(total_len(out) == total_len(m) + 1) by {
            assert(total_len(m) == m[0].1.len() + total_len(m.drop_first()));
        };
        assert(buckets_hold_own(out)) by {
            assert(forall|j: int|
                0 <= j < out[0].1.len() ==> (#[trigger] out[0].1[j]).angle == (if j
                    < m[0].1.len() {
                    m[0].1[j]
                } else {
                    h
                }).angle);
        };
    } else if (key as int) < (m[0].0 as int) {
        assert(out =~~= seq![(key, seq![h])] + m);
        assert(out.drop_first() =~~= m);
        assert(forall|i: int| 1 <= i < out.len() ==> #[trigger] out[i] == m[i - 1]);
        assert(total_len(out) == total_len(m) + 1);
        assert(keys_ascending(out)) by {
            assert(forall|i: int, j: int|
                0 < i < j < out.len() ==> (#[trigger] out[i]).0 < (#[trigger] out[j]).0);
            assert(forall|j: int|
                0 < j < out.len() ==> out[0].0 < (#[trigger] out[j]).0) by {
                assert(forall|j: int|
                    1 < j < out.len() ==> m[0].0 <= (#[trigger] out[j]).0);
            };
        };
    } else {
        let tail = m.drop_first();
        lemma_cats_add_wf(tail, key, h);
        let rec = cats_add(tail, key, h);
        assert(out =~~= seq![m[0]] + rec);
        assert(out.drop_first() =~~= rec);
        assert(forall|i: int| 1 <= i < out.len() ==> #[trigger] out[i] == rec[i - 1]);
        assert(total_len(out) == total_len(m) + 1) by {
            assert(total_len(m) == m[0].1.len() + total_len(tail));
        };
        assert(rec[0].0 == key || (tail.len() > 0 && rec[0].0 == tail[0].0));
        assert(m[0].0 < key);
        assert(forall|j: int| 0 <= j < rec.len() ==> m[0].0 < (#[trigger] rec[j]).0) by {
            assert(rec[0].0 > m[0].0);
            assert(forall|j: int| 0 < j < rec.len() ==> rec[0].0 < (#[trigger] rec[j]).0);
        };
        assert(keys_ascending(out));
        assert(buckets_keyed(out));
        assert(buckets_hold_own(out));
    }
}

/// Grouping is a partition: bucket keys are multiples of ten in
/// strictly ascending order; every hit stands in the bucket of its own
/// angle under floor semantics (an angle of -5 lies in bucket -10,
/// not 0); and the buckets together hold exactly as many hits as came
/// in, so no hit is lost, duplicated, or present in two buckets.
pub proof fn lemma_categories_partition(s: Seq<Hit>)
    requires
        angles_ok(s),
    ensures
        keys_ascending(spec_categories(s)),
        buckets_keyed(spec_categories(s)),
        buckets_hold_own(spec_categories(s)),
        total_len(spec_categories(s)) == s.len(),
    decreases s.len(),
{
    if s.len() > 0 {
        assert(angles_ok(s.drop_last())) by {
            assert(forall|i: int|
                0 <= i < s.drop_last().len() ==> #[trigger] s.drop_last()[i] == s[i]);
        };
        lemma_categories_partition(s.drop_last());
        let a = s.last().angle as int;
        assert(-90 < a <= 90) by {
            assert(s.last() == s[s.len() - 1]);
        };
        assert(bucket_of(a) % 10 == 0 && -90 <= bucket_of(a) <= 90) by (nonlinear_arith)
            requires
                -90 < a <= 90,
                bucket_of(a) == 10 * (a / 10),
        ;
        lemma_cats_add_wf(spec_categories(s.drop_last()), bucket_of(a) as i32, s.last());
    }
}

/// No space occurs in a character sequence.
pub open spec fn no_space(s: Seq<char>) -> bool {
    forall|i: int| 0 <= i < s.len() ==> s[i] != ' '
}

/// Concatenation keeps freedom from spaces.
pub proof fn lemma_no_space_concat(a: Seq<char>, b: Seq<char>)
    requires
        no_space(a),
        no_space(b),
    ensures
        no_space(a + b),
{
    assert forall|i: int| 0 <= i < (a + b).len() implies (a + b)[i] != ' ' by {
        if i < a.len() {
            assert((a + b)[i] == a[i]);
        } else {
            assert((a + b)[i] == b[i - a.len()]);
        }
    }
}

/// Decimal digits never contain a space.
pub proof fn lemma_dec_digits_no_space(n: nat)
    ensures
        no_space(crate::organize::dec_digits(n)),
    decreases n,
{
    if n >= 10 {
        lemma_dec_digits_no_space(n / 10);
    }
}

/// A hit's token contains no space, so the space-joined rendering of
/// `format_hits` holds exactly one space-delimited field per shown
/// hit: together with the cap on joined tokens, the line never shows
/// more than the requested number of hits.
pub proof fn lemma_token_no_space(h: Hit)
    ensures
        no_space(crate::organize::token_chars(h)),
{
    reveal_strlit("angle=");
    reveal_strlit(",v=");
    reveal_strlit(",t=");
    lemma_dec_digits_no_space((h.velocity as nat) / 1000);
    lemma_dec_digits_no_space((h.time as nat) / 1000);
    let sc = crate::organize::signed_chars(h.angle as int);
    assert(no_space(sc)) by {
        if (h.angle as int) < 0 {
            lemma_dec_digits_no_space((-(h.angle as int)) as nat);
            lemma_no_space_concat(seq!['-'], crate::organize::dec_digits((-(h.angle as int)) as nat));
        } else {
            lemma_dec_digits_no_space((h.angle as int) as nat);
        }
    };
    let vm = crate::organize::milli_chars(h.velocity as nat);
    let tm = crate::organize::milli_chars(h.time as nat);
    assert(no_space(vm)) by {
        lemma_no_space_concat(
            crate::organize::dec_digits((h.velocity as nat) / 1000),
            vm.subrange(vm.len() - 4, vm.len() as int),
        );
        assert(vm =~= crate::organize::dec_digits((h.velocity as nat) / 1000) + vm.subrange(
            vm.len() - 4,
            vm.len() as int,
        ));
    };
    assert(no_space(tm)) by {
        lemma_no_space_concat(
            crate::organize::dec_digits((h.time as nat) / 1000),
            tm.subrange(tm.len() - 4, tm.len() as int),
        );
        assert(tm =~= crate::organize::dec_digits((h.time as nat) / 1000) + tm.subrange(
            tm.len() - 4,
            tm.len() as int,
        ));
    };
    lemma_no_space_concat("angle="@, sc);
    lemma_no_space_concat("angle="@ + sc, ",v="@);
    lemma_no_space_concat("angle="@ + sc + ",v="@, vm);
    lemma_no_space_concat("angle="@ + sc + ",v="@ + vm, ",t="@);
    lemma_no_space_concat("angle="@ + sc + ",v="@ + vm + ",t="@, tm);
}

/// The rendering joins at most `max` tokens whatever the input length,
/// and an empty hit list renders as the empty string.
pub proof fn lemma_format_bounded(s: Seq<Hit>, max: int)
    requires
        max >= 0,
    ensures
        ({
            let shown = if s.len() <= max {
                s.len() as int
            } else {
                max
            };
            spec_format(s, max) == join_tokens(s.take(shown)) && s.take(shown).len() <= max
        }),
        s.len() == 0 ==> spec_format(s, max) == Seq::<char>::empty(),
{
}

/// "Best first": every earlier hit is at least as preferred as every
/// later one.
pub open spec fn hits_sorted(s: Seq<Hit>) -> bool {
    forall|i: int, j: int| 0 <= i < j < s.len() ==> hit_le(#[trigger] s[i], #[trigger] s[j])
}

/// Insertion into a sorted sequence leaves it sorted.
pub proof fn lemma_insert_sorted_ordered(h: Hit, s: Seq<Hit>)
    requires
        hits_sorted(s),
    ensures
        hits_sorted(insert_sorted(h, s)),
    decreases s.len(),
{
    broadcast use group_to_multiset_ensures;

    let out = insert_sorted(h, s);
    if s.len() == 0 {
    } else if hit_le(h, s[0]) {
        assert(out == seq![h] + s);
        assert forall|i: int, j: int| 0 <= i < j < out.len() implies hit_le(out[i], out[j]) by {
            if i == 0 {
                assert(out[j] == s[j - 1]);
                if j > 1 {
                    assert(hit_le(s[0], s[j - 1]));
                }
            } else {
                assert(out[i] == s[i - 1] && out[j] == s[j - 1]);
            }
        }
    } else {
        let tail = s.drop_first();
        assert(hits_sorted(tail)) by {
            assert(forall|k: int| 0 <= k < tail.len() ==> #[trigger] tail[k] == s[k + 1]);
        };
        lemma_insert_sorted_ordered(h, tail);
        lemma_insert_sorted_multiset(h, tail);
        let ins = insert_sorted(h, tail);
        assert(out == seq![s[0]] + ins);
        assert forall|i: int, j: int| 0 <= i < j < out.len() implies hit_le(out[i], out[j]) by {
            if i == 0 {
                let x = ins[j - 1];
                assert(ins.contains(x));
                assert(ins.to_multiset().count(x) > 0);
                if x == h {
                    assert(hit_le(s[0], h));
                } else {
                    assert(tail.to_multiset().count(x) > 0);
                    assert(tail.contains(x));
                    let k = choose|k: int| 0 <= k < tail.len() && tail[k] == x;
                    assert(tail[k] == s[k + 1]);
                    assert(hit_le(s[0], s[k + 1]));
                }
            } else {
                assert(out[i] == ins[i - 1] && out[j] == ins[j - 1]);
            }
        }
    }
}

/// Insertion sort sorts.
pub proof fn lemma_sort_ordered(s: Seq<Hit>)
    ensures
        hits_sorted(sort_hits_spec(s)),
    decreases s.len(),
{
    if s.len() > 0 {
        lemma_sort_ordered(s.drop_last());
        lemma_insert_sorted_ordered(s.last(), sort_hits_spec(s.drop_last()));
    }
}

/// The velocity mode returns its hits best first: ascending required
/// speed, ties broken by ascending angle, then ascending flight time.
pub proof fn lemma_solve_velocity_sorted(c: Config, dx: int, dy: int)
    ensures
        hits_sorted(spec_solve_velocity(c, dx, dy)),
{
    lemma_sort_ordered(sweep_upto(c, iabs(dx), dy, 89));
}

/// The angle mode returns its hits in ascending angle order (its hits
/// all share the fixed speed, so the tie-break by angle decides).
pub proof fn lemma_solve_angle_ordered(c: Config, dx: int, dy: int)
    ensures
        forall|i: int, j: int|
            0 <= i < j < spec_solve_angle(c, dx, dy).len() ==> (#[trigger] spec_solve_angle(
                c,
                dx,
                dy,
            )[i]).angle <= (#[trigger] spec_solve_angle(c, dx, dy)[j]).angle,
{
    let adx = iabs(dx);
    lemma_atan_deg_range(crate::solver::root_lo_milli(c, adx, dy));
    lemma_atan_deg_range(crate::solver::root_hi_milli(c, adx, dy));
}

} // verus!
