//! Result organization: grouping hits into 10-degree angle buckets and
//! rendering a bounded, space-joined display line.

use vstd::prelude::*;
use vstd::string::StringExecFns;
use crate::model::Hit;
use crate::num::div_floor;

verus! {

/// The 10-degree bucket holding `angle`: the largest multiple of ten
/// not above it. Floor semantics, so an angle of -5 falls in bucket
/// -10, not 0.
pub open spec fn bucket_of(angle: int) -> int {
    10 * (angle / 10)
}

/// Angles a hit can carry, per the hit invariant.
pub open spec fn angles_ok(s: Seq<Hit>) -> bool {
    forall|i: int| 0 <= i < s.len() ==> -90 < #[trigger] s[i].angle <= 90
}

/// The bucket of one angle, executably.
pub fn bucket_of_angle(angle: i32) -> (b: i32)
    requires
        -90 < angle <= 90,
    ensures
        b == bucket_of(angle as int),
{
    let q: i128 = div_floor(angle as i128, 10);
    (10 * q) as i32
}

/// The association list `m` with `h` added under `key`: appended to an
/// existing bucket, or opening a new bucket at its sorted position.
pub open spec fn cats_add(m: Seq<(i32, Seq<Hit>)>, key: i32, h: Hit) -> Seq<(i32, Seq<Hit>)>
    decreases m.len(),
{
    if m.len() == 0 {
        seq![(key, seq![h])]
    } else if key == m[0].0 {
        seq![(m[0].0, m[0].1.push(h))] + m.drop_first()
    } else if (key as int) < (m[0].0 as int) {
        seq![(key, seq![h])] + m
    } else {
        seq![m[0]] + cats_add(m.drop_first(), key, h)
    }
}

/// The grouping of `s` into 10-degree buckets: keys ascending, the
/// original order kept inside each bucket.
pub open spec fn spec_categories(s: Seq<Hit>) -> Seq<(i32, Seq<Hit>)>
    decreases s.len(),
{
    if s.len() == 0 {
        Seq::empty()
    } else {
        cats_add(
            spec_categories(s.drop_last()),
            bucket_of(s.last().angle as int) as i32,
            s.last(),
        )
    }
}

/// The mathematical view of a built category vector.
pub open spec fn cats_view(v: Seq<(i32, Vec<Hit>)>) -> Seq<(i32, Seq<Hit>)> {
    v.map_values(|p: (i32, Vec<Hit>)| (p.0, p.1@))
}

/// Adds one hit to the built categories.
fn cats_insert(m: Vec<(i32, Vec<Hit>)>, key: i32, h: Hit) -> (r: Vec<(i32, Vec<Hit>)>)
    ensures
        cats_view(r@) == cats_add(cats_view(m@), key, h),
    decreases m@.len(),
{
    let mut m = m;
    if m.len() == 0 {
        let mut b: Vec<Hit> = Vec::new();
        b.push(h);
        m.push((key, b));
        proof {
            assert(cats_view(m@) =~~= cats_add(cats_view(Seq::<(i32, Vec<Hit>)>::empty()), key, h));
        }
        m
    } else if key == m[0].0 {
        let ghost orig = m@;
        let mut first = m.remove(0);
        first.1.push(h);
        m.insert(0, first);
        proof {
            assert(cats_view(m@) =~~= cats_add(cats_view(orig), key, h));
        }
        m
    } else if key < m[0].0 {
        let ghost orig = m@;
        let mut b: Vec<Hit> = Vec::new();
        b.push(h);
        m.insert(0, (key, b));
        proof {
            assert(cats_view(m@) =~~= cats_add(cats_view(orig), key, h));
        }
        m
    } else {
        let ghost orig = m@;
        let first = m.remove(0);
        let mut r = cats_insert(m, key, h);
        r.insert(0, first);
        proof {
            let cv = cats_view(orig);
            assert(cats_view(orig.drop_first()) =~~= cv.drop_first());
            assert(cats_view(r@) =~~= seq![cv[0]] + cats_add(cv.drop_first(), key, h));
            assert(cats_view(r@) =~~= cats_add(cv, key, h));
        }
        r
    }
}

/// Groups the hits by 10-degree angle bucket, keys in ascending order,
/// keeping the incoming order inside each bucket.
pub fn into_angle_categories(hits: &Vec<Hit>) -> (r: Vec<(i32, Vec<Hit>)>)
    requires
        angles_ok(hits@),
    ensures
        cats_view(r@) == spec_categories(hits@),
{
    let mut out: Vec<(i32, Vec<Hit>)> = Vec::new();
    let mut i: usize = 0;
    proof {
        assert(cats_view(out@) =~~= spec_categories(hits@.take(0)));
    }
    while i < hits.len()
        invariant
            0 <= i <= hits@.len(),
            angles_ok(hits@),
            cats_view(out@) == spec_categories(hits@.take(i as int)),
        decreases hits@.len() - i,
    {
        let h = hits[i];
        let key = bucket_of_angle(h.get_angle());
        let ghost pre = hits@.take(i as int);
        out = cats_insert(out, key, h);
        proof {
            let cur = hits@.take(i as int + 1);
            assert(cur.drop_last() =~= pre);
            assert(cur.last() == h);
            assert(cats_view(out@) == spec_categories(cur));
        }
        i = i + 1;
    }
    proof {
        assert(hits@.take(hits@.len() as int) =~= hits@);
    }
    out
}

/// The character of one decimal digit.
pub open spec fn digit_char(d: int) -> char {
    if d == 0 {
        '0'
    } else if d == 1 {
        '1'
    } else if d == 2 {
        '2'
    } else if d == 3 {
        '3'
    } else if d == 4 {
        '4'
    } else if d == 5 {
        '5'
    } else if d == 6 {
        '6'
    } else if d == 7 {
        '7'
    } else if d == 8 {
        '8'
    } else {
        '9'
    }
}

/// The decimal digits of `n`, most significant first.
pub open spec fn dec_digits(n: nat) -> Seq<char>
    decreases n,
{
    if n < 10 {
        seq![digit_char(n as int)]
    } else {
        dec_digits(n / 10).push(digit_char((n % 10) as int))
    }
}

/// A milli-unit value rendered with three decimal places.
pub open spec fn milli_chars(n: nat) -> Seq<char> {
    dec_digits(n / 1000) + seq![
        '.',
        digit_char(((n / 100) % 10) as int),
        digit_char(((n / 10) % 10) as int),
        digit_char((n % 10) as int),
    ]
}

/// A signed whole number.
pub open spec fn signed_chars(a: int) -> Seq<char> {
    if a < 0 {
        seq!['-'] + dec_digits((-a) as nat)
    } else {
        dec_digits(a as nat)
    }
}

/// One hit's display token; it contains no space.
pub open spec fn token_chars(h: Hit) -> Seq<char> {
    "angle="@ + signed_chars(h.angle as int) + ",v="@ + milli_chars(h.velocity as nat)
        + ",t="@ + milli_chars(h.time as nat)
}

/// The space-joined tokens of all hits of `s`.
pub open spec fn join_tokens(s: Seq<Hit>) -> Seq<char>
    decreases s.len(),
{
    if s.len() == 0 {
        Seq::empty()
    } else if s.len() == 1 {
        token_chars(s[0])
    } else {
        join_tokens(s.drop_last()) + seq![' '] + token_chars(s.last())
    }
}

/// What `format_hits` renders: the first `max` hits, space-joined.
pub open spec fn spec_format(s: Seq<Hit>, max: int) -> Seq<char> {
    join_tokens(s.take(if s.len() <= max { s.len() as int } else { max }))
}

/// Relies on String::push: appends exactly the one character.
#[verifier::external_body]
fn push_char(s: &mut String, c: char)
    ensures
        final(s)@ == old(s)@.push(c),
{
    s.push(c);
}

/// One decimal digit, executably.
fn push_digit(s: &mut String, d: u64)
    requires
        d < 10,
    ensures
        final(s)@ == old(s)@.push(digit_char(d as int)),
{
    let c: char = if d == 0 {
        '0'
    } else if d == 1 {
        '1'
    } else if d == 2 {
        '2'
    } else if d == 3 {
        '3'
    } else if d == 4 {
        '4'
    } else if d == 5 {
        '5'
    } else if d == 6 {
        '6'
    } else if d == 7 {
        '7'
    } else if d == 8 {
        '8'
    } else {
        '9'
    };
    push_char(s, c);
}

/// Appends the decimal digits of `n`.
fn push_dec(s: &mut String, n: u64)
    ensures
        final(s)@ == old(s)@ + dec_digits(n as nat),
    decreases n,
{
    if n >= 10 {
        push_dec(s, n / 10);
        push_digit(s, n % 10);
        proof {
            assert(final(s)@ =~= old(s)@ + dec_digits(n as nat));
        }
    } else {
        push_digit(s, n);
        proof {
            assert(final(s)@ =~= old(s)@ + dec_digits(n as nat));
        }
    }
}

/// Appends a milli-unit value with three decimal places.
fn push_milli(s: &mut String, n: u64)
    ensures
        final(s)@ == old(s)@ + milli_chars(n as nat),
{
    push_dec(s, n / 1000);
    push_char(s, '.');
    push_digit(s, (n / 100) % 10);
    push_digit(s, (n / 10) % 10);
    push_digit(s, n % 10);
    proof {
        assert(final(s)@ =~= old(s)@ + milli_chars(n as nat));
    }
}

/// Appends one hit's token.
fn push_token(s: &mut String, h: &Hit)
    ensures
        final(s)@ == old(s)@ + token_chars(*h),
{
    s.append("angle=");
    if h.angle < 0 {
        push_char(s, '-');
        push_dec(s, (-(h.angle as i64)) as u64);
    } else {
        push_dec(s, h.angle as u64);
    }
    s.append(",v=");
    push_milli(s, h.velocity);
    s.append(",t=");
    push_milli(s, h.time);
    proof {
        assert(final(s)@ =~= old(s)@ + token_chars(*h));
    }
}

/// Renders at most `max_count` hits as space-joined tokens, in the
/// order given; an empty list renders as the empty string. Hits past
/// `max_count` are omitted from the display only, never removed from
/// the data.
pub fn format_hits(hits: &Vec<Hit>, max_count: usize) -> (s: String)
    ensures
        s@ == spec_format(hits@, max_count as int),
{
    let mut s = String::new();
    let n: usize = if hits.len() <= max_count {
        hits.len()
    } else {
        max_count
    };
    let mut i: usize = 0;
    while i < n
        invariant
            0 <= i <= n <= hits@.len(),
            s@ == join_tokens(hits@.take(i as int)),
        decreases n - i,
    {
        let ghost pre = hits@.take(i as int);
        if i > 0 {
            push_char(&mut s, ' ');
        }
        push_token(&mut s, &hits[i]);
        proof {
            let cur = hits@.take(i as int + 1);
            assert(cur.drop_last() =~= pre);
            assert(cur.last() == hits@[i as int]);
            if i == 0 {
                assert(s@ =~= join_tokens(cur));
            } else {
                assert(s@ =~= join_tokens(cur));
            }
        }
        i = i + 1;
    }
    s
}

} // verus!
