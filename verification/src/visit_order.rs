use vstd::prelude::*;

verus! {

/// A level of detail: level `l` merges cubes of side `2^l`.
pub type LOD = u8;

/// Largest number of chunks along one side of the window.
pub const MAX_WINDOW_SIDE: usize = 1024;

/// An offset from the player's chunk, with its distance in whole chunks.
pub type Visit = ((isize, isize, isize), usize);

/// Level of detail for a chunk at distance `d`. The thresholds are tried
/// in this order; the first has the largest bound, so the later ones
/// never decide and every distance of 200 or more gets the coarsest
/// level.
pub open spec fn lod_for(d: int) -> u8 {
    if d < 200 {
        0
    } else if d < 40 {
        1
    } else if d < 50 {
        2
    } else if d < 60 {
        3
    } else {
        4
    }
}

pub fn select_lod(distance_to_player: usize) -> (lod: LOD)
    ensures
        lod == lod_for(distance_to_player as int),
        lod < 5,
{
    if distance_to_player < 200 {
        0  // Full resolution

    } else if distance_to_player < 40 {
        1  // 1/2 resolution

    } else if distance_to_player < 50 {
        2  // 1/4 resolution

    } else if distance_to_player < 60 {
        3  // 1/8 resolution

    } else {
        4  // 1/16 resolution

    }
}

/// Only two levels are ever chosen: the finest below distance 200, the
/// coarsest from there on.
pub proof fn lemma_lod_buckets(d: int)
    ensures
        lod_for(d) == if d < 200 {
            0u8
        } else {
            4u8
        },
{
}

/// Whole part of the square root of `n`.
pub open spec fn isqrt_spec(n: int) -> int
    decreases n,
{
    if n <= 0 {
        0
    } else {
        let r = isqrt_spec(n - 1);
        if (r + 1) * (r + 1) <= n {
            r + 1
        } else {
            r
        }
    }
}

/// The whole part of the square root is the one number whose square does
/// not exceed `n` while the square of the next does.
pub proof fn lemma_isqrt(n: int)
    requires
        0 <= n,
    ensures
        0 <= isqrt_spec(n),
        isqrt_spec(n) * isqrt_spec(n) <= n < (isqrt_spec(n) + 1) * (isqrt_spec(n) + 1),
    decreases n,
{
    if n > 0 {
        lemma_isqrt(n - 1);
        let r = isqrt_spec(n - 1);
        assert((r + 2) * (r + 2) > (r + 1) * (r + 1) + 1) by (nonlinear_arith)
            requires
                r >= 0,
        ;
    }
}

pub proof fn lemma_isqrt_unique(n: int, r: int)
    requires
        0 <= r,
        r * r <= n < (r + 1) * (r + 1),
    ensures
        r == isqrt_spec(n),
{
    assert(n >= 0) by (nonlinear_arith)
        requires
            r * r <= n,
    ;
    lemma_isqrt(n);
    let s = isqrt_spec(n);
    assert(r == s) by (nonlinear_arith)
        requires
            0 <= r,
            0 <= s,
            r * r <= n < (r + 1) * (r + 1),
            s * s <= n < (s + 1) * (s + 1),
    ;
}

/// The square root does not shrink as its argument grows.
pub proof fn lemma_isqrt_monotonic(a: int, b: int)
    requires
        0 <= a <= b,
    ensures
        isqrt_spec(a) <= isqrt_spec(b),
{
    lemma_isqrt(a);
    lemma_isqrt(b);
    let r = isqrt_spec(a);
    let s = isqrt_spec(b);
    assert(r <= s) by (nonlinear_arith)
        requires
            0 <= r,
            0 <= s,
            r * r <= a,
            a <= b,
            b < (s + 1) * (s + 1),
    ;
}

fn squared(r: usize) -> (s: usize)
    requires
        r <= 0x4001,
    ensures
        s == r * r,
{
    assert(r * r <= 0x4001 * 0x4001) by (nonlinear_arith)
        requires
            0 <= r <= 0x4001,
    ;
    r * r
}

pub fn isqrt(n: usize) -> (r: usize)
    requires
        n <= 0x1000_0000,
    ensures
        r == isqrt_spec(n as int),
        r <= 0x4000,
{
    let mut r: usize = 0;
    while squared(r + 1) <= n
        invariant
            n <= 0x1000_0000,
            r <= 0x4000,
            r * r <= n,
        decreases n - r * r,
    {
        assert((r + 1) * (r + 1) > r * r) by (nonlinear_arith)
            requires
                r >= 0,
        ;
        assert(r + 1 <= 0x4000) by (nonlinear_arith)
            requires
                (r + 1) * (r + 1) <= n,
                n <= 0x1000_0000,
                r >= 0,
        ;
        r += 1;
    }
    proof {
        lemma_isqrt_unique(n as int, r as int);
    }
    r
}

/// Smallest offset of a chunk of the window along an axis with `n`
/// chunks: the window reaches one chunk further toward smaller coordinates
/// when `n` is even.
pub open spec fn window_lo(n: int) -> int {
    -(n / 2)
}

/// Whether offset `o` is that of a chunk of the window of size `sizes`.
pub open spec fn in_box(sizes: [usize; 3], o: (isize, isize, isize)) -> bool {
    &&& window_lo(sizes[0] as int) <= o.0 < window_lo(sizes[0] as int) + sizes[0]
    &&& window_lo(sizes[1] as int) <= o.1 < window_lo(sizes[1] as int) + sizes[1]
    &&& window_lo(sizes[2] as int) <= o.2 < window_lo(sizes[2] as int) + sizes[2]
}

/// How far the visits reach from the centre along an axis with `n`
/// chunks: half the side, rounded down, in both directions.
pub open spec fn reach(n: int) -> int {
    n / 2
}

/// Whether offset `o` is visited for a window of size `sizes`: no
/// component lies further from zero than the reach along its axis.
pub open spec fn in_reach(sizes: [usize; 3], o: (isize, isize, isize)) -> bool {
    &&& -reach(sizes[0] as int) <= o.0 <= reach(sizes[0] as int)
    &&& -reach(sizes[1] as int) <= o.1 <= reach(sizes[1] as int)
    &&& -reach(sizes[2] as int) <= o.2 <= reach(sizes[2] as int)
}

/// Number of offsets that are visited for a window of size `sizes`.
pub open spec fn reach_count(sizes: [usize; 3]) -> int {
    (2 * reach(sizes[0] as int) + 1) * ((2 * reach(sizes[1] as int) + 1) * (2 * reach(
        sizes[2] as int,
    ) + 1))
}

/// Squared length of an offset.
pub open spec fn squared_len(o: (isize, isize, isize)) -> int {
    o.0 * o.0 + o.1 * o.1 + o.2 * o.2
}

/// Distance of an offset from the centre in whole chunks, rounded down.
pub open spec fn offset_dist(o: (isize, isize, isize)) -> int {
    isqrt_spec(squared_len(o))
}

/// Whether offset `o` comes before `(x, y, z)` in the sweep that runs
/// along Z fastest and along X slowest.
pub open spec fn sweep_before(o: (isize, isize, isize), x: int, y: int, z: int) -> bool {
    o.0 < x || (o.0 == x && (o.1 < y || (o.1 == y && o.2 < z)))
}

/// Whether `a` is visited before `b`: nearer offsets first, and among
/// those at the same distance the earlier in the sweep.
pub open spec fn visit_before(a: Visit, b: Visit) -> bool {
    a.1 < b.1 || (a.1 == b.1 && sweep_before(a.0, b.0.0 as int, b.0.1 as int, b.0.2 as int))
}

/// Whether `o` is among the offsets of `r`.
pub open spec fn present(r: Seq<Visit>, o: (isize, isize, isize)) -> bool {
    exists|i: int| 0 <= i < r.len() && (#[trigger] r[i]).0 == o
}

/// Whether every entry of `r` is an offset within reach with its
/// distance.
pub open spec fn entries_in_reach(sizes: [usize; 3], r: Seq<Visit>) -> bool {
    forall|i: int|
        0 <= i < r.len() ==> in_reach(sizes, (#[trigger] r[i]).0) && r[i].1 == offset_dist(r[i].0)
}

/// Whether `r` is the visiting order of the window of size `sizes`: it
/// has one entry for each offset within reach, each with its distance, and
/// it runs from near to far, in sweep order among offsets equally far.
/// These fix `r`.
pub open spec fn is_visit_order(sizes: [usize; 3], r: Seq<Visit>) -> bool {
    &&& r.len() == reach_count(sizes)
    &&& entries_in_reach(sizes, r)
    &&& forall|i: int, j: int| 0 <= i < j < r.len() ==> visit_before(#[trigger] r[i], #[trigger] r[j])
    &&& forall|o: (isize, isize, isize)| in_reach(sizes, o) ==> #[trigger] present(r, o)
}

/// Whether the sides of a window are no longer than `MAX_WINDOW_SIDE`.
pub open spec fn sides_fit(sizes: [usize; 3]) -> bool {
    &&& sizes[0] <= MAX_WINDOW_SIDE
    &&& sizes[1] <= MAX_WINDOW_SIDE
    &&& sizes[2] <= MAX_WINDOW_SIDE
}

/// Whether the sizes of a window are accepted: between 1 and
/// `MAX_WINDOW_SIDE` chunks along each axis.
pub open spec fn sizes_ok(sizes: [usize; 3]) -> bool {
    &&& 1 <= sizes[0] <= MAX_WINDOW_SIDE
    &&& 1 <= sizes[1] <= MAX_WINDOW_SIDE
    &&& 1 <= sizes[2] <= MAX_WINDOW_SIDE
}

/// Whether `s` is the sweep over the offsets within reach: each once,
/// with its distance, along Z fastest and along X slowest.
pub open spec fn is_sweep(sizes: [usize; 3], s: Seq<Visit>) -> bool {
    &&& s.len() == reach_count(sizes)
    &&& entries_in_reach(sizes, s)
    &&& forall|i: int, j: int|
        0 <= i < j < s.len() ==> sweep_before(
            (#[trigger] s[i]).0,
            (#[trigger] s[j]).0.0 as int,
            s[j].0.1 as int,
            s[j].0.2 as int,
        )
    &&& forall|o: (isize, isize, isize)| in_reach(sizes, o) ==> #[trigger] present(s, o)
}

/// What holds of the sweep when it stands at `(x, y, z)`.
pub open spec fn sweep_so_far(sizes: [usize; 3], s: Seq<Visit>, x: int, y: int, z: int) -> bool {
    &&& s.len() == (x + reach(sizes[0] as int)) * ((2 * reach(sizes[1] as int) + 1) * (2 * reach(
        sizes[2] as int,
    ) + 1)) + (y + reach(sizes[1] as int)) * (2 * reach(sizes[2] as int) + 1) + (z + reach(
        sizes[2] as int,
    ))
    &&& entries_in_reach(sizes, s)
    &&& forall|i: int| 0 <= i < s.len() ==> sweep_before((#[trigger] s[i]).0, x, y, z)
    &&& forall|i: int, j: int|
        0 <= i < j < s.len() ==> sweep_before(
            (#[trigger] s[i]).0,
            (#[trigger] s[j]).0.0 as int,
            s[j].0.1 as int,
            s[j].0.2 as int,
        )
    &&& forall|o: (isize, isize, isize)|
        in_reach(sizes, o) && sweep_before(o, x, y, z) ==> #[trigger] present(s, o)
}

proof fn lemma_present_push(r: Seq<Visit>, e: Visit, o: (isize, isize, isize))
    requires
        present(r, o) || e.0 == o,
    ensures
        present(r.push(e), o),
{
    if present(r, o) {
        let i = choose|i: int| 0 <= i < r.len() && (#[trigger] r[i]).0 == o;
        assert(r.push(e)[i].0 == o);
    } else {
        assert(r.push(e)[r.len() as int].0 == o);
    }
}

/// One step of the sweep: the offset `(x, y, z)` joins the list.
proof fn lemma_sweep_step(sizes: [usize; 3], before: Seq<Visit>, x: isize, y: isize, z: isize, d: usize)
    requires
        sweep_so_far(sizes, before, x as int, y as int, z as int),
        in_reach(sizes, (x, y, z)),
        d == offset_dist((x, y, z)),
    ensures
        sweep_so_far(sizes, before.push(((x, y, z), d)), x as int, y as int, z + 1),
{
    let o0 = (x, y, z);
    let after = before.push((o0, d));
    assert forall|o: (isize, isize, isize)|
        in_reach(sizes, o) && sweep_before(o, x as int, y as int, z + 1) implies #[trigger] present(
        after,
        o,
    ) by {
        if o != o0 {
            assert(present(before, o));
        }
        lemma_present_push(before, (o0, d), o);
    }
    assert forall|i: int, j: int| 0 <= i < j < after.len() implies sweep_before(
        (#[trigger] after[i]).0,
        (#[trigger] after[j]).0.0 as int,
        after[j].0.1 as int,
        after[j].0.2 as int,
    ) by {
        if j == before.len() {
            assert(sweep_before(before[i].0, x as int, y as int, z as int));
        }
    }
}

/// The end of a row of the sweep is the start of the next row.
proof fn lemma_sweep_next_row(sizes: [usize; 3], s: Seq<Visit>, x: int, y: int)
    requires
        sweep_so_far(sizes, s, x, y, reach(sizes[2] as int) + 1),
    ensures
        sweep_so_far(sizes, s, x, y + 1, -reach(sizes[2] as int)),
{
    let r1 = reach(sizes[1] as int);
    let w2 = 2 * reach(sizes[2] as int) + 1;
    assert((y + r1) * w2 + w2 == (y + 1 + r1) * w2) by (nonlinear_arith);
}

/// The end of a plane of the sweep is the start of the next plane.
proof fn lemma_sweep_next_plane(sizes: [usize; 3], s: Seq<Visit>, x: int)
    requires
        sweep_so_far(sizes, s, x, reach(sizes[1] as int) + 1, -reach(sizes[2] as int)),
    ensures
        sweep_so_far(sizes, s, x + 1, -reach(sizes[1] as int), -reach(sizes[2] as int)),
{
    let r0 = reach(sizes[0] as int);
    let r1 = reach(sizes[1] as int);
    let w2 = 2 * reach(sizes[2] as int) + 1;
    let w12 = (2 * r1 + 1) * w2;
    assert((x + r0) * w12 + (2 * r1 + 1) * w2 == (x + 1 + r0) * w12) by (nonlinear_arith)
        requires
            w12 == (2 * r1 + 1) * w2,
    ;
    assert((-r1 + r1) * w2 == 0) by (nonlinear_arith);
}

/// The sweep is whole when it has passed the last plane.
proof fn lemma_sweep_done(sizes: [usize; 3], s: Seq<Visit>)
    requires
        sweep_so_far(
            sizes,
            s,
            reach(sizes[0] as int) + 1,
            -reach(sizes[1] as int),
            -reach(sizes[2] as int),
        ),
    ensures
        is_sweep(sizes, s),
{
    let r0 = reach(sizes[0] as int);
    let r1 = reach(sizes[1] as int);
    let w2 = 2 * reach(sizes[2] as int) + 1;
    let w12 = (2 * r1 + 1) * w2;
    assert((r0 + 1 + r0) * w12 == (2 * r0 + 1) * w12) by (nonlinear_arith);
    assert((-r1 + r1) * w2 == 0) by (nonlinear_arith);
}

/// Number of the first `n` entries of `s` that are nearer than `d`.
pub open spec fn count_nearer(s: Seq<Visit>, d: int, n: int) -> int
    decreases n,
{
    if n <= 0 {
        0
    } else {
        count_nearer(s, d, n - 1) + if s[n - 1].1 < d {
            1int
        } else {
            0int
        }
    }
}

/// Number of the first `n` entries of `s` that are at distance `d`.
pub open spec fn count_at(s: Seq<Visit>, d: int, n: int) -> int
    decreases n,
{
    if n <= 0 {
        0
    } else {
        count_at(s, d, n - 1) + if s[n - 1].1 == d {
            1int
        } else {
            0int
        }
    }
}

proof fn lemma_count_next(s: Seq<Visit>, d: int, n: int)
    requires
        0 <= n,
    ensures
        count_nearer(s, d, n) + count_at(s, d, n) == count_nearer(s, d + 1, n),
    decreases n,
{
    if n > 0 {
        lemma_count_next(s, d, n - 1);
    }
}

proof fn lemma_count_all(s: Seq<Visit>, d: int, n: int)
    requires
        0 <= n <= s.len(),
        forall|t: int| 0 <= t < s.len() ==> (#[trigger] s[t]).1 < d,
    ensures
        count_nearer(s, d, n) == n,
    decreases n,
{
    if n > 0 {
        lemma_count_all(s, d, n - 1);
    }
}

/// Whether `o` comes before every entry of the sweep from place `i` on.
pub open spec fn before_rest(s: Seq<Visit>, i: int, o: (isize, isize, isize)) -> bool {
    forall|t: int|
        i <= t < s.len() ==> sweep_before(
            o,
            (#[trigger] s[t]).0.0 as int,
            s[t].0.1 as int,
            s[t].0.2 as int,
        )
}

/// What holds of the list while the entries at distance `d` are being
/// taken from the sweep `s` and the first `i` of them have been looked at.
pub open spec fn order_so_far(sizes: [usize; 3], s: Seq<Visit>, r: Seq<Visit>, d: int, i: int) -> bool {
    &&& r.len() == count_nearer(s, d, s.len() as int) + count_at(s, d, i)
    &&& entries_in_reach(sizes, r)
    &&& forall|a: int|
        0 <= a < r.len() ==> (#[trigger] r[a]).1 < d || (r[a].1 == d && before_rest(s, i, r[a].0))
    &&& forall|a: int, b: int| 0 <= a < b < r.len() ==> visit_before(#[trigger] r[a], #[trigger] r[b])
    &&& forall|t: int|
        0 <= t < s.len() && ((#[trigger] s[t]).1 < d || (s[t].1 == d && t < i)) ==> present(
            r,
            s[t].0,
        )
}

/// One step of a pass: entry `i` of the sweep joins the list if it lies
/// at distance `d`.
proof fn lemma_order_step(
    sizes: [usize; 3],
    s: Seq<Visit>,
    before: Seq<Visit>,
    after: Seq<Visit>,
    d: int,
    i: int,
)
    requires
        is_sweep(sizes, s),
        0 <= i < s.len(),
        order_so_far(sizes, s, before, d, i),
        after == if s[i].1 == d {
            before.push(s[i])
        } else {
            before
        },
    ensures
        order_so_far(sizes, s, after, d, i + 1),
{
    assert forall|a: int| 0 <= a < after.len() implies (#[trigger] after[a]).1 < d || (after[a].1
        == d && before_rest(s, i + 1, after[a].0)) by {
        if a < before.len() {
            assert(after[a] == before[a]);
            assert(before[a].1 < d || (before[a].1 == d && before_rest(s, i, before[a].0)));
        }
    }
    assert forall|a: int, b: int| 0 <= a < b < after.len() implies visit_before(
        #[trigger] after[a],
        #[trigger] after[b],
    ) by {
        if b == before.len() {
            assert(before[a].1 < d || (before[a].1 == d && before_rest(s, i, before[a].0)));
            if before[a].1 == d {
                assert(sweep_before(before[a].0, s[i].0.0 as int, s[i].0.1 as int, s[i].0.2 as int));
            }
        }
    }
    assert forall|t: int|
        0 <= t < s.len() && ((#[trigger] s[t]).1 < d || (s[t].1 == d && t < i + 1)) implies present(
        after,
        s[t].0,
    ) by {
        if s[i].1 == d {
            if t != i {
                assert(present(before, s[t].0));
            }
            lemma_present_push(before, s[i], s[t].0);
        } else {
            assert(present(before, s[t].0));
        }
    }
}

/// The end of the pass for distance `d` is the start of the pass for the
/// next distance.
proof fn lemma_order_next_pass(sizes: [usize; 3], s: Seq<Visit>, r: Seq<Visit>, d: int)
    requires
        order_so_far(sizes, s, r, d, s.len() as int),
    ensures
        order_so_far(sizes, s, r, d + 1, 0),
{
    lemma_count_next(s, d, s.len() as int);
}

/// A distance is never negative.
pub proof fn lemma_dist_nonneg(o: (isize, isize, isize))
    ensures
        0 <= offset_dist(o),
{
    assert(0 <= squared_len(o)) by (nonlinear_arith);
    lemma_isqrt(squared_len(o));
}

/// Every offset within reach is no further than the corner of the cube
/// within reach.
pub proof fn lemma_dist_bound(sizes: [usize; 3], o: (isize, isize, isize))
    requires
        in_reach(sizes, o),
    ensures
        0 <= squared_len(o) <= (sizes[0] / 2) * (sizes[0] / 2) + (sizes[1] / 2) * (sizes[1] / 2) + (
        sizes[2] / 2) * (sizes[2] / 2),
        offset_dist(o) <= isqrt_spec(
            (sizes[0] / 2) * (sizes[0] / 2) + (sizes[1] / 2) * (sizes[1] / 2) + (sizes[2] / 2) * (
            sizes[2] / 2),
        ),
{
    let h0 = (sizes[0] / 2) as int;
    let h1 = (sizes[1] / 2) as int;
    let h2 = (sizes[2] / 2) as int;
    assert(0 <= o.0 * o.0 <= h0 * h0) by (nonlinear_arith)
        requires
            -h0 <= o.0 <= h0,
    ;
    assert(0 <= o.1 * o.1 <= h1 * h1) by (nonlinear_arith)
        requires
            -h1 <= o.1 <= h1,
    ;
    assert(0 <= o.2 * o.2 <= h2 * h2) by (nonlinear_arith)
        requires
            -h2 <= o.2 <= h2,
    ;
    lemma_isqrt_monotonic(squared_len(o), h0 * h0 + h1 * h1 + h2 * h2);
}

/// The offset of a chunk of the window is within reach.
pub proof fn lemma_box_in_reach(sizes: [usize; 3], o: (isize, isize, isize))
    requires
        in_box(sizes, o),
    ensures
        in_reach(sizes, o),
{
}

/// Only the centre lies at distance zero.
pub proof fn lemma_zero_dist(o: (isize, isize, isize))
    ensures
        offset_dist(o) == 0 <==> o == (0isize, 0isize, 0isize),
{
    let a = o.0 as int;
    let b = o.1 as int;
    let c = o.2 as int;
    assert(a * a >= 0 && b * b >= 0 && c * c >= 0) by (nonlinear_arith);
    lemma_isqrt(squared_len(o));
    let r = offset_dist(o);
    if r == 0 {
        assert((r + 1) * (r + 1) == 1) by (nonlinear_arith)
            requires
                r == 0,
        ;
        assert(squared_len(o) == 0);
        assert(a == 0 && b == 0 && c == 0) by (nonlinear_arith)
            requires
                a * a + b * b + c * c == 0,
        ;
    } else {
        if a == 0 && b == 0 && c == 0 {
            assert(a * a + b * b + c * c == 0) by (nonlinear_arith)
                requires
                    a == 0 && b == 0 && c == 0,
            ;
            assert(isqrt_spec(0) == 0);
        }
    }
}

/// The visits begin at the centre.
pub proof fn lemma_center_first(sizes: [usize; 3], order: Seq<Visit>)
    requires
        is_visit_order(sizes, order),
    ensures
        order.len() > 0,
        order[0].0 == (0isize, 0isize, 0isize),
        order[0].1 == 0,
{
    let zero = (0isize, 0isize, 0isize);
    assert(in_reach(sizes, zero));
    assert(present(order, zero));
    let i = choose|i: int| 0 <= i < order.len() && (#[trigger] order[i]).0 == zero;
    lemma_zero_dist(zero);
    if i > 0 {
        assert(visit_before(order[0], order[i]));
        lemma_dist_nonneg(order[0].0);
        lemma_zero_dist(order[0].0);
    }
}

/// The visits end at the far corner of the cube within reach.
pub proof fn lemma_corner_last(sizes: [usize; 3], order: Seq<Visit>)
    requires
        sides_fit(sizes),
        is_visit_order(sizes, order),
    ensures
        order.len() > 0,
        order.last().0 == (
            (sizes[0] / 2) as isize,
            (sizes[1] / 2) as isize,
            (sizes[2] / 2) as isize,
        ),
{
    let corner = ((sizes[0] / 2) as isize, (sizes[1] / 2) as isize, (sizes[2] / 2) as isize);
    assert(in_reach(sizes, corner));
    assert(present(order, corner));
    let i = choose|i: int| 0 <= i < order.len() && (#[trigger] order[i]).0 == corner;
    if i < order.len() - 1 {
        let last = order.last();
        assert(visit_before(order[i], order[order.len() - 1]));
        lemma_dist_bound(sizes, last.0);
        assert((sizes[0] / 2) * (sizes[0] / 2) + (sizes[1] / 2) * (sizes[1] / 2) + (sizes[2] / 2) * (
        sizes[2] / 2) == squared_len(corner));
    }
}

/// The distances never fall along the visits, and no offset is visited
/// twice.
pub proof fn lemma_visits_rise(sizes: [usize; 3], order: Seq<Visit>, i: int, j: int)
    requires
        is_visit_order(sizes, order),
        0 <= i < j < order.len(),
    ensures
        order[i].1 <= order[j].1,
        order[i].0 != order[j].0,
{
    assert(visit_before(order[i], order[j]));
}

fn square(h: isize) -> (s: usize)
    requires
        -512 <= h <= 512,
    ensures
        s == h * h,
        s <= 0x4_0000,
{
    assert(0 <= h * h <= 0x4_0000) by (nonlinear_arith)
        requires
            -512 <= h <= 512,
    ;
    (h * h) as usize
}

/// The offsets within reach in the order of the sweep, each with its
/// distance.
fn sweep_offsets(active_size: [usize; 3]) -> (offsets: Vec<Visit>)
    requires
        sides_fit(active_size),
    ensures
        is_sweep(active_size, offsets@),
{
    let radius = [
        (active_size[0] / 2) as isize,
        (active_size[1] / 2) as isize,
        (active_size[2] / 2) as isize,
    ];
    let mut offsets: Vec<Visit> = Vec::new();
    proof {
        assert((-radius[0] + radius[0]) * ((2 * radius[1] + 1) * (2 * radius[2] + 1)) == 0)
            by (nonlinear_arith);
        assert((-radius[1] + radius[1]) * (2 * radius[2] + 1) == 0) by (nonlinear_arith);
    }
    let mut x = -radius[0];
    while x <= radius[0]
        invariant
            sides_fit(active_size),
            radius[0] == reach(active_size[0] as int),
            radius[1] == reach(active_size[1] as int),
            radius[2] == reach(active_size[2] as int),
            -radius[0] <= x <= radius[0] + 1,
            sweep_so_far(active_size, offsets@, x as int, -radius[1], -radius[2]),
        decreases radius[0] + 1 - x,
    {
        let mut y = -radius[1];
        while y <= radius[1]
            invariant
                sides_fit(active_size),
                radius[0] == reach(active_size[0] as int),
                radius[1] == reach(active_size[1] as int),
                radius[2] == reach(active_size[2] as int),
                -radius[0] <= x <= radius[0],
                -radius[1] <= y <= radius[1] + 1,
                sweep_so_far(active_size, offsets@, x as int, y as int, -radius[2]),
            decreases radius[1] + 1 - y,
        {
            let mut z = -radius[2];
            while z <= radius[2]
                invariant
                    sides_fit(active_size),
                    radius[0] == reach(active_size[0] as int),
                    radius[1] == reach(active_size[1] as int),
                    radius[2] == reach(active_size[2] as int),
                    -radius[0] <= x <= radius[0],
                    -radius[1] <= y <= radius[1],
                    -radius[2] <= z <= radius[2] + 1,
                    sweep_so_far(active_size, offsets@, x as int, y as int, z as int),
                decreases radius[2] + 1 - z,
            {
                let dist = isqrt(square(x) + square(y) + square(z));
                proof {
                    lemma_sweep_step(active_size, offsets@, x, y, z, dist);
                }
                offsets.push(((x, y, z), dist));
                z += 1;
            }
            proof {
                lemma_sweep_next_row(active_size, offsets@, x as int, y as int);
            }
            y += 1;
        }
        proof {
            lemma_sweep_next_plane(active_size, offsets@, x as int);
        }
        x += 1;
    }
    proof {
        lemma_sweep_done(active_size, offsets@);
    }
    offsets
}

/// pre-compute sphere offsets for chunk loading order
pub fn generate_qube_offset_in_spherical_order(active_size: [usize; 3]) -> (offsets: Vec<Visit>)
    requires
        sides_fit(active_size),
    ensures
        is_visit_order(active_size, offsets@),
{
    let sweep = sweep_offsets(active_size);
    let max_dist = isqrt(
        square((active_size[0] / 2) as isize) + square((active_size[1] / 2) as isize) + square(
            (active_size[2] / 2) as isize,
        ),
    );
    proof {
        assert forall|t: int| 0 <= t < sweep@.len() implies 0 <= (#[trigger] sweep@[t]).1
            <= max_dist by {
            lemma_dist_bound(active_size, sweep@[t].0);
        }
        lemma_count_zero(sweep@, 0, sweep@.len() as int);
    }
    let n = sweep.len();
    let mut offsets: Vec<Visit> = Vec::new();
    // sort by distance (closest first), equal distances in the order of the sweep
    let mut d: usize = 0;
    while d <= max_dist
        invariant
            is_sweep(active_size, sweep@),
            n == sweep@.len(),
            max_dist <= 0x4000,
            d <= max_dist + 1,
            forall|t: int| 0 <= t < sweep@.len() ==> 0 <= (#[trigger] sweep@[t]).1 <= max_dist,
            order_so_far(active_size, sweep@, offsets@, d as int, 0),
        decreases max_dist + 1 - d,
    {
        let mut i: usize = 0;
        while i < n
            invariant
                is_sweep(active_size, sweep@),
                n == sweep@.len(),
                i <= n,
                d <= max_dist,
                order_so_far(active_size, sweep@, offsets@, d as int, i as int),
            decreases n - i,
        {
            let entry = sweep[i];
            let ghost before = offsets@;
            if entry.1 == d {
                offsets.push(entry);
            }
            proof {
                lemma_order_step(active_size, sweep@, before, offsets@, d as int, i as int);
            }
            i += 1;
        }
        proof {
            lemma_order_next_pass(active_size, sweep@, offsets@, d as int);
        }
        d += 1;
    }
    proof {
        lemma_count_all(sweep@, d as int, sweep@.len() as int);
        assert forall|o: (isize, isize, isize)| in_reach(active_size, o) implies #[trigger] present(
            offsets@,
            o,
        ) by {
            assert(present(sweep@, o));
            let t = choose|t: int| 0 <= t < sweep@.len() && (#[trigger] sweep@[t]).0 == o;
            assert(present(offsets@, sweep@[t].0));
        }
    }
    offsets
}

proof fn lemma_count_zero(s: Seq<Visit>, d: int, n: int)
    requires
        0 <= n <= s.len(),
        forall|t: int| 0 <= t < s.len() ==> (#[trigger] s[t]).1 >= d,
    ensures
        count_nearer(s, d, n) == 0,
        count_at(s, d, 0) == 0,
    decreases n,
{
    if n > 0 {
        lemma_count_zero(s, d, n - 1);
    }
}

} // verus!
