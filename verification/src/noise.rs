use vstd::prelude::*;

verus! {

/// The number one in fixed point: every quantity of the generator is an
/// integer count of millionths.
pub const ONE: i64 = 1_000_000;

/// Largest magnitude of a position handed to the layered noise, in
/// millionths of a block.
pub const COORD_LIMIT: i64 = 0x20_0000_0000_0000;

/// Largest number of layers of the layered noise.
pub const MAX_OCTAVES: u32 = 8;

/// Product of two fixed-point numbers, rounded down.
pub open spec fn fx_mul(a: int, b: int) -> int {
    (a * b) / 1_000_000
}

/// Quotient of two fixed-point numbers, rounded down.
pub open spec fn fx_div(a: int, b: int) -> int {
    (a * 1_000_000) / b
}

/// `v` held between `lo` and `hi`.
pub open spec fn clamp(v: int, lo: int, hi: int) -> int {
    if v < lo {
        lo
    } else if v > hi {
        hi
    } else {
        v
    }
}

/// Pseudo-random value of lattice point `(x, z)`, at least -1 and below 1
/// in fixed point. It depends on nothing but the two coordinates.
pub open spec fn lattice_value(x: i32, z: i32) -> int {
    let n0 = x.wrapping_mul(374761393).wrapping_add(z.wrapping_mul(668265263));
    let n1 = (n0 ^ (n0 >> 13u32)).wrapping_mul(1274126177);
    let n2 = n1 ^ (n1 >> 16u32);
    ((n2 as u32) * 2_000_000) / 0x1_0000_0000 - 1_000_000
}

pub fn lattice_hash(x: i32, z: i32) -> (h: i64)
    ensures
        h == lattice_value(x, z),
        -ONE <= h < ONE,
{
    let n0 = x.wrapping_mul(374761393).wrapping_add(z.wrapping_mul(668265263));
    let n1 = (n0 ^ (n0 >> 13u32)).wrapping_mul(1274126177);
    let n2 = n1 ^ (n1 >> 16u32);
    let u = #[verifier::truncate] (n2 as u32);
    (((u as u64) * 2_000_000) / 0x1_0000_0000) as i64 - 1_000_000
}

/// Whole part of a fixed-point number, rounded down.
pub open spec fn fx_floor(x: int) -> int {
    x / 1_000_000
}

/// What is left of a fixed-point number above its whole part.
pub open spec fn fx_fract(x: int) -> int {
    x % 1_000_000
}

/// Smooth step `t * t * (3 - 2 * t)` for `t` between 0 and 1.
pub open spec fn fade(t: int) -> int {
    fx_mul(fx_mul(t, t), 3_000_000 - 2 * t)
}

/// Value between `a` and `b`, at weight `t` of `b`.
pub open spec fn lerp(a: int, b: int, t: int) -> int {
    (a * (1_000_000 - t) + b * t) / 1_000_000
}

pub proof fn lemma_fade_bounds(t: int)
    requires
        0 <= t <= 1_000_000,
    ensures
        0 <= fade(t) <= 1_000_000,
{
    let s = fx_mul(t, t);
    assert(0 <= t * t <= 1_000_000 * t) by (nonlinear_arith)
        requires
            0 <= t <= 1_000_000,
    ;
    assert(0 <= s <= t);
    let k = 3_000_000 - 2 * t;
    assert(0 <= s * k) by (nonlinear_arith)
        requires
            0 <= s,
            0 <= k,
    ;
    assert(s * 1_000_000 <= t * t);
    assert(s * k * 1_000_000 <= t * t * k) by (nonlinear_arith)
        requires
            s * 1_000_000 <= t * t,
            0 <= k,
    ;
    assert(t * t * k <= 1_000_000 * 1_000_000 * 1_000_000) by (nonlinear_arith)
        requires
            0 <= t <= 1_000_000,
            k == 3_000_000 - 2 * t,
    {
        assert((1_000_000 - t) * (1_000_000 - t) * (1_000_000 + 2 * t) >= 0);
        assert((1_000_000 - t) * (1_000_000 - t) * (1_000_000 + 2 * t) == 1_000_000 * 1_000_000
            * 1_000_000 - t * t * (3_000_000 - 2 * t));
    }
    assert(s * k <= 1_000_000 * 1_000_000);
}

pub proof fn lemma_lerp_bounds(a: int, b: int, t: int)
    requires
        -1_000_000 <= a <= 1_000_000,
        -1_000_000 <= b <= 1_000_000,
        0 <= t <= 1_000_000,
    ensures
        -1_000_000 <= lerp(a, b, t) <= 1_000_000,
{
    assert(-1_000_000 * 1_000_000 <= a * (1_000_000 - t) + b * t <= 1_000_000 * 1_000_000)
        by (nonlinear_arith)
        requires
            -1_000_000 <= a <= 1_000_000,
            -1_000_000 <= b <= 1_000_000,
            0 <= t <= 1_000_000,
    ;
}

/// Smoothly interpolated lattice noise at `(x, z)`: the pseudo-random
/// values of the four lattice points around the position, blended with the
/// smooth step of the position inside its lattice cell. Lattice
/// coordinates wrap around at 32 bits.
pub open spec fn noise2d_spec(x: int, z: int) -> int {
    let ix = fx_floor(x) as i32;
    let iz = fx_floor(z) as i32;
    let u = fade(fx_fract(x));
    let v = fade(fx_fract(z));
    let a = lattice_value(ix, iz);
    let b = lattice_value(ix.wrapping_add(1), iz);
    let c = lattice_value(ix, iz.wrapping_add(1));
    let d = lattice_value(ix.wrapping_add(1), iz.wrapping_add(1));
    lerp(lerp(a, b, u), lerp(c, d, u), v)
}

/// Noise in space: three samples of the plane noise, taken at positions
/// that shift with the height, weighted 0.5, 0.3 and 0.2.
pub open spec fn noise3d_spec(x: int, y: int, z: int) -> int {
    let n1 = noise2d_spec(
        fx_mul(x, 500_000) + fx_mul(y, 300_000),
        fx_mul(z, 500_000) - fx_mul(y, 300_000),
    );
    let n2 = noise2d_spec(
        fx_mul(x, 700_000) - fx_mul(y, 200_000),
        fx_mul(z, 700_000) + fx_mul(y, 200_000),
    );
    let n3 = noise2d_spec(fx_mul(x, 300_000), fx_mul(z, 300_000));
    (n1 * 500_000 + n2 * 300_000 + n3 * 200_000) / 1_000_000
}

/// What the layered noise returns once `sum` and `total` hold the
/// weighted samples and the weights of the layers done so far and `n`
/// layers remain: each layer samples at `freq` with weight `amp`, the next
/// at twice the frequency and `gain` times the weight; at the end the sum
/// is divided by the total weight.
pub open spec fn fbm_from(
    x: int,
    z: int,
    freq: int,
    amp: int,
    gain: int,
    n: int,
    sum: int,
    total: int,
) -> int
    decreases n,
{
    if n <= 0 {
        if total > 0 {
            fx_div(sum, total)
        } else {
            0
        }
    } else {
        fbm_from(
            x,
            z,
            freq * 2,
            fx_mul(amp, gain),
            gain,
            n - 1,
            sum + fx_mul(noise2d_spec(fx_mul(x, freq), fx_mul(z, freq)), amp),
            total + amp,
        )
    }
}

/// Layered plane noise: `octaves` layers, the first at frequency
/// `base_freq` and weight one.
pub open spec fn fbm_spec(x: int, z: int, base_freq: int, gain: int, octaves: int) -> int {
    fbm_from(x, z, base_freq, 1_000_000, gain, octaves, 0, 0)
}

/// As `fbm_from`, with noise in space.
pub open spec fn fbm_3d_from(
    x: int,
    y: int,
    z: int,
    freq: int,
    amp: int,
    gain: int,
    n: int,
    sum: int,
    total: int,
) -> int
    decreases n,
{
    if n <= 0 {
        if total > 0 {
            fx_div(sum, total)
        } else {
            0
        }
    } else {
        fbm_3d_from(
            x,
            y,
            z,
            freq * 2,
            fx_mul(amp, gain),
            gain,
            n - 1,
            sum + fx_mul(noise3d_spec(fx_mul(x, freq), fx_mul(y, freq), fx_mul(z, freq)), amp),
            total + amp,
        )
    }
}

/// Layered noise in space.
pub open spec fn fbm_3d_spec(
    x: int,
    y: int,
    z: int,
    base_freq: int,
    gain: int,
    octaves: int,
) -> int {
    fbm_3d_from(x, y, z, base_freq, 1_000_000, gain, octaves, 0, 0)
}

/// The plane noise stays between -1 and 1.
pub proof fn lemma_noise2d_bounds(x: int, z: int)
    ensures
        -1_000_000 <= noise2d_spec(x, z) <= 1_000_000,
{
    let ix = fx_floor(x) as i32;
    let iz = fx_floor(z) as i32;
    let u = fade(fx_fract(x));
    let v = fade(fx_fract(z));
    lemma_fade_bounds(fx_fract(x));
    lemma_fade_bounds(fx_fract(z));
    let a = lattice_value(ix, iz);
    let b = lattice_value(ix.wrapping_add(1), iz);
    let c = lattice_value(ix, iz.wrapping_add(1));
    let d = lattice_value(ix.wrapping_add(1), iz.wrapping_add(1));
    lemma_lattice_bounds(ix, iz);
    lemma_lattice_bounds(ix.wrapping_add(1), iz);
    lemma_lattice_bounds(ix, iz.wrapping_add(1));
    lemma_lattice_bounds(ix.wrapping_add(1), iz.wrapping_add(1));
    lemma_lerp_bounds(a, b, u);
    lemma_lerp_bounds(c, d, u);
    lemma_lerp_bounds(lerp(a, b, u), lerp(c, d, u), v);
}

pub proof fn lemma_lattice_bounds(x: i32, z: i32)
    ensures
        -1_000_000 <= lattice_value(x, z) < 1_000_000,
{
}

/// The noise in space stays between -1 and 1.
pub proof fn lemma_noise3d_bounds(x: int, y: int, z: int)
    ensures
        -1_000_000 <= noise3d_spec(x, y, z) <= 1_000_000,
{
    lemma_noise2d_bounds(
        fx_mul(x, 500_000) + fx_mul(y, 300_000),
        fx_mul(z, 500_000) - fx_mul(y, 300_000),
    );
    lemma_noise2d_bounds(
        fx_mul(x, 700_000) - fx_mul(y, 200_000),
        fx_mul(z, 700_000) + fx_mul(y, 200_000),
    );
    lemma_noise2d_bounds(fx_mul(x, 300_000), fx_mul(z, 300_000));
}

/// A product with a weight between 0 and 1 is no larger than the other
/// factor's bound.
pub proof fn lemma_fx_mul_weight(a: int, w: int, bound: int)
    requires
        -bound <= a <= bound,
        0 <= w <= 1_000_000,
    ensures
        -bound <= fx_mul(a, w) <= bound,
        a >= 0 ==> fx_mul(a, w) >= 0,
{
    assert(-bound * 1_000_000 <= a * w <= bound * 1_000_000 && (a >= 0 ==> a * w >= 0))
        by (nonlinear_arith)
        requires
            -bound <= a <= bound,
            0 <= w <= 1_000_000,
    ;
}

/// A product with a bounded sample is no larger than the weight.
pub proof fn lemma_fx_mul_sample(s: int, w: int)
    requires
        -1_000_000 <= s <= 1_000_000,
        0 <= w,
    ensures
        -w <= fx_mul(s, w) <= w,
{
    assert(-w * 1_000_000 <= s * w <= w * 1_000_000) by (nonlinear_arith)
        requires
            -1_000_000 <= s <= 1_000_000,
            0 <= w,
    ;
}

/// A sum no larger than its total weight, divided by the weight, lies
/// between -1 and 1.
pub proof fn lemma_fx_div_unit(sum: int, total: int)
    requires
        0 < total,
        -total <= sum <= total,
    ensures
        -1_000_000 <= fx_div(sum, total) <= 1_000_000,
{
    let q = (sum * 1_000_000) / total;
    vstd::arithmetic::div_mod::lemma_fundamental_div_mod(sum * 1_000_000, total);
    assert(-1_000_000 <= q <= 1_000_000) by (nonlinear_arith)
        requires
            0 < total,
            -total <= sum <= total,
            sum * 1_000_000 == total * q + (sum * 1_000_000) % total,
            0 <= (sum * 1_000_000) % total < total,
    ;
}

/// The layered plane noise stays between -1 and 1.
pub proof fn lemma_fbm_from_bounds(
    x: int,
    z: int,
    freq: int,
    amp: int,
    gain: int,
    n: int,
    sum: int,
    total: int,
)
    requires
        0 <= amp <= 1_000_000,
        0 <= gain <= 1_000_000,
        0 <= total,
        -total <= sum <= total,
    ensures
        -1_000_000 <= fbm_from(x, z, freq, amp, gain, n, sum, total) <= 1_000_000,
    decreases n,
{
    if n <= 0 {
        if total > 0 {
            lemma_fx_div_unit(sum, total);
        }
    } else {
        let s = noise2d_spec(fx_mul(x, freq), fx_mul(z, freq));
        lemma_noise2d_bounds(fx_mul(x, freq), fx_mul(z, freq));
        lemma_fx_mul_sample(s, amp);
        lemma_fx_mul_weight(amp, gain, 1_000_000);
        lemma_fbm_from_bounds(
            x,
            z,
            freq * 2,
            fx_mul(amp, gain),
            gain,
            n - 1,
            sum + fx_mul(s, amp),
            total + amp,
        );
    }
}

/// The layered noise in space stays between -1 and 1.
pub proof fn lemma_fbm_3d_from_bounds(
    x: int,
    y: int,
    z: int,
    freq: int,
    amp: int,
    gain: int,
    n: int,
    sum: int,
    total: int,
)
    requires
        0 <= amp <= 1_000_000,
        0 <= gain <= 1_000_000,
        0 <= total,
        -total <= sum <= total,
    ensures
        -1_000_000 <= fbm_3d_from(x, y, z, freq, amp, gain, n, sum, total) <= 1_000_000,
    decreases n,
{
    if n <= 0 {
        if total > 0 {
            lemma_fx_div_unit(sum, total);
        }
    } else {
        let s = noise3d_spec(fx_mul(x, freq), fx_mul(y, freq), fx_mul(z, freq));
        lemma_noise3d_bounds(fx_mul(x, freq), fx_mul(y, freq), fx_mul(z, freq));
        lemma_fx_mul_sample(s, amp);
        lemma_fx_mul_weight(amp, gain, 1_000_000);
        lemma_fbm_3d_from_bounds(
            x,
            y,
            z,
            freq * 2,
            fx_mul(amp, gain),
            gain,
            n - 1,
            sum + fx_mul(s, amp),
            total + amp,
        );
    }
}

/// Product of two fixed-point numbers, rounded down.
pub fn mul_fx(a: i64, b: i64) -> (r: i64)
    requires
        i64::MIN <= fx_mul(a as int, b as int) <= i64::MAX,
    ensures
        r == fx_mul(a as int, b as int),
{
    assert(-0x4000_0000_0000_0000_0000_0000_0000_0000 <= a * b
        <= 0x4000_0000_0000_0000_0000_0000_0000_0000) by (nonlinear_arith)
        requires
            -0x8000_0000_0000_0000 <= a <= 0x7fff_ffff_ffff_ffff,
            -0x8000_0000_0000_0000 <= b <= 0x7fff_ffff_ffff_ffff,
    ;
    let p: i128 = (a as i128) * (b as i128);
    match p.checked_div_euclid(1_000_000) {
        Some(q) => q as i64,
        None => 0,
    }
}

/// A quotient by a divisor of at least one lies between zero and the
/// dividend.
pub proof fn lemma_div_magnitude(p: int, b: int)
    requires
        b >= 1,
    ensures
        p >= 0 ==> 0 <= p / b <= p,
        p < 0 ==> p <= p / b < 0,
{
    vstd::arithmetic::div_mod::lemma_fundamental_div_mod(p, b);
    let q = p / b;
    let r = p % b;
    assert((p >= 0 ==> 0 <= q <= p) && (p < 0 ==> p <= q < 0)) by (nonlinear_arith)
        requires
            b >= 1,
            p == b * q + r,
            0 <= r < b,
    ;
}

/// Quotient of two fixed-point numbers, rounded down.
pub fn div_fx(a: i64, b: i64) -> (r: i64)
    requires
        b != 0,
        i64::MIN <= fx_div(a as int, b as int) <= i64::MAX,
    ensures
        r == fx_div(a as int, b as int),
{
    let p: i128 = (a as i128) * 1_000_000;
    match p.checked_div_euclid(b as i128) {
        Some(q) => q as i64,
        None => 0,
    }
}

/// A product with a factor of magnitude at most `k` millionths fits when
/// the other factor leaves room for it.
pub proof fn lemma_fx_mul_range(a: int, b: int, la: int, lb: int)
    requires
        -la <= a <= la,
        -lb <= b <= lb,
        0 <= la,
        0 <= lb,
    ensures
        (-(la * lb)) / 1_000_000 <= fx_mul(a, b) <= (la * lb) / 1_000_000,
{
    assert(-(la * lb) <= a * b <= la * lb) by (nonlinear_arith)
        requires
            -la <= a <= la,
            -lb <= b <= lb,
            0 <= la,
            0 <= lb,
    ;
}

fn smooth(t: i64) -> (u: i64)
    requires
        0 <= t < ONE,
    ensures
        u == fade(t as int),
        0 <= u <= ONE,
{
    proof {
        lemma_fade_bounds(t as int);
        lemma_fx_mul_range(t as int, t as int, 1_000_000, 1_000_000);
        lemma_fx_mul_range(fx_mul(t as int, t as int), 3_000_000 - 2 * t, 1_000_001, 3_000_000);
    }
    mul_fx(mul_fx(t, t), 3_000_000 - 2 * t)
}

fn mix(a: i64, b: i64, t: i64) -> (r: i64)
    requires
        -ONE <= a <= ONE,
        -ONE <= b <= ONE,
        0 <= t <= ONE,
    ensures
        r == lerp(a as int, b as int, t as int),
        -ONE <= r <= ONE,
{
    proof {
        lemma_lerp_bounds(a as int, b as int, t as int);
        assert(-1_000_000 * 1_000_000 <= a * (1_000_000 - t) <= 1_000_000 * 1_000_000 && -1_000_000
            * 1_000_000 <= b * t <= 1_000_000 * 1_000_000) by (nonlinear_arith)
            requires
                -1_000_000 <= a <= 1_000_000,
                -1_000_000 <= b <= 1_000_000,
                0 <= t <= 1_000_000,
        ;
    }
    let s = a * (1_000_000 - t) + b * t;
    match s.checked_div_euclid(1_000_000) {
        Some(q) => q,
        None => 0,
    }
}

/// 2D Perlin Noise using gradient hash
pub fn noise2d(x: i64, z: i64) -> (n: i64)
    ensures
        n == noise2d_spec(x as int, z as int),
        -ONE <= n <= ONE,
{
    proof {
        lemma_noise2d_bounds(x as int, z as int);
    }
    let fx_whole = match x.checked_div_euclid(1_000_000) {
        Some(q) => q,
        None => 0,
    };
    let fz_whole = match z.checked_div_euclid(1_000_000) {
        Some(q) => q,
        None => 0,
    };
    let fx = match x.checked_rem_euclid(1_000_000) {
        Some(r) => r,
        None => 0,
    };
    let fz = match z.checked_rem_euclid(1_000_000) {
        Some(r) => r,
        None => 0,
    };
    let ix = #[verifier::truncate] (fx_whole as i32);
    let iz = #[verifier::truncate] (fz_whole as i32);
    // Fade curve: smooth interpolation
    let u = smooth(fx);
    let v = smooth(fz);
    // Sample 4 corner gradients and interpolate
    let a = lattice_hash(ix, iz);
    let b = lattice_hash(ix.wrapping_add(1), iz);
    let c = lattice_hash(ix, iz.wrapping_add(1));
    let d = lattice_hash(ix.wrapping_add(1), iz.wrapping_add(1));
    let x1 = mix(a, b, u);
    let x2 = mix(c, d, u);
    mix(x1, x2, v)
}

/// Largest magnitude of a position handed to the noise in space, in
/// millionths of a block.
pub const SPACE_LIMIT: i64 = 0x4000_0000_0000_0000;

/// 3D Noise by combining 2D slices at different Y levels
pub fn noise3d(x: i64, y: i64, z: i64) -> (n: i64)
    requires
        -SPACE_LIMIT <= x <= SPACE_LIMIT,
        -SPACE_LIMIT <= y <= SPACE_LIMIT,
        -SPACE_LIMIT <= z <= SPACE_LIMIT,
    ensures
        n == noise3d_spec(x as int, y as int, z as int),
        -ONE <= n <= ONE,
{
    proof {
        lemma_noise3d_bounds(x as int, y as int, z as int);
    }
    // Blend three 2D noise samples at different XZ offsets based on Y
    let n1 = noise2d(
        mul_fx(x, 500_000) + mul_fx(y, 300_000),
        mul_fx(z, 500_000) - mul_fx(y, 300_000),
    );
    let n2 = noise2d(
        mul_fx(x, 700_000) - mul_fx(y, 200_000),
        mul_fx(z, 700_000) + mul_fx(y, 200_000),
    );
    let n3 = noise2d(mul_fx(x, 300_000), mul_fx(z, 300_000));
    let s = n1 * 500_000 + n2 * 300_000 + n3 * 200_000;
    match s.checked_div_euclid(1_000_000) {
        Some(q) => q,
        None => 0,
    }
}

/// What the layered noise asks of its arguments: a position within
/// `COORD_LIMIT`, a first frequency and a gain between 0 and 1, and at most
/// `MAX_OCTAVES` layers.
pub open spec fn fbm_args_ok(x: int, z: int, base_freq: int, gain: int, octaves: int) -> bool {
    &&& -COORD_LIMIT <= x <= COORD_LIMIT
    &&& -COORD_LIMIT <= z <= COORD_LIMIT
    &&& 0 <= base_freq <= ONE
    &&& 0 <= gain <= ONE
    &&& 0 <= octaves <= MAX_OCTAVES
}

fn scale(x: i64, frequency: i64) -> (r: i64)
    requires
        -COORD_LIMIT <= x <= COORD_LIMIT,
        0 <= frequency <= 256 * ONE,
    ensures
        r == fx_mul(x as int, frequency as int),
        -SPACE_LIMIT <= r <= SPACE_LIMIT,
{
    proof {
        lemma_fx_mul_range(x as int, frequency as int, COORD_LIMIT as int, 256_000_000);
    }
    mul_fx(x, frequency)
}

fn weigh(sample: i64, amplitude: i64) -> (r: i64)
    requires
        -ONE <= sample <= ONE,
        0 <= amplitude <= ONE,
    ensures
        r == fx_mul(sample as int, amplitude as int),
        -amplitude <= r <= amplitude,
{
    proof {
        lemma_fx_mul_sample(sample as int, amplitude as int);
    }
    mul_fx(sample, amplitude)
}

fn normalise(result: i64, max_amplitude: i64) -> (r: i64)
    requires
        0 <= max_amplitude <= 8 * ONE,
        -max_amplitude <= result <= max_amplitude,
    ensures
        r == if max_amplitude > 0 {
            fx_div(result as int, max_amplitude as int)
        } else {
            0
        },
        -ONE <= r <= ONE,
{
    if max_amplitude > 0 {
        proof {
            lemma_fx_div_unit(result as int, max_amplitude as int);
        }
        div_fx(result, max_amplitude)
    } else {
        0
    }
}

/// 2D FBM (Fractional Brownian Motion): layered noise for detail
pub fn fbm(x: i64, z: i64, base_freq: i64, gain: i64, octaves: u32) -> (r: i64)
    requires
        fbm_args_ok(x as int, z as int, base_freq as int, gain as int, octaves as int),
    ensures
        r == fbm_spec(x as int, z as int, base_freq as int, gain as int, octaves as int),
        -ONE <= r <= ONE,
{
    let mut result: i64 = 0;
    let mut amplitude: i64 = ONE;
    let mut frequency: i64 = base_freq;
    let mut max_amplitude: i64 = 0;
    let ghost mut bound: int = 1;
    let mut i: u32 = 0;
    while i < octaves
        invariant
            fbm_args_ok(x as int, z as int, base_freq as int, gain as int, octaves as int),
            i <= octaves,
            0 <= amplitude <= ONE,
            0 <= frequency <= bound * ONE,
            1 <= bound,
            i < 8 ==> bound <= 128,
            i < 7 ==> bound <= 64,
            i < 6 ==> bound <= 32,
            i < 5 ==> bound <= 16,
            i < 4 ==> bound <= 8,
            i < 3 ==> bound <= 4,
            i < 2 ==> bound <= 2,
            i < 1 ==> bound <= 1,
            0 <= max_amplitude <= i * ONE,
            -max_amplitude <= result <= max_amplitude,
            fbm_from(
                x as int,
                z as int,
                frequency as int,
                amplitude as int,
                gain as int,
                octaves - i,
                result as int,
                max_amplitude as int,
            ) == fbm_spec(x as int, z as int, base_freq as int, gain as int, octaves as int),
        decreases octaves - i,
    {
        let sample = noise2d(scale(x, frequency), scale(z, frequency));
        result += weigh(sample, amplitude);
        max_amplitude += amplitude;
        proof {
            lemma_fx_mul_weight(amplitude as int, gain as int, 1_000_000);
            bound = bound * 2;
        }
        amplitude = mul_fx(amplitude, gain);
        frequency *= 2;
        i += 1;
    }
    normalise(result, max_amplitude)
}

/// 3D FBM for terrain density calculation
pub fn fbm_3d(x: i64, y: i64, z: i64, base_freq: i64, gain: i64, octaves: u32) -> (r: i64)
    requires
        fbm_args_ok(x as int, z as int, base_freq as int, gain as int, octaves as int),
        -COORD_LIMIT <= y <= COORD_LIMIT,
    ensures
        r == fbm_3d_spec(
            x as int,
            y as int,
            z as int,
            base_freq as int,
            gain as int,
            octaves as int,
        ),
        -ONE <= r <= ONE,
{
    let mut result: i64 = 0;
    let mut amplitude: i64 = ONE;
    let mut frequency: i64 = base_freq;
    let mut max_amplitude: i64 = 0;
    let ghost mut bound: int = 1;
    let mut i: u32 = 0;
    while i < octaves
        invariant
            fbm_args_ok(x as int, z as int, base_freq as int, gain as int, octaves as int),
            -COORD_LIMIT <= y <= COORD_LIMIT,
            i <= octaves,
            0 <= amplitude <= ONE,
            0 <= frequency <= bound * ONE,
            1 <= bound,
            i < 8 ==> bound <= 128,
            i < 7 ==> bound <= 64,
            i < 6 ==> bound <= 32,
            i < 5 ==> bound <= 16,
            i < 4 ==> bound <= 8,
            i < 3 ==> bound <= 4,
            i < 2 ==> bound <= 2,
            i < 1 ==> bound <= 1,
            0 <= max_amplitude <= i * ONE,
            -max_amplitude <= result <= max_amplitude,
            fbm_3d_from(
                x as int,
                y as int,
                z as int,
                frequency as int,
                amplitude as int,
                gain as int,
                octaves - i,
                result as int,
                max_amplitude as int,
            ) == fbm_3d_spec(
                x as int,
                y as int,
                z as int,
                base_freq as int,
                gain as int,
                octaves as int,
            ),
        decreases octaves - i,
    {
        let sample = noise3d(scale(x, frequency), scale(y, frequency), scale(z, frequency));
        result += weigh(sample, amplitude);
        max_amplitude += amplitude;
        proof {
            lemma_fx_mul_weight(amplitude as int, gain as int, 1_000_000);
            bound = bound * 2;
        }
        amplitude = mul_fx(amplitude, gain);
        frequency *= 2;
        i += 1;
    }
    normalise(result, max_amplitude)
}

} // verus!
