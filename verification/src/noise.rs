//! Value noise: a hash of lattice points, blended smoothly in between, and
//! the sum of several octaves of it.
//!
//! The hash of a scalar is supplied by the caller as a function value.  It
//! takes the scalar counted in units of `1 / (UNIT * UNIT)` and returns a
//! fixed-point value, which is limited to `[0, 1)` here.  A function value
//! may give different results for one argument, so what is computed with it
//! is stated as a relation: `is_noise(hash, p, v)` says that `v` is a noise
//! value that the results of `hash` at the eight corners around `p` allow.
use vstd::prelude::*;
use crate::fixed::UNIT;
use crate::fixed::clamp_i32;
use crate::fixed::clamp_i64;
use crate::fixed::clamp_spec;
use crate::fixed::div_floor;
use crate::fixed::mul_unit;

verus! {

/// Coordinates are limited to `[-NOISE_RANGE, NOISE_RANGE]`, a hundred
/// million whole units either way, before they are hashed.
pub const NOISE_RANGE: i64 = 1_000_000_000_000;

/// A point of noise space, in fixed-point coordinates.
#[derive(Clone, Copy, Debug, PartialEq, Eq, Structural)]
pub struct Point {
    pub x: i64,
    pub y: i64,
    pub z: i64,
}

/// A hash value limited to `[0, 1)`.
pub open spec fn limited_hash(h: int) -> int {
    clamp_spec(h, 0, UNIT - 1)
}

/// A coordinate limited to the noise range.
pub open spec fn in_range(c: int) -> int {
    clamp_spec(c, -(NOISE_RANGE as int), NOISE_RANGE as int)
}

/// A point limited to the noise range.
pub open spec fn limited_point(p: Point) -> Point {
    Point { x: in_range(p.x as int) as i64, y: in_range(p.y as int) as i64, z: in_range(p.z as int) as i64 }
}

/// The scalar that stands for a point:
/// `12.9898 x + 78.233 y + 45.164 z`, exact, counted in units of
/// `1 / (UNIT * UNIT)`.
pub open spec fn hash_seed(p: Point) -> int {
    p.x * 129_898 + p.y * 782_330 + p.z * 451_640
}

/// `h` is a hash of the scalar `n`.
pub open spec fn is_hash<G: Fn(i64) -> i32>(hash: G, n: int, h: int) -> bool {
    exists|raw: i32| #[trigger] call_ensures(hash, (n as i64,), raw) && h == limited_hash(raw as int)
}

/// `h` is a hash of the point `p`: a hash of the scalar that stands for `p`
/// limited to the noise range.
pub open spec fn is_hash3<G: Fn(i64) -> i32>(hash: G, p: Point, h: int) -> bool {
    is_hash(hash, hash_seed(limited_point(p)), h)
}

/// The lattice cell that holds a coordinate.
pub open spec fn cell_of(c: int) -> int {
    c / (UNIT as int)
}

/// How far a coordinate lies into its cell, in `[0, 1)`.
pub open spec fn fraction_of(c: int) -> int {
    c % (UNIT as int)
}

/// The smooth step `t * t * (3 - 2 t)` of a fraction in `[0, 1]`.
pub open spec fn smooth(t: int) -> int {
    t * t * (3 * UNIT - 2 * t) / (UNIT * UNIT)
}

/// The general smooth step: 0 up to `edge0`, 1 from `edge1` on, and the
/// smooth curve in between.
pub open spec fn smoothstep_spec(edge0: int, edge1: int, x: int) -> int {
    smooth(clamp_spec(crate::fixed::floor_div((x - edge0) * UNIT, edge1 - edge0), 0, UNIT as int))
}

/// The blend `a + (b - a) t`, rounded down.
pub open spec fn mix(a: int, b: int, t: int) -> int {
    a + (b - a) * t / (UNIT as int)
}

/// The lattice point that is `(dx, dy, dz)` cells past the cell of `p`.
pub open spec fn corner(p: Point, dx: int, dy: int, dz: int) -> Point {
    Point {
        x: ((cell_of(p.x as int) + dx) * UNIT) as i64,
        y: ((cell_of(p.y as int) + dy) * UNIT) as i64,
        z: ((cell_of(p.z as int) + dz) * UNIT) as i64,
    }
}

/// The eight hash values belong to the corners of the cell of `p`: `c000` to
/// the cell's own lattice point, `c100` to the next along x, and so on.
pub open spec fn corners_hashed<G: Fn(i64) -> i32>(
    hash: G,
    p: Point,
    c000: int,
    c100: int,
    c010: int,
    c110: int,
    c001: int,
    c101: int,
    c011: int,
    c111: int,
) -> bool {
    &&& is_hash3(hash, corner(p, 0, 0, 0), c000)
    &&& is_hash3(hash, corner(p, 1, 0, 0), c100)
    &&& is_hash3(hash, corner(p, 0, 1, 0), c010)
    &&& is_hash3(hash, corner(p, 1, 1, 0), c110)
    &&& is_hash3(hash, corner(p, 0, 0, 1), c001)
    &&& is_hash3(hash, corner(p, 1, 0, 1), c101)
    &&& is_hash3(hash, corner(p, 0, 1, 1), c011)
    &&& is_hash3(hash, corner(p, 1, 1, 1), c111)
}

/// The trilinear blend of eight corner values at `p`, with smooth-stepped
/// weights: along x first, then y, then z.
pub open spec fn trilinear(
    p: Point,
    c000: int,
    c100: int,
    c010: int,
    c110: int,
    c001: int,
    c101: int,
    c011: int,
    c111: int,
) -> int {
    let ux = smooth(fraction_of(p.x as int));
    let uy = smooth(fraction_of(p.y as int));
    let uz = smooth(fraction_of(p.z as int));
    let y1 = mix(mix(c000, c100, ux), mix(c010, c110, ux), uy);
    let y2 = mix(mix(c001, c101, ux), mix(c011, c111, ux), uy);
    mix(y1, y2, uz)
}

/// `value` is a noise value at `p`: the trilinear blend of hashes of the
/// eight lattice points around `p`, after `p` is limited to the noise range.
pub open spec fn is_noise<G: Fn(i64) -> i32>(hash: G, p: Point, value: int) -> bool {
    let q = limited_point(p);
    exists|c000: int, c100: int, c010: int, c110: int, c001: int, c101: int, c011: int, c111: int|
        #[trigger] corners_hashed(hash, q, c000, c100, c010, c110, c001, c101, c011, c111) && value
            == trilinear(q, c000, c100, c010, c110, c001, c101, c011, c111)
}

/// The amplitude of octave `k`: one half for the first octave and half the
/// one before for each further one, rounded down.
pub open spec fn amplitude(k: nat) -> int
    decreases k,
{
    if k == 0 {
        UNIT / 2
    } else {
        amplitude((k - 1) as nat) / 2
    }
}

/// The point at which octave `k` is taken: `p` with its frequency doubled
/// `k` times, limited to the noise range.
pub open spec fn octave_point(p: Point, k: nat) -> Point
    decreases k,
{
    if k == 0 {
        limited_point(p)
    } else {
        let q = octave_point(p, (k - 1) as nat);
        limited_point(Point { x: (2 * q.x) as i64, y: (2 * q.y) as i64, z: (2 * q.z) as i64 })
    }
}

/// The octaves `ns` weighted by their amplitudes and added up: the first `m`
/// of them.
pub open spec fn weighted_sum(ns: Seq<int>, m: nat) -> int
    decreases m,
{
    if m == 0 {
        0
    } else {
        weighted_sum(ns, (m - 1) as nat) + mul_unit(amplitude((m - 1) as nat), ns[m - 1])
    }
}

/// `ns` holds one noise value for each of the first `octaves` octaves at
/// `p`: `ns[k]` is a noise value at `octave_point(p, k)`.  Of an octave whose
/// amplitude has fallen to zero nothing is asked.
pub open spec fn octaves_are_noise<G: Fn(i64) -> i32>(hash: G, p: Point, octaves: nat, ns: Seq<int>) -> bool {
    &&& ns.len() == octaves
    &&& forall|k: int|
        0 <= k < octaves && amplitude(k as nat) > 0 ==> #[trigger] is_noise(
            hash,
            octave_point(p, k as nat),
            ns[k],
        )
}

/// `value` is a sum of the first `octaves` octaves of noise at `p`, each
/// weighted by its amplitude.
pub open spec fn is_fbm<G: Fn(i64) -> i32>(hash: G, p: Point, octaves: nat, value: int) -> bool {
    exists|ns: Seq<int>|
        #[trigger] octaves_are_noise(hash, p, octaves, ns) && value == weighted_sum(ns, octaves)
}

/// A blend of two values at `t` in `[0, 1]` lies between them.
pub proof fn lemma_mix_between(a: int, b: int, t: int, lo: int, hi: int)
    requires
        0 <= t <= UNIT,
        lo <= a <= hi,
        lo <= b <= hi,
    ensures
        lo <= mix(a, b, t) <= hi,
{
    let d = b - a;
    if d >= 0 {
        assert(0 <= d * t <= d * 10_000) by (nonlinear_arith)
            requires
                0 <= t <= 10_000,
                d >= 0,
        ;
    } else {
        assert(d * 10_000 <= d * t <= 0) by (nonlinear_arith)
            requires
                0 <= t <= 10_000,
                d < 0,
        ;
    }
}

/// The smooth step of a fraction in `[0, 1]` is a fraction in `[0, 1]`, and
/// it is 0 at 0.
pub proof fn lemma_smooth_bounds(t: int)
    requires
        0 <= t <= UNIT,
    ensures
        0 <= smooth(t) <= UNIT,
        smooth(0) == 0,
{
    assert(0 <= t * t * (3 * 10_000 - 2 * t) <= 10_000 * 100_000_000) by (nonlinear_arith)
        requires
            0 <= t <= 10_000,
    ;
    assert(0int * 0 * (3 * 10_000 - 2 * 0) == 0) by (nonlinear_arith);
}

/// At a lattice point the trilinear blend is the value of the cell's own
/// corner.
pub proof fn lemma_trilinear_on_lattice(
    p: Point,
    c000: int,
    c100: int,
    c010: int,
    c110: int,
    c001: int,
    c101: int,
    c011: int,
    c111: int,
)
    requires
        fraction_of(p.x as int) == 0,
        fraction_of(p.y as int) == 0,
        fraction_of(p.z as int) == 0,
    ensures
        trilinear(p, c000, c100, c010, c110, c001, c101, c011, c111) == c000,
{
    lemma_smooth_bounds(0);
    lemma_mix_zero(c000, c100);
    lemma_mix_zero(c010, c110);
    lemma_mix_zero(c001, c101);
    lemma_mix_zero(c011, c111);
    lemma_mix_zero(mix(c000, c100, 0), mix(c010, c110, 0));
    lemma_mix_zero(mix(c001, c101, 0), mix(c011, c111, 0));
    lemma_mix_zero(c000, c001);
}

/// A blend at 0 is its first value.
proof fn lemma_mix_zero(a: int, b: int)
    ensures
        mix(a, b, 0) == a,
{
}

/// Noise at a point of the integer lattice is the hash of that point: where
/// all three coordinates of `p` are whole, every noise value at `p` is a hash
/// of `p`.
pub proof fn lemma_noise_on_lattice<G: Fn(i64) -> i32>(hash: G, p: Point, value: int)
    requires
        is_noise(hash, p, value),
        p.x % (UNIT as i64) == 0,
        p.y % (UNIT as i64) == 0,
        p.z % (UNIT as i64) == 0,
    ensures
        is_hash3(hash, p, value),
{
    let q = limited_point(p);
    let (c000, c100, c010, c110, c001, c101, c011, c111) = choose|
        c000: int,
        c100: int,
        c010: int,
        c110: int,
        c001: int,
        c101: int,
        c011: int,
        c111: int,
    |
        #[trigger] corners_hashed(hash, q, c000, c100, c010, c110, c001, c101, c011, c111) && value
            == trilinear(q, c000, c100, c010, c110, c001, c101, c011, c111);
    lemma_trilinear_on_lattice(q, c000, c100, c010, c110, c001, c101, c011, c111);
}

/// One octave of noise is half the noise value: every sum of a single octave
/// at `p` is a noise value at `p` times one half.
pub proof fn lemma_fbm_single_octave<G: Fn(i64) -> i32>(hash: G, p: Point, value: int)
    requires
        is_fbm(hash, p, 1, value),
    ensures
        exists|n: int| #[trigger] is_noise(hash, p, n) && value == mul_unit(n, UNIT / 2),
{
    let ns = choose|ns: Seq<int>|
        #[trigger] octaves_are_noise(hash, p, 1, ns) && value == weighted_sum(ns, 1);
    reveal_with_fuel(weighted_sum, 2);
    reveal_with_fuel(amplitude, 2);
    assert(is_noise(hash, octave_point(p, 0), ns[0]));
    lemma_noise_of_limited(hash, p, ns[0]);
    assert(amplitude(0) * ns[0] == ns[0] * (UNIT / 2)) by (nonlinear_arith)
        requires
            amplitude(0) == UNIT / 2,
    ;
}

/// Noise does not tell a point from the same point limited to the noise
/// range.
pub proof fn lemma_noise_of_limited<G: Fn(i64) -> i32>(hash: G, p: Point, n: int)
    ensures
        is_noise(hash, limited_point(p), n) == is_noise(hash, p, n),
{
}

/// Between the edges 0 and 1 the general smooth step is the smooth step of
/// the fraction itself.
proof fn lemma_smoothstep_of_fraction(t: int)
    requires
        0 <= t <= UNIT,
    ensures
        smoothstep_spec(0, UNIT as int, t) == smooth(t),
{
    vstd::arithmetic::div_mod::lemma_div_multiples_vanish(t, UNIT as int);
}

/// The hash of a scalar: what `scramble` gives for it, limited to `[0, 1)`.
pub fn hash<G: Fn(i64) -> i32>(n: i64, scramble: &G) -> (h: i32)
    requires
        forall|n: i64| call_requires(*scramble, (n,)),
    ensures
        is_hash(*scramble, n as int, h as int),
        0 <= h < UNIT,
{
    let raw: i32 = scramble(n);
    assert(call_ensures(*scramble, (n as int as i64,), raw));
    clamp_i32(raw, 0, UNIT - 1)
}

/// The hash of a point, which is limited to the noise range first.
pub fn hash_vec3<G: Fn(i64) -> i32>(p: Point, hash: &G) -> (h: i32)
    requires
        forall|n: i64| call_requires(*hash, (n,)),
    ensures
        is_hash3(*hash, p, h as int),
        0 <= h < UNIT,
{
    let q: Point = limit_point(p);
    let seed: i64 = q.x * 129_898 + q.y * 782_330 + q.z * 451_640;
    self::hash(seed, hash)
}

/// The smooth step between two edges.
pub fn smoothstep(edge0: i32, edge1: i32, x: i32) -> (r: i32)
    requires
        edge0 != edge1,
    ensures
        r == smoothstep_spec(edge0 as int, edge1 as int, x as int),
        0 <= r <= UNIT,
{
    let unit: i128 = UNIT as i128;
    let num: i128 = (x as i128 - edge0 as i128) * unit;
    let den: i128 = edge1 as i128 - edge0 as i128;
    let ratio: i128 = if den > 0 {
        div_floor(num, den)
    } else {
        div_floor(-num, -den)
    };
    let t: i128 = if ratio < 0 {
        0
    } else if ratio > unit {
        unit
    } else {
        ratio
    };
    proof {
        lemma_smooth_bounds(t as int);
    }
    assert(0 <= t * t <= 100_000_000 && 0 <= t * t * (3 * unit - 2 * t) <= 10_000 * 100_000_000)
        by (nonlinear_arith)
        requires
            0 <= t <= 10_000,
            unit == 10_000,
    ;
    (t * t * (3 * unit - 2 * t) / (unit * unit)) as i32
}

/// The blend of two hash values.
fn mix_values(a: i64, b: i64, t: i64) -> (r: i64)
    requires
        0 <= a < UNIT,
        0 <= b < UNIT,
        0 <= t <= UNIT,
    ensures
        r == mix(a as int, b as int, t as int),
        0 <= r < UNIT,
{
    proof {
        lemma_mix_between(a as int, b as int, t as int, 0, UNIT - 1);
    }
    assert(-10_000 * 10_000 <= (b - a) * t <= 10_000 * 10_000) by (nonlinear_arith)
        requires
            -10_000 <= b - a <= 10_000,
            0 <= t <= 10_000,
    ;
    (a as i128 + div_floor(((b - a) * t) as i128, UNIT as i128)) as i64
}

/// The hash of the lattice point `(dx, dy, dz)` cells past the cell of `p`.
fn corner_hash<G: Fn(i64) -> i32>(p: Point, dx: i64, dy: i64, dz: i64, hash: &G) -> (h: i64)
    requires
        forall|n: i64| call_requires(*hash, (n,)),
        p == limited_point(p),
        0 <= dx <= 1,
        0 <= dy <= 1,
        0 <= dz <= 1,
    ensures
        is_hash3(*hash, corner(p, dx as int, dy as int, dz as int), h as int),
        0 <= h < UNIT,
{
    let unit: i128 = UNIT as i128;
    let x: i128 = (div_floor(p.x as i128, unit) + dx as i128) * unit;
    let y: i128 = (div_floor(p.y as i128, unit) + dy as i128) * unit;
    let z: i128 = (div_floor(p.z as i128, unit) + dz as i128) * unit;
    let q: Point = Point { x: x as i64, y: y as i64, z: z as i64 };
    hash_vec3(q, hash) as i64
}

/// A point limited to the noise range.
fn limit_point(p: Point) -> (q: Point)
    ensures
        q == limited_point(p),
        q == limited_point(q),
{
    Point {
        x: clamp_i64(p.x, -NOISE_RANGE, NOISE_RANGE),
        y: clamp_i64(p.y, -NOISE_RANGE, NOISE_RANGE),
        z: clamp_i64(p.z, -NOISE_RANGE, NOISE_RANGE),
    }
}

/// Value noise at `p`: the hashes of the eight lattice points around `p`,
/// blended along x, then y, then z with smooth-stepped weights.
pub fn noise<G: Fn(i64) -> i32>(p: Point, hash: &G) -> (value: i32)
    requires
        forall|n: i64| call_requires(*hash, (n,)),
    ensures
        is_noise(*hash, p, value as int),
        0 <= value < UNIT,
{
    let q: Point = limit_point(p);
    let unit: i128 = UNIT as i128;
    let fx: i64 = (q.x as i128 - div_floor(q.x as i128, unit) * unit) as i64;
    let fy: i64 = (q.y as i128 - div_floor(q.y as i128, unit) * unit) as i64;
    let fz: i64 = (q.z as i128 - div_floor(q.z as i128, unit) * unit) as i64;
    assert(fx == fraction_of(q.x as int) && fy == fraction_of(q.y as int) && fz == fraction_of(
        q.z as int,
    )) by {
        vstd::arithmetic::div_mod::lemma_fundamental_div_mod(q.x as int, 10_000);
        vstd::arithmetic::div_mod::lemma_fundamental_div_mod(q.y as int, 10_000);
        vstd::arithmetic::div_mod::lemma_fundamental_div_mod(q.z as int, 10_000);
    }
    let ux: i64 = smoothstep(0, UNIT, fx as i32) as i64;
    let uy: i64 = smoothstep(0, UNIT, fy as i32) as i64;
    let uz: i64 = smoothstep(0, UNIT, fz as i32) as i64;
    assert(ux == smooth(fx as int) && uy == smooth(fy as int) && uz == smooth(fz as int)) by {
        lemma_smoothstep_of_fraction(fx as int);
        lemma_smoothstep_of_fraction(fy as int);
        lemma_smoothstep_of_fraction(fz as int);
    }
    let c000: i64 = corner_hash(q, 0, 0, 0, hash);
    let c100: i64 = corner_hash(q, 1, 0, 0, hash);
    let c010: i64 = corner_hash(q, 0, 1, 0, hash);
    let c110: i64 = corner_hash(q, 1, 1, 0, hash);
    let c001: i64 = corner_hash(q, 0, 0, 1, hash);
    let c101: i64 = corner_hash(q, 1, 0, 1, hash);
    let c011: i64 = corner_hash(q, 0, 1, 1, hash);
    let c111: i64 = corner_hash(q, 1, 1, 1, hash);
    let x1: i64 = mix_values(c000, c100, ux);
    let x2: i64 = mix_values(c010, c110, ux);
    let y1: i64 = mix_values(x1, x2, uy);
    let x3: i64 = mix_values(c001, c101, ux);
    let x4: i64 = mix_values(c011, c111, ux);
    let y2: i64 = mix_values(x3, x4, uy);
    let value: i64 = mix_values(y1, y2, uz);
    assert(corners_hashed(
        *hash,
        q,
        c000 as int,
        c100 as int,
        c010 as int,
        c110 as int,
        c001 as int,
        c101 as int,
        c011 as int,
        c111 as int,
    ));
    value as i32
}

/// Amplitudes never rise, and none is negative.
proof fn lemma_amplitude_falls(i: nat, j: nat)
    requires
        i <= j,
    ensures
        0 <= amplitude(j) <= amplitude(i) <= UNIT / 2,
    decreases j,
{
    if j > 0 {
        if i < j {
            lemma_amplitude_falls(i, (j - 1) as nat);
        } else {
            lemma_amplitude_falls((i - 1) as nat, (j - 1) as nat);
        }
    }
}

/// Two series that agree on the first `m` octaves have the same weighted sum
/// of them.
proof fn lemma_weighted_sum_agrees(ns1: Seq<int>, ns2: Seq<int>, m: nat)
    requires
        forall|k: int| 0 <= k < m ==> ns1[k] == ns2[k],
    ensures
        weighted_sum(ns1, m) == weighted_sum(ns2, m),
    decreases m,
{
    if m > 0 {
        lemma_weighted_sum_agrees(ns1, ns2, (m - 1) as nat);
    }
}

/// Octaves from a zero amplitude on add nothing.
proof fn lemma_weighted_sum_tail(ns: Seq<int>, i: nat, m: nat)
    requires
        i <= m,
        amplitude(i) == 0,
    ensures
        weighted_sum(ns, m) == weighted_sum(ns, i),
    decreases m,
{
    if m > i {
        lemma_weighted_sum_tail(ns, i, (m - 1) as nat);
        lemma_amplitude_falls(i, (m - 1) as nat);
        assert(0 * ns[m - 1] == 0) by (nonlinear_arith);
    }
}

/// Several octaves of noise at `p`: octave `k` has the frequency doubled `k`
/// times and the amplitude halved `k` times, from one half on.
pub fn fbm<G: Fn(i64) -> i32>(p: Point, octaves: u32, hash: &G) -> (value: i32)
    requires
        forall|n: i64| call_requires(*hash, (n,)),
    ensures
        is_fbm(*hash, p, octaves as nat, value as int),
        0 <= value < UNIT,
{
    let unit: i64 = UNIT as i64;
    let mut value: i64 = 0;
    let mut amp: i64 = unit / 2;
    let mut q: Point = limit_point(p);
    let mut i: u32 = 0;
    let ghost mut ns: Seq<int> = Seq::empty();
    while i < octaves && amp > 0
        invariant
            forall|n: i64| call_requires(*hash, (n,)),
            unit == 10_000,
            i <= octaves,
            amp == amplitude(i as nat),
            0 <= amp <= unit / 2,
            q == octave_point(p, i as nat),
            q == limited_point(q),
            octaves_are_noise(*hash, p, i as nat, ns),
            value == weighted_sum(ns, i as nat),
            0 <= value,
            value + 2 * amp <= unit,
            i > 0 ==> value + 2 * amp < unit,
        decreases octaves - i,
    {
        let n: i64 = noise(q, hash) as i64;
        assert(0 <= amp * n <= amp * 10_000 - amp) by (nonlinear_arith)
            requires
                0 <= n <= 9_999,
                amp >= 1,
        ;
        let term: i64 = amp * n / unit;
        proof {
            let longer = ns.push(n as int);
            lemma_weighted_sum_agrees(ns, longer, i as nat);
            ns = longer;
        }
        value = value + term;
        amp = amp / 2;
        q = limit_point(Point { x: 2 * q.x, y: 2 * q.y, z: 2 * q.z });
        i = i + 1;
    }
    proof {
        if i < octaves {
            let padded = ns + Seq::new((octaves - i) as nat, |j: int| 0int);
            lemma_weighted_sum_agrees(ns, padded, i as nat);
            lemma_weighted_sum_tail(padded, i as nat, octaves as nat);
            assert forall|k: int| 0 <= k < octaves && amplitude(k as nat) > 0 implies #[trigger] is_noise(
                *hash,
                octave_point(p, k as nat),
                padded[k],
            ) by {
                if k >= i {
                    lemma_amplitude_falls(i as nat, k as nat);
                }
            }
            assert(octaves_are_noise(*hash, p, octaves as nat, padded));
        }
    }
    value as i32
}

} // verus!
