//! Knockback impulse from an attacker's and a victim's positions.

use vstd::prelude::*;

verus! {

/// Largest absolute coordinate of a position: the thirty million blocks of
/// the world border.
pub const COORD_LIMIT: i64 = 30_000_000_000;

/// Sub-units per unit in which the horizontal length of an offset is taken.
pub const FINE: i64 = 65536;

/// Horizontal knockback of an ordinary hit.
pub const BASE_KNOCKBACK_XZ: i64 = 8000;

/// Vertical knockback of an ordinary hit.
pub const BASE_KNOCKBACK_Y: i64 = 6432;

/// Horizontal knockback of a hit made while the bonus is held.
pub const BONUS_KNOCKBACK_XZ: i64 = 18000;

/// Vertical knockback of a hit made while the bonus is held.
pub const BONUS_KNOCKBACK_Y: i64 = 8432;

/// A vector of three fixed-point components.
#[derive(Clone, Copy, Debug, PartialEq, Eq, Structural)]
pub struct Vec3i {
    pub x: i64,
    pub y: i64,
    pub z: i64,
}

impl Vec3i {
    pub open spec fn in_world(self) -> bool {
        -COORD_LIMIT <= self.x <= COORD_LIMIT && -COORD_LIMIT <= self.y <= COORD_LIMIT
            && -COORD_LIMIT <= self.z <= COORD_LIMIT
    }

    pub fn new(x: i64, y: i64, z: i64) -> (r: Vec3i)
        ensures
            r == (Vec3i { x, y, z }),
    {
        Vec3i { x, y, z }
    }

    pub fn zero() -> (r: Vec3i)
        ensures
            r == (Vec3i { x: 0, y: 0, z: 0 }),
    {
        Vec3i { x: 0, y: 0, z: 0 }
    }
}

/// Horizontal magnitude of the knockback tier chosen by `bonus`.
pub open spec fn tier_xz(bonus: bool) -> int {
    if bonus {
        BONUS_KNOCKBACK_XZ as int
    } else {
        BASE_KNOCKBACK_XZ as int
    }
}

/// Vertical magnitude of the knockback tier chosen by `bonus`.
pub open spec fn tier_y(bonus: bool) -> int {
    if bonus {
        BONUS_KNOCKBACK_Y as int
    } else {
        BASE_KNOCKBACK_Y as int
    }
}

/// `r` is the integer square root of `n`, rounded down.
pub open spec fn is_floor_sqrt(n: int, r: int) -> bool {
    0 <= r && r * r <= n && n < (r + 1) * (r + 1)
}

/// The integer square root of `n`, rounded down.
pub open spec fn floor_sqrt(n: int) -> int {
    choose|r: int| is_floor_sqrt(n, r)
}

/// `d` scaled by `k / len`, rounded toward zero.
pub open spec fn scale_toward_zero(d: int, k: int, len: int) -> int {
    if d >= 0 {
        d * k / len
    } else {
        -((-d) * k / len)
    }
}

/// Horizontal length of the offset `(dx, dz)` in units of `1 / FINE`,
/// rounded down.
pub open spec fn planar_len(dx: int, dz: int) -> int {
    floor_sqrt((dx * dx + dz * dz) * (FINE * FINE))
}

/// The impulse that a hit from `attacker` gives a victim at `victim`: the
/// horizontal unit vector from attacker to victim scaled by the tier's
/// horizontal magnitude, each component rounded toward zero, and the tier's
/// vertical magnitude upward. The length of the offset is taken in units of
/// `1 / FINE`, so that the rounding costs under one unit of the push
/// whatever the distance. Where both stand on one vertical line the
/// horizontal part is zero.
pub open spec fn knockback_spec(attacker: Vec3i, victim: Vec3i, bonus: bool) -> (int, int, int) {
    let dx = victim.x - attacker.x;
    let dz = victim.z - attacker.z;
    if dx == 0 && dz == 0 {
        (0, tier_y(bonus), 0)
    } else {
        let len = planar_len(dx, dz);
        (
            scale_toward_zero(dx, tier_xz(bonus) * FINE, len),
            tier_y(bonus),
            scale_toward_zero(dz, tier_xz(bonus) * FINE, len),
        )
    }
}

/// Every non-negative integer has an integer square root.
pub(crate) proof fn lemma_floor_sqrt_exists(n: int)
    requires
        n >= 0,
    ensures
        is_floor_sqrt(n, floor_sqrt(n)),
    decreases n,
{
    if n == 0 {
        assert(is_floor_sqrt(0, 0));
    } else {
        lemma_floor_sqrt_exists(n - 1);
        let r = floor_sqrt(n - 1);
        if (r + 1) * (r + 1) <= n {
            assert(n < (r + 2) * (r + 2)) by (nonlinear_arith)
                requires
                    n - 1 < (r + 1) * (r + 1),
                    r >= 0,
            ;
            assert(is_floor_sqrt(n, r + 1));
        } else {
            assert(is_floor_sqrt(n, r));
        }
    }
}

proof fn lemma_floor_sqrt_unique(n: int, r1: int, r2: int)
    requires
        is_floor_sqrt(n, r1),
        is_floor_sqrt(n, r2),
    ensures
        r1 == r2,
{
    if r1 < r2 {
        assert((r1 + 1) * (r1 + 1) <= r2 * r2) by (nonlinear_arith)
            requires
                0 <= r1 + 1 <= r2,
        ;
    } else if r2 < r1 {
        assert((r2 + 1) * (r2 + 1) <= r1 * r1) by (nonlinear_arith)
            requires
                0 <= r2 + 1 <= r1,
        ;
    }
}

proof fn lemma_abs_le_root(a: int, b: int, sq: int, len: int)
    requires
        sq == a * a + b * b,
        is_floor_sqrt(sq, len),
    ensures
        -len <= a <= len,
{
    if a > len {
        assert((len + 1) * (len + 1) <= a * a) by (nonlinear_arith)
            requires
                0 <= len + 1 <= a,
        ;
        assert(b * b >= 0) by (nonlinear_arith);
    } else if a < -len {
        assert((len + 1) * (len + 1) <= a * a) by (nonlinear_arith)
            requires
                0 <= len + 1 <= -a,
        ;
        assert(b * b >= 0) by (nonlinear_arith);
    }
}

/// Integer square root of `n`, rounded down, by bisection.
pub fn floor_sqrt_u128(n: u128) -> (r: u128)
    requires
        n < 0x400_0000_0000_0000_0000_0000_0000,
    ensures
        r == floor_sqrt(n as int),
        is_floor_sqrt(n as int, r as int),
        r < 0x20_0000_0000_0000,
{
    let mut lo: u128 = 0;
    let mut hi: u128 = 0x20_0000_0000_0000;
    assert(hi * hi == 0x400_0000_0000_0000_0000_0000_0000);
    while hi - lo > 1
        invariant
            lo < hi <= 0x20_0000_0000_0000,
            lo * lo <= n,
            n < hi * hi,
        decreases hi - lo,
    {
        let mid: u128 = lo + (hi - lo) / 2;
        assert(mid * mid <= 0x20_0000_0000_0000 * 0x20_0000_0000_0000) by (nonlinear_arith)
            requires
                0 <= mid <= 0x20_0000_0000_0000,
        ;
        if mid * mid <= n {
            lo = mid;
        } else {
            hi = mid;
        }
    }
    assert(is_floor_sqrt(n as int, lo as int));
    proof {
        let c = floor_sqrt(n as int);
        lemma_floor_sqrt_unique(n as int, c, lo as int);
    }
    lo
}

/// Scales `d` by `k * FINE / len`, rounding toward zero.
fn scale(d: i64, k: i64, len: u128) -> (r: i64)
    requires
        -2 * COORD_LIMIT <= d <= 2 * COORD_LIMIT,
        0 <= k <= BONUS_KNOCKBACK_XZ,
        len >= 1,
        -(len as int) <= d * FINE <= len,
    ensures
        r == scale_toward_zero(d as int, k * FINE, len as int),
        -k <= r <= k,
{
    let m: u128 = if d >= 0 { d as u128 } else { (-d) as u128 };
    let kf: u128 = (k as u128) * (FINE as u128);
    assert(m * kf <= len * (k as u128)) by (nonlinear_arith)
        requires
            m * FINE <= len,
            kf == k * FINE,
            k >= 0,
    ;
    assert(m * kf <= 0x1000_0000_0000_0000_0000) by (nonlinear_arith)
        requires
            0 <= m <= 2 * COORD_LIMIT,
            0 <= kf <= BONUS_KNOCKBACK_XZ * FINE,
    ;
    let q: u128 = m * kf / len;
    assert(q <= k) by (nonlinear_arith)
        requires
            q == (m * kf) as int / len as int,
            m * kf <= len * k,
            len >= 1,
            k >= 0,
    ;
    if d >= 0 {
        q as i64
    } else {
        -(q as i64)
    }
}

/// The knockback impulse of a hit by an attacker at `attacker` on a victim
/// at `victim`, in the tier that `bonus` selects.
pub fn knockback_impulse(attacker: Vec3i, victim: Vec3i, bonus: bool) -> (r: Vec3i)
    requires
        attacker.in_world(),
        victim.in_world(),
    ensures
        (r.x as int, r.y as int, r.z as int) == knockback_spec(attacker, victim, bonus),
        -tier_xz(bonus) <= r.x <= tier_xz(bonus),
        -tier_xz(bonus) <= r.z <= tier_xz(bonus),
        (victim.x != attacker.x || victim.z != attacker.z) ==> sq(tier_xz(bonus) - 2) <= sq(r.x as int)
            + sq(r.z as int) <= sq(tier_xz(bonus) + 2),
{
    let (kxz, ky) = if bonus {
        (BONUS_KNOCKBACK_XZ, BONUS_KNOCKBACK_Y)
    } else {
        (BASE_KNOCKBACK_XZ, BASE_KNOCKBACK_Y)
    };
    let dx: i64 = victim.x - attacker.x;
    let dz: i64 = victim.z - attacker.z;
    if dx == 0 && dz == 0 {
        return Vec3i { x: 0, y: ky, z: 0 };
    }
    let ax: u128 = if dx >= 0 { dx as u128 } else { (-dx) as u128 };
    let az: u128 = if dz >= 0 { dz as u128 } else { (-dz) as u128 };
    assert(ax * ax <= 0x10_0000_0000 * 0x10_0000_0000) by (nonlinear_arith)
        requires
            0 <= ax <= 0x10_0000_0000,
    ;
    assert(az * az <= 0x10_0000_0000 * 0x10_0000_0000) by (nonlinear_arith)
        requires
            0 <= az <= 0x10_0000_0000,
    ;
    let sq: u128 = ax * ax + az * az;
    assert(sq == dx * dx + dz * dz) by (nonlinear_arith)
        requires
            ax == dx || ax == -dx,
            az == dz || az == -dz,
            sq == ax * ax + az * az,
    ;
    assert(sq >= 1) by (nonlinear_arith)
        requires
            sq == ax * ax + az * az,
            ax >= 1 || az >= 1,
            az >= 0,
            ax >= 0,
    ;
    let n: u128 = sq * 0x1_0000_0000;
    assert(n == (dx * FINE) * (dx * FINE) + (dz * FINE) * (dz * FINE)) by (nonlinear_arith)
        requires
            n == sq * 0x1_0000_0000,
            sq == dx * dx + dz * dz,
            FINE == 0x1_0000,
    ;
    assert(n == (dx * dx + dz * dz) * (FINE * FINE));
    let len = floor_sqrt_u128(n);
    assert(len >= 1) by (nonlinear_arith)
        requires
            n < (len + 1) * (len + 1),
            n >= 1,
            len >= 0,
    ;
    proof {
        lemma_abs_le_root(dx * FINE, dz * FINE, n as int, len as int);
        lemma_abs_le_root(dz * FINE, dx * FINE, n as int, len as int);
        lemma_push_magnitude(dx as int, dz as int, bonus);
    }
    let x = scale(dx, kxz, len);
    let z = scale(dz, kxz, len);
    Vec3i { x, y: ky, z }
}

proof fn lemma_square_of_signed(v: int, x: int)
    requires
        v == x || v == -x,
    ensures
        sq(v) == x * x,
{
    assert(v * v == x * x) by (nonlinear_arith)
        requires
            v == x || v == -x,
    ;
}

/// The square of `v`.
pub open spec fn sq(v: int) -> int {
    v * v
}

/// The horizontal push of a hit is the tier's magnitude to within two
/// units: the rounding of each component costs less than one.
pub proof fn lemma_push_magnitude(dx: int, dz: int, bonus: bool)
    requires
        dx != 0 || dz != 0,
    ensures
        ({
            let k = tier_xz(bonus);
            let len = planar_len(dx, dz);
            let x = scale_toward_zero(dx, k * FINE, len);
            let z = scale_toward_zero(dz, k * FINE, len);
            sq(k - 2) <= sq(x) + sq(z) <= sq(k + 2)
        }),
{
    let k = tier_xz(bonus);
    let f = FINE as int;
    let m = k * f;
    let a = if dx >= 0 {
        dx
    } else {
        -dx
    };
    let b = if dz >= 0 {
        dz
    } else {
        -dz
    };
    let s = a * a + b * b;
    assert(s == dx * dx + dz * dz) by (nonlinear_arith)
        requires
            a == dx || a == -dx,
            b == dz || b == -dz,
            s == a * a + b * b,
    ;
    assert(s >= 1) by (nonlinear_arith)
        requires
            s == a * a + b * b,
            a >= 1 || b >= 1,
            a >= 0,
            b >= 0,
    ;
    let n = s * (f * f);
    lemma_floor_sqrt_exists(n);
    let len = planar_len(dx, dz);
    assert(len == floor_sqrt(n));
    assert(len >= f) by {
        if len < f {
            assert((len + 1) * (len + 1) <= f * f) by (nonlinear_arith)
                requires
                    0 <= len + 1 <= f,
            ;
            assert(f * f <= n) by (nonlinear_arith)
                requires
                    n == s * (f * f),
                    s >= 1,
            ;
        }
    }
    let x = a * m / len;
    let z = b * m / len;
    assert(scale_toward_zero(dx, m, len) == x || scale_toward_zero(dx, m, len) == -x);
    assert(scale_toward_zero(dz, m, len) == z || scale_toward_zero(dz, m, len) == -z);
    lemma_square_of_signed(scale_toward_zero(dx, m, len), x);
    lemma_square_of_signed(scale_toward_zero(dz, m, len), z);
    assert(x * len <= a * m < x * len + len && x >= 0) by (nonlinear_arith)
        requires
            x == a * m / len,
            len >= 1,
            a >= 0,
            m >= 0,
    ;
    assert(z * len <= b * m < z * len + len && z >= 0) by (nonlinear_arith)
        requires
            z == b * m / len,
            len >= 1,
            b >= 0,
            m >= 0,
    ;
    // The exact push, s * m * m, is k * k * n.
    let mm = m * m;
    assert(mm == k * k * (f * f)) by (nonlinear_arith)
        requires
            m == k * f,
            mm == m * m,
    ;
    assert(a * m * (a * m) == a * a * mm) by (nonlinear_arith)
        requires
            mm == m * m,
    ;
    assert(b * m * (b * m) == b * b * mm) by (nonlinear_arith)
        requires
            mm == m * m,
    ;
    assert(a * a * mm + b * b * mm == s * mm) by (nonlinear_arith)
        requires
            s == a * a + b * b,
    ;
    assert(s * mm == k * k * n) by (nonlinear_arith)
        requires
            mm == k * k * (f * f),
            n == s * (f * f),
    ;
    // Upper bound.
    assert(x * len * (x * len) <= a * m * (a * m)) by (nonlinear_arith)
        requires
            0 <= x * len <= a * m,
    ;
    assert(z * len * (z * len) <= b * m * (b * m)) by (nonlinear_arith)
        requires
            0 <= z * len <= b * m,
    ;
    assert(k * k * n < k * k * ((len + 1) * (len + 1))) by (nonlinear_arith)
        requires
            n < (len + 1) * (len + 1),
            k >= 1,
    ;
    assert(k * (len + 1) <= (k + 2) * len) by (nonlinear_arith)
        requires
            k <= 2 * len,
    ;
    assert(k * k * ((len + 1) * (len + 1)) <= (k + 2) * (k + 2) * (len * len)) by (nonlinear_arith)
        requires
            0 <= k * (len + 1) <= (k + 2) * len,
            k >= 0,
            len >= 0,
    ;
    assert((x * x + z * z) * (len * len) == x * len * (x * len) + z * len * (z * len)) by (nonlinear_arith);
    assert(x * x + z * z < (k + 2) * (k + 2)) by (nonlinear_arith)
        requires
            (x * x + z * z) * (len * len) < (k + 2) * (k + 2) * (len * len),
            len >= 1,
    ;
    // Lower bound.
    let u = x + 1;
    let w = z + 1;
    assert(u * len == x * len + len && w * len == z * len + len) by (nonlinear_arith)
        requires
            u == x + 1,
            w == z + 1,
    ;
    assert(a * m >= 0 && b * m >= 0) by (nonlinear_arith)
        requires
            a >= 0,
            b >= 0,
            m >= 0,
    ;
    assert(a * m * (a * m) < u * len * (u * len)) by (nonlinear_arith)
        requires
            0 <= a * m < u * len,
    ;
    assert(b * m * (b * m) < w * len * (w * len)) by (nonlinear_arith)
        requires
            0 <= b * m < w * len,
    ;
    assert(len * len <= n);
    assert(k * k * (len * len) <= k * k * n) by (nonlinear_arith)
        requires
            len * len <= n,
    ;
    assert((u * u + w * w) * (len * len) == u * len * (u * len) + w * len * (w * len)) by (nonlinear_arith);
    assert(u * u + w * w > k * k) by (nonlinear_arith)
        requires
            (u * u + w * w) * (len * len) > k * k * (len * len),
            len >= 1,
    ;
    let p = x * x + z * z;
    let t = x + z;
    assert(t * t <= 2 * p) by (nonlinear_arith)
        requires
            p == x * x + z * z,
            t == x + z,
    ;
    assert(u * u + w * w == p + 2 * t + 2) by (nonlinear_arith)
        requires
            u == x + 1,
            w == z + 1,
            p == x * x + z * z,
            t == x + z,
    ;
    if p < (k - 2) * (k - 2) {
        assert(2 * t < 3 * (k - 2)) by (nonlinear_arith)
            requires
                t * t <= 2 * p,
                p < (k - 2) * (k - 2),
                t >= 0,
                k >= 2,
        ;
        assert(false) by (nonlinear_arith)
            requires
                p + 2 * t + 2 > k * k,
                p < (k - 2) * (k - 2),
                2 * t < 3 * (k - 2),
                k >= 2,
        ;
    }
}

} // verus!
