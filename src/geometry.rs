use vstd::prelude::*;

verus! {

/// Coordinates and velocity components stay within this magnitude.
pub const COORD_LIMIT: i64 = 1_099_511_627_776;

/// Integer square roots are taken of values below this bound.
pub const ROOT_DOMAIN: u128 = 19_342_813_113_834_066_795_298_816;

/// Whether `v` is a coordinate the simulation may hold.
pub open spec fn in_range(v: int) -> bool {
    -COORD_LIMIT <= v <= COORD_LIMIT
}

/// `v` limited to `[-COORD_LIMIT, COORD_LIMIT]`.
pub open spec fn clamp(v: int) -> int {
    if v < -COORD_LIMIT {
        -COORD_LIMIT as int
    } else if v > COORD_LIMIT {
        COORD_LIMIT as int
    } else {
        v
    }
}

/// Division rounded toward zero, as Rust's `/` on signed integers.
pub open spec fn div_t(a: int, b: int) -> int {
    if a >= 0 {
        a / b
    } else {
        -((-a) / b)
    }
}

/// The integer square root: the largest `r` with `r * r <= n`.
pub open spec fn root(n: nat) -> nat
    decreases n,
{
    if n == 0 {
        0
    } else {
        let r = root((n - 1) as nat);
        if (r + 1) * (r + 1) <= n {
            r + 1
        } else {
            r
        }
    }
}

pub proof fn lemma_root_bounds(n: nat)
    ensures
        root(n) * root(n) <= n,
        n < (root(n) + 1) * (root(n) + 1),
    decreases n,
{
    if n > 0 {
        lemma_root_bounds((n - 1) as nat);
        let r = root((n - 1) as nat);
        assert((r + 2) * (r + 2) >= (r + 1) * (r + 1) + 1) by (nonlinear_arith);
        let a = (r + 1) * (r + 1);
        let b = (r + 2) * (r + 2);
        assert(r * r <= n - 1 < a);
        if a <= n {
            assert(root(n) == r + 1);
            assert(n < b);
            assert(root(n) * root(n) == a);
            assert((root(n) + 1) * (root(n) + 1) == b);
            assert(n < (root(n) + 1) * (root(n) + 1));
            assert(root(n) * root(n) <= n);
        } else {
            assert(root(n) == r);
            assert(r * r <= n);
            assert(root(n) * root(n) == r * r);
            assert((root(n) + 1) * (root(n) + 1) == a);
            assert(n < (root(n) + 1) * (root(n) + 1));
            assert(root(n) * root(n) <= n);
        }
    } else {
        assert(root(0) == 0);
        assert((root(n) + 1) * (root(n) + 1) == 1);
    }
}

/// The integer square root is the only `r` with `r² <= n < (r + 1)²`.
proof fn lemma_root_unique(n: nat, r: nat)
    requires
        r * r <= n < (r + 1) * (r + 1),
    ensures
        root(n) == r,
{
    lemma_root_bounds(n);
    let q = root(n);
    if q < r {
        assert((q + 1) * (q + 1) <= r * r) by (nonlinear_arith)
            requires
                q + 1 <= r,
        ;
    } else if q > r {
        assert((r + 1) * (r + 1) <= q * q) by (nonlinear_arith)
            requires
                r + 1 <= q,
        ;
    }
}

/// The integer square root of `n`.
pub fn isqrt(n: u128) -> (r: u64)
    requires
        n < ROOT_DOMAIN,
    ensures
        r == root(n as nat),
        r <= 4_398_046_511_104,
{
    // lo * lo <= n < hi * hi throughout
    let mut lo: u128 = 0;
    let mut hi: u128 = 4_398_046_511_104;
    assert(hi * hi == ROOT_DOMAIN);
    while hi - lo > 1
        invariant
            lo < hi <= 4_398_046_511_104,
            lo * lo <= n < hi * hi,
        decreases hi - lo,
    {
        let mid = lo + (hi - lo) / 2;
        assert(mid * mid <= 4_398_046_511_104 * 4_398_046_511_104) by (nonlinear_arith)
            requires
                mid <= 4_398_046_511_104,
                0 <= mid,
        ;
        if mid * mid <= n {
            lo = mid;
        } else {
            hi = mid;
        }
    }
    proof {
        assert(hi == lo + 1);
        lemma_root_unique(n as nat, lo as nat);
    }
    lo as u64
}

/// `a / b` rounded toward zero.
pub fn div_trunc(a: i128, b: i128) -> (r: i128)
    requires
        b > 0,
        a > i128::MIN,
    ensures
        r == div_t(a as int, b as int),
{
    if a >= 0 {
        a / b
    } else {
        -((-a) / b)
    }
}

/// `v` limited to `[-COORD_LIMIT, COORD_LIMIT]`.
pub fn clamp_coord(v: i128) -> (r: i64)
    ensures
        r == clamp(v as int),
{
    if v < -(COORD_LIMIT as i128) {
        -COORD_LIMIT
    } else if v > COORD_LIMIT as i128 {
        COORD_LIMIT
    } else {
        v as i64
    }
}

/// `a + b`, or `u64::MAX` where the sum does not fit.
pub open spec fn sat_add(a: u64, b: u64) -> u64 {
    if a + b > u64::MAX {
        u64::MAX
    } else {
        (a + b) as u64
    }
}

pub fn saturating_add(a: u64, b: u64) -> (r: u64)
    ensures
        r == sat_add(a, b),
{
    if a > u64::MAX - b {
        u64::MAX
    } else {
        a + b
    }
}

} // verus!
