use vstd::prelude::*;

verus! {

/// Edge of the finite cube that positions wrap into, in subunits
/// (4096 world units of 4096 subunits each).
pub const FINITE_CUBE_SIZE: i64 = 16777216;

/// Largest magnitude of a coordinate that distance computations accept.
pub const COORD_BOUND: i64 = 268435456;

/// A point or displacement in fixed-point space (4096 subunits per world unit).
#[derive(Clone, Copy, Debug, PartialEq, Eq, Structural)]
pub struct Vec3i {
    pub x: i64,
    pub y: i64,
    pub z: i64,
}

impl Vec3i {
    pub fn new(x: i64, y: i64, z: i64) -> (r: Vec3i)
        ensures
            r == (Vec3i { x, y, z }),
    {
        Vec3i { x, y, z }
    }
}

/// Every coordinate lies inside the cube `[0, FINITE_CUBE_SIZE)`.
pub open spec fn in_cube(p: Vec3i) -> bool {
    &&& 0 <= p.x < FINITE_CUBE_SIZE
    &&& 0 <= p.y < FINITE_CUBE_SIZE
    &&& 0 <= p.z < FINITE_CUBE_SIZE
}

/// Every coordinate is small enough for squared distances to fit in `i64`.
pub open spec fn bounded(p: Vec3i) -> bool {
    &&& -COORD_BOUND <= p.x <= COORD_BOUND
    &&& -COORD_BOUND <= p.y <= COORD_BOUND
    &&& -COORD_BOUND <= p.z <= COORD_BOUND
}

pub open spec fn wrap_spec(p: Vec3i) -> Vec3i {
    Vec3i {
        x: (p.x % FINITE_CUBE_SIZE) as i64,
        y: (p.y % FINITE_CUBE_SIZE) as i64,
        z: (p.z % FINITE_CUBE_SIZE) as i64,
    }
}

pub open spec fn dist2_spec(a: Vec3i, b: Vec3i) -> int {
    (a.x - b.x) * (a.x - b.x) + (a.y - b.y) * (a.y - b.y) + (a.z - b.z) * (a.z - b.z)
}

fn wrap_coord(c: i64) -> (r: i64)
    ensures
        r == c % FINITE_CUBE_SIZE,
{
    let m = c % FINITE_CUBE_SIZE;
    if m < 0 {
        m + FINITE_CUBE_SIZE
    } else {
        m
    }
}

/// Folds unbounded space into the finite cube: each coordinate is taken
/// modulo the cube's edge, into `[0, FINITE_CUBE_SIZE)`.
pub fn warp_infinite_space_into_finite_cube(p: Vec3i) -> (r: Vec3i)
    ensures
        r == wrap_spec(p),
        in_cube(r),
{
    Vec3i { x: wrap_coord(p.x), y: wrap_coord(p.y), z: wrap_coord(p.z) }
}


/// Offset, in cube edges along one axis, of candidate `n` (0..27): digit `d` of
/// `n` in base 3, minus one.
pub open spec fn cube_offset(n: int, d: int) -> int {
    if d == 0 {
        n / 9 - 1
    } else if d == 1 {
        (n / 3) % 3 - 1
    } else {
        n % 3 - 1
    }
}

/// The translate of `pt` by the cube offset of candidate `n`.
pub open spec fn candidate(pt: Vec3i, n: int) -> Vec3i {
    Vec3i {
        x: (pt.x + cube_offset(n, 0) * FINITE_CUBE_SIZE) as i64,
        y: (pt.y + cube_offset(n, 1) * FINITE_CUBE_SIZE) as i64,
        z: (pt.z + cube_offset(n, 2) * FINITE_CUBE_SIZE) as i64,
    }
}

/// The order in which candidates are considered: `pt` itself (candidate 13)
/// first, then the other 26 by increasing `n`.
pub open spec fn visit_rank(n: int) -> int {
    if n == 13 {
        0
    } else if n < 13 {
        n + 1
    } else {
        n
    }
}

/// Squared distance between two points.
pub fn distance_squared(a: Vec3i, b: Vec3i) -> (r: i64)
    requires
        bounded(a),
        bounded(b),
    ensures
        r == dist2_spec(a, b),
{
    let dx = a.x - b.x;
    let dy = a.y - b.y;
    let dz = a.z - b.z;
    assert(dx * dx <= 0x400000000000000) by (nonlinear_arith)
        requires -0x20000000 <= dx <= 0x20000000;
    assert(dy * dy <= 0x400000000000000) by (nonlinear_arith)
        requires -0x20000000 <= dy <= 0x20000000;
    assert(dz * dz <= 0x400000000000000) by (nonlinear_arith)
        requires -0x20000000 <= dz <= 0x20000000;
    assert(0 <= dx * dx && 0 <= dy * dy && 0 <= dz * dz) by (nonlinear_arith);
    dx * dx + dy * dy + dz * dz
}

/// Every coordinate lies within one cube edge of the cube.
pub open spec fn near_cube(p: Vec3i) -> bool {
    &&& -FINITE_CUBE_SIZE <= p.x < 2 * FINITE_CUBE_SIZE
    &&& -FINITE_CUBE_SIZE <= p.y < 2 * FINITE_CUBE_SIZE
    &&& -FINITE_CUBE_SIZE <= p.z < 2 * FINITE_CUBE_SIZE
}

/// `r` is the translate of `pt` nearest to `observer`, the first met on a tie.
#[verifier::opaque]
pub open spec fn is_closest_visible(observer: Vec3i, pt: Vec3i, r: Vec3i) -> bool {
    &&& exists|m: int|
        0 <= m < 27 && r == candidate(pt, m) && forall|n: int|
            0 <= n < 27 && visit_rank(n) < visit_rank(m) ==> dist2_spec(observer, candidate(pt, n))
                > dist2_spec(observer, r)
    &&& forall|n: int| 0 <= n < 27 ==> dist2_spec(observer, r) <= dist2_spec(observer, candidate(pt, n))
}

/// Of the 27 translates of `pt` by whole cube edges (`-1`, `0` or `+1` along
/// each axis), the one nearest to `observer`; on a tie the one met first,
/// `pt` itself before any other.
pub fn finite_cube_point_to_closest_visible_location(observer: Vec3i, pt: Vec3i) -> (r: Vec3i)
    requires
        in_cube(observer),
        in_cube(pt),
    ensures
        is_closest_visible(observer, pt, r),
        near_cube(r),
{
    reveal(is_closest_visible);
    let mut closest = pt;
    let mut closest_dist = distance_squared(observer, pt);
    let ghost mut best: int = 13;
    assert(candidate(pt, 13) == pt);
    let mut n: i64 = 0;
    while n < 27
        invariant
            0 <= n <= 27,
            in_cube(observer),
            in_cube(pt),
            0 <= best < 27,
            closest == candidate(pt, best),
            near_cube(closest),
            closest_dist == dist2_spec(observer, closest),
            best == 13 || best < n,
            forall|k: int|
                0 <= k < 27 && (k == 13 || k < n) ==> dist2_spec(observer, candidate(pt, k))
                    >= closest_dist,
            forall|k: int|
                0 <= k < 27 && (k == 13 || k < n) && visit_rank(k) < visit_rank(best)
                    ==> dist2_spec(observer, candidate(pt, k)) > closest_dist,
        decreases 27 - n,
    {
        if n != 13 {
            let dx: i64 = n / 9 - 1;
            let dy: i64 = (n / 3) % 3 - 1;
            let dz: i64 = n % 3 - 1;
            assert(-1 <= dx <= 1 && -1 <= dy <= 1 && -1 <= dz <= 1);
            assert(-FINITE_CUBE_SIZE <= dx * FINITE_CUBE_SIZE <= FINITE_CUBE_SIZE) by (nonlinear_arith)
                requires -1 <= dx <= 1;
            assert(-FINITE_CUBE_SIZE <= dy * FINITE_CUBE_SIZE <= FINITE_CUBE_SIZE) by (nonlinear_arith)
                requires -1 <= dy <= 1;
            assert(-FINITE_CUBE_SIZE <= dz * FINITE_CUBE_SIZE <= FINITE_CUBE_SIZE) by (nonlinear_arith)
                requires -1 <= dz <= 1;
            let pt2 = Vec3i {
                x: pt.x + dx * FINITE_CUBE_SIZE,
                y: pt.y + dy * FINITE_CUBE_SIZE,
                z: pt.z + dz * FINITE_CUBE_SIZE,
            };
            assert(pt2 == candidate(pt, n as int));
            let d = distance_squared(observer, pt2);
            if d < closest_dist {
                closest_dist = d;
                closest = pt2;
                proof {
                    best = n as int;
                }
            }
        }
        n = n + 1;
    }
    closest
}

} // verus!
