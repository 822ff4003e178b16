//! Tessellation-facing geometry. The site validator decides, with an exact
//! contract, whether a site set can produce a valid partition of the
//! bounding box: it rejects precisely the empty set, a coincident pair,
//! and an all-collinear set (any set of fewer than three distinct sites is
//! collinear in this sense — no triangle, no partition). The checkers
//! measure a finished tessellation: polygon areas by the shoelace formula
//! and strict containment of each site in its own convex cell.

use vstd::prelude::*;
use crate::bbox::BoundingBox;
use crate::errors::DegenerateInputError;
use crate::pos::{Pos, spec_in_range};

verus! {

/// Largest site count the validator accepts.
pub const SITE_LIMIT: usize = 1_000_000;

/// Largest vertex count of one cell the checkers accept.
pub const CELL_LIMIT: usize = 100_000;

/// Largest coordinate magnitude the checkers accept: cells clipped to a
/// bounding box stay well within it.
pub const GEOM_LIMIT: i64 = 2_000_000_000;

/// Twice the signed area of the triangle `a`, `b`, `c`.
pub open spec fn spec_cross(a: Pos, b: Pos, c: Pos) -> int {
    (b.x - a.x) * (c.y - a.y) - (b.y - a.y) * (c.x - a.x)
}

/// Some two sites coincide exactly.
pub open spec fn spec_has_coincident(s: Seq<Pos>) -> bool {
    exists|i: int, j: int| 0 <= i < j < s.len() && s[i] == s[j]
}

/// Every triple of sites is collinear; trivially true below three
/// distinct sites.
pub open spec fn spec_all_collinear(s: Seq<Pos>) -> bool {
    forall|i: int, j: int, k: int|
        0 <= i < s.len() && 0 <= j < s.len() && 0 <= k < s.len() ==> #[trigger] spec_cross(
            s[i],
            s[j],
            s[k],
        ) == 0
}

/// The site sets from which no valid partition exists.
pub open spec fn spec_degenerate(s: Seq<Pos>) -> bool {
    ||| s.len() == 0
    ||| spec_has_coincident(s)
    ||| spec_all_collinear(s)
}

/// Twice the signed cross product of two vectors.
pub open spec fn spec_cross2(px: int, py: int, qx: int, qy: int) -> int {
    px * qy - py * qx
}

/// Two vectors parallel to a common nonzero vector are parallel to each
/// other.
proof fn lemma_parallel(px: int, py: int, qx: int, qy: int, dx: int, dy: int)
    requires
        !(dx == 0 && dy == 0),
        spec_cross2(px, py, dx, dy) == 0,
        spec_cross2(qx, qy, dx, dy) == 0,
    ensures
        spec_cross2(px, py, qx, qy) == 0,
{
    assert(px * dy == py * dx && qx * dy == qy * dx);
    assert((px * qy - py * qx) * dx == 0) by (nonlinear_arith)
        requires
            px * dy == py * dx,
            qx * dy == qy * dx,
    ;
    assert((px * qy - py * qx) * dy == 0) by (nonlinear_arith)
        requires
            px * dy == py * dx,
            qx * dy == qy * dx,
    ;
    if dx != 0 {
        assert(px * qy - py * qx == 0) by (nonlinear_arith)
            requires
                (px * qy - py * qx) * dx == 0,
                dx != 0,
        ;
    } else {
        assert(px * qy - py * qx == 0) by (nonlinear_arith)
            requires
                (px * qy - py * qx) * dy == 0,
                dy != 0,
        ;
    }
}

/// Points collinear with a fixed pair of distinct points are collinear
/// with each other.
proof fn lemma_collinear_triple(a: Pos, b: Pos, u: Pos, v: Pos, w: Pos)
    requires
        a != b,
        spec_cross(a, b, u) == 0,
        spec_cross(a, b, v) == 0,
        spec_cross(a, b, w) == 0,
    ensures
        spec_cross(u, v, w) == 0,
{
    let dx = b.x - a.x;
    let dy = b.y - a.y;
    assert(spec_cross2(u.x - a.x, u.y - a.y, dx, dy) == 0) by (nonlinear_arith)
        requires
            spec_cross(a, b, u) == 0,
            dx == b.x - a.x,
            dy == b.y - a.y,
    ;
    assert(spec_cross2(v.x - a.x, v.y - a.y, dx, dy) == 0) by (nonlinear_arith)
        requires
            spec_cross(a, b, v) == 0,
            dx == b.x - a.x,
            dy == b.y - a.y,
    ;
    assert(spec_cross2(w.x - a.x, w.y - a.y, dx, dy) == 0) by (nonlinear_arith)
        requires
            spec_cross(a, b, w) == 0,
            dx == b.x - a.x,
            dy == b.y - a.y,
    ;
    assert(spec_cross2(v.x - u.x, v.y - u.y, dx, dy) == 0) by (nonlinear_arith)
        requires
            spec_cross2(v.x - a.x, v.y - a.y, dx, dy) == 0,
            spec_cross2(u.x - a.x, u.y - a.y, dx, dy) == 0,
    ;
    assert(spec_cross2(w.x - u.x, w.y - u.y, dx, dy) == 0) by (nonlinear_arith)
        requires
            spec_cross2(w.x - a.x, w.y - a.y, dx, dy) == 0,
            spec_cross2(u.x - a.x, u.y - a.y, dx, dy) == 0,
    ;
    assert(!(dx == 0 && dy == 0));
    lemma_parallel(v.x - u.x, v.y - u.y, w.x - u.x, w.y - u.y, dx, dy);
    assert(spec_cross(u, v, w) == spec_cross2(v.x - u.x, v.y - u.y, w.x - u.x, w.y - u.y))
        by (nonlinear_arith);
}

/// Twice the signed area of the triangle, exactly.
fn cross_of(a: Pos, b: Pos, c: Pos) -> (r: i128)
    requires
        spec_in_range(a),
        spec_in_range(b),
        spec_in_range(c),
    ensures
        r == spec_cross(a, b, c),
{
    let bx = b.x as i128 - a.x as i128;
    let by = b.y as i128 - a.y as i128;
    let cx = c.x as i128 - a.x as i128;
    let cy = c.y as i128 - a.y as i128;
    proof {
        assert(crate::fixed::spec_abs(bx * cy) <= 4_000_000_000_000_000_000_000_000_000_000int
            && crate::fixed::spec_abs(by * cx)
            <= 4_000_000_000_000_000_000_000_000_000_000int) by (nonlinear_arith)
            requires
                -2_000_000_000_000_000int <= bx <= 2_000_000_000_000_000int,
                -2_000_000_000_000_000int <= by <= 2_000_000_000_000_000int,
                -2_000_000_000_000_000int <= cx <= 2_000_000_000_000_000int,
                -2_000_000_000_000_000int <= cy <= 2_000_000_000_000_000int,
        ;
    }
    bx * cy - by * cx
}

/// Decide whether the sites can produce a valid partition, and name the
/// degeneracy if not: exactly the empty set, a coincident pair, or an
/// all-collinear set is rejected.
pub fn validate_sites(sites: &Vec<Pos>) -> (r: Result<(), DegenerateInputError>)
    requires
        sites@.len() <= SITE_LIMIT,
        forall|i: int| 0 <= i < sites@.len() ==> spec_in_range(#[trigger] sites@[i]),
    ensures
        r is Ok <==> !spec_degenerate(sites@),
        r matches Err(e) && e == DegenerateInputError::Empty <==> sites@.len() == 0,
        r matches Err(e) && e == DegenerateInputError::Coincident <==> sites@.len() > 0
            && spec_has_coincident(sites@),
        r matches Err(e) && e == DegenerateInputError::Collinear <==> sites@.len() > 0
            && !spec_has_coincident(sites@) && spec_all_collinear(sites@),
{
    let n = sites.len();
    if n == 0 {
        return Err(DegenerateInputError::Empty);
    }
    let mut i: usize = 0;
    while i < n
        invariant
            0 <= i <= n,
            n == sites@.len(),
            forall|a: int, b: int| 0 <= a < b < n && a < i ==> sites@[a] != sites@[b],
            forall|p: int| 0 <= p < sites@.len() ==> spec_in_range(#[trigger] sites@[p]),
        decreases n - i,
    {
        let mut j: usize = i + 1;
        while j < n
            invariant
                0 <= i < j <= n,
                n == sites@.len(),
                forall|a: int, b: int| 0 <= a < b < n && a < i ==> sites@[a] != sites@[b],
                forall|b: int| i < b < j ==> sites@[i as int] != sites@[b],
            decreases n - j,
        {
            if sites[i] == sites[j] {
                return Err(DegenerateInputError::Coincident);
            }
            j = j + 1;
        }
        i = i + 1;
    }
    assert(!spec_has_coincident(sites@));
    if n < 3 {
        assert(spec_all_collinear(sites@)) by {
            assert forall|i: int, j: int, k: int|
                0 <= i < sites@.len() && 0 <= j < sites@.len() && 0 <= k
                    < sites@.len() implies #[trigger] spec_cross(sites@[i], sites@[j],
                sites@[k]) == 0 by {
                assert(i == j || j == k || i == k);
                assert(spec_cross(sites@[i], sites@[j], sites@[k]) == 0) by (nonlinear_arith)
                    requires
                        sites@[i] == sites@[j] || sites@[j] == sites@[k] || sites@[i]
                            == sites@[k],
                ;
            }
        }
        return Err(DegenerateInputError::Collinear);
    }
    let a = sites[0];
    let b = sites[1];
    proof {
        assert(spec_cross(a, b, a) == 0 && spec_cross(a, b, b) == 0) by (nonlinear_arith);
    }
    let mut k: usize = 2;
    while k < n
        invariant
            2 <= k <= n,
            n == sites@.len(),
            n >= 3,
            a == sites@[0],
            b == sites@[1],
            a != b,
            !spec_has_coincident(sites@),
            forall|p: int| 0 <= p < sites@.len() ==> spec_in_range(#[trigger] sites@[p]),
            forall|p: int| 0 <= p < k ==> spec_cross(a, b, #[trigger] sites@[p]) == 0,
        decreases n - k,
    {
        let c = cross_of(a, b, sites[k]);
        if c != 0 {
            assert(!spec_all_collinear(sites@)) by {
                assert(spec_cross(sites@[0], sites@[1], sites@[k as int]) != 0);
            }
            return Ok(());
        }
        k = k + 1;
    }
    assert(spec_all_collinear(sites@)) by {
        assert forall|i: int, j: int, kk: int|
            0 <= i < sites@.len() && 0 <= j < sites@.len() && 0 <= kk
                < sites@.len() implies #[trigger] spec_cross(sites@[i], sites@[j],
            sites@[kk]) == 0 by {
            lemma_collinear_triple(a, b, sites@[i], sites@[j], sites@[kk]);
        }
    }
    Err(DegenerateInputError::Collinear)
}

/// Index of the vertex after `i`, wrapping at the end.
pub open spec fn spec_next_idx(len: int, i: int) -> int {
    if i + 1 == len {
        0
    } else {
        i + 1
    }
}

/// One shoelace term of a polygon.
pub open spec fn spec_shoelace_term(poly: Seq<Pos>, i: int) -> int {
    let a = poly[i];
    let b = poly[spec_next_idx(poly.len() as int, i)];
    a.x * b.y - b.x * a.y
}

/// The shoelace sum over the first `k` edges.
pub open spec fn spec_shoelace_upto(poly: Seq<Pos>, k: int) -> int
    decreases k,
{
    if k <= 0 {
        0
    } else {
        spec_shoelace_upto(poly, k - 1) + spec_shoelace_term(poly, k - 1)
    }
}

/// Twice the signed area of a polygon, by the shoelace formula.
pub open spec fn spec_area_x2(poly: Seq<Pos>) -> int {
    spec_shoelace_upto(poly, poly.len() as int)
}

/// Every coordinate of a polygon within the checker's range.
pub open spec fn spec_poly_in_geom(poly: Seq<Pos>) -> bool {
    forall|i: int|
        0 <= i < poly.len() ==> -GEOM_LIMIT <= (#[trigger] poly[i]).x <= GEOM_LIMIT && -GEOM_LIMIT
            <= poly[i].y <= GEOM_LIMIT
}

/// Twice the signed area of a polygon, exactly.
pub fn polygon_area_x2(poly: &Vec<Pos>) -> (r: i128)
    requires
        poly@.len() <= CELL_LIMIT,
        spec_poly_in_geom(poly@),
    ensures
        r == spec_area_x2(poly@),
        -800_000_000_000_000_000_000_000i128 <= r <= 800_000_000_000_000_000_000_000i128,
{
    let n = poly.len();
    let mut acc: i128 = 0;
    let mut i: usize = 0;
    while i < n
        invariant
            0 <= i <= n,
            n == poly@.len(),
            n <= CELL_LIMIT,
            spec_poly_in_geom(poly@),
            acc == spec_shoelace_upto(poly@, i as int),
            -(i as int) * 8_000_000_000_000_000_000int <= acc <= (i as int)
                * 8_000_000_000_000_000_000int,
        decreases n - i,
    {
        let a = poly[i];
        let nx = if i + 1 == n {
            0
        } else {
            i + 1
        };
        let b = poly[nx];
        proof {
            assert(crate::fixed::spec_abs(a.x * b.y) <= 4_000_000_000_000_000_000int
                && crate::fixed::spec_abs(b.x * a.y) <= 4_000_000_000_000_000_000int)
                by (nonlinear_arith)
                requires
                    -2_000_000_000int <= a.x <= 2_000_000_000int,
                    -2_000_000_000int <= a.y <= 2_000_000_000int,
                    -2_000_000_000int <= b.x <= 2_000_000_000int,
                    -2_000_000_000int <= b.y <= 2_000_000_000int,
            ;
            assert(((i + 1) as int) * 8_000_000_000_000_000_000int == (i as int)
                * 8_000_000_000_000_000_000int + 8_000_000_000_000_000_000int)
                by (nonlinear_arith);
            assert((n as int) * 8_000_000_000_000_000_000int
                <= 800_000_000_000_000_000_000_000int) by (nonlinear_arith)
                requires
                    n as int <= 100_000int,
            ;
        }
        let term: i128 = (a.x as i128) * (b.y as i128) - (b.x as i128) * (a.y as i128);
        acc = acc + term;
        i = i + 1;
    }
    proof {
        assert((n as int) * 8_000_000_000_000_000_000int <= 800_000_000_000_000_000_000_000int)
            by (nonlinear_arith)
            requires
                n as int <= 100_000int,
        ;
    }
    acc
}

/// Strict interior of a convex polygon: all edge cross products carry one
/// strict sign.
pub open spec fn spec_strictly_inside(p: Pos, poly: Seq<Pos>) -> bool {
    let len = poly.len() as int;
    &&& poly.len() >= 3
    &&& ((forall|i: int|
        0 <= i < len ==> spec_cross(poly[i], poly[#[trigger] spec_next_idx(len, i)], p) > 0) || (
    forall|i: int|
        0 <= i < len ==> spec_cross(poly[i], poly[#[trigger] spec_next_idx(len, i)], p) < 0))
}

/// Decide strict containment of a point in a convex polygon.
pub fn strictly_inside(p: Pos, poly: &Vec<Pos>) -> (r: bool)
    requires
        spec_in_range(p),
        spec_poly_in_geom(poly@),
    ensures
        r == spec_strictly_inside(p, poly@),
{
    let n = poly.len();
    if n < 3 {
        return false;
    }
    let mut all_pos = true;
    let mut all_neg = true;
    let mut i: usize = 0;
    while i < n
        invariant
            0 <= i <= n,
            n == poly@.len(),
            n >= 3,
            spec_in_range(p),
            spec_poly_in_geom(poly@),
            all_pos == (forall|j: int|
                0 <= j < i ==> spec_cross(poly@[j], poly@[#[trigger] spec_next_idx(n as int, j)],
                    p) > 0),
            all_neg == (forall|j: int|
                0 <= j < i ==> spec_cross(poly@[j], poly@[#[trigger] spec_next_idx(n as int, j)],
                    p) < 0),
        decreases n - i,
    {
        let a = poly[i];
        let nx = if i + 1 == n {
            0
        } else {
            i + 1
        };
        let b = poly[nx];
        let c = cross_of(a, b, p);
        proof {
            assert(nx as int == spec_next_idx(n as int, i as int));
            assert(c == spec_cross(poly@[i as int], poly@[spec_next_idx(n as int, i as int)], p));
        }
        if c <= 0 {
            all_pos = false;
        }
        if c >= 0 {
            all_neg = false;
        }
        i = i + 1;
    }
    all_pos || all_neg
}

/// A tessellation of the box: one cell per site in input order, the cell
/// areas summing to the box area within the tolerance, and each site
/// strictly inside its own cell.
pub open spec fn spec_partition_ok(
    sites: Seq<Pos>,
    cells: Seq<Seq<Pos>>,
    win: BoundingBox,
    tol: int,
) -> bool {
    &&& cells.len() == sites.len()
    &&& {
        let total = spec_area_sum(cells, cells.len() as int);
        -tol <= total - win.spec_area_x2() <= tol
    }
    &&& forall|i: int| 0 <= i < sites.len() ==> spec_strictly_inside(sites[i], #[trigger] cells[i])
}

/// Sum of unsigned cell areas over the first `k` cells.
pub open spec fn spec_area_sum(cells: Seq<Seq<Pos>>, k: int) -> int
    decreases k,
{
    if k <= 0 {
        0
    } else {
        spec_area_sum(cells, k - 1) + crate::fixed::spec_abs(spec_area_x2(cells[k - 1]))
    }
}

/// Check a finished tessellation against its sites and box: counts match,
/// unsigned cell areas sum to the box area within `tol`, and every site
/// lies strictly inside its own cell.
pub fn check_partition(sites: &Vec<Pos>, cells: &Vec<Vec<Pos>>, win: &BoundingBox, tol: i128) -> (r:
    bool)
    requires
        win.wf(),
        sites@.len() <= SITE_LIMIT,
        forall|i: int| 0 <= i < sites@.len() ==> spec_in_range(#[trigger] sites@[i]),
        cells@.len() <= SITE_LIMIT,
        forall|i: int| 0 <= i < cells@.len() ==> (#[trigger] cells@[i])@.len() <= CELL_LIMIT,
        forall|i: int| 0 <= i < cells@.len() ==> spec_poly_in_geom((#[trigger] cells@[i])@),
        0 <= tol,
    ensures
        r == spec_partition_ok(sites@, Seq::new(cells@.len(), |i: int| cells@[i]@), *win,
            tol as int),
{
    let ghost cellviews = Seq::new(cells@.len(), |i: int| cells@[i]@);
    let n = cells.len();
    if sites.len() != n {
        return false;
    }
    let mut total: i128 = 0;
    let mut i: usize = 0;
    let mut inside_ok = true;
    while i < n
        invariant
            0 <= i <= n,
            n == cells@.len(),
            n == sites@.len(),
            n <= SITE_LIMIT,
            cellviews == Seq::new(cells@.len(), |j: int| cells@[j]@),
            forall|j: int| 0 <= j < sites@.len() ==> spec_in_range(#[trigger] sites@[j]),
            forall|j: int| 0 <= j < cells@.len() ==> (#[trigger] cells@[j])@.len() <= CELL_LIMIT,
            forall|j: int| 0 <= j < cells@.len() ==> spec_poly_in_geom((#[trigger] cells@[j])@),
            total == spec_area_sum(cellviews, i as int),
            0 <= total <= (i as int) * 800_000_000_000_000_000_000_000int,
            inside_ok == (forall|j: int|
                0 <= j < i ==> spec_strictly_inside(sites@[j], #[trigger] cellviews[j])),
        decreases n - i,
    {
        let area = polygon_area_x2(&cells[i]);
        let mag: i128 = if area < 0 {
            -area
        } else {
            area
        };
        proof {
            assert(((i + 1) as int) * 800_000_000_000_000_000_000_000int == (i as int)
                * 800_000_000_000_000_000_000_000int + 800_000_000_000_000_000_000_000int)
                by (nonlinear_arith);
            assert((n as int) * 800_000_000_000_000_000_000_000int
                <= 800_000_000_000_000_000_000_000_000_000int) by (nonlinear_arith)
                requires
                    n as int <= 1_000_000int,
            ;
        }
        total = total + mag;
        proof {
            assert(cellviews[i as int] == cells@[i as int]@);
        }
        if !strictly_inside(sites[i], &cells[i]) {
            inside_ok = false;
        }
        i = i + 1;
    }
    if !inside_ok {
        return false;
    }
    proof {
        assert(2 * (win.width as int) * (win.height as int) <= 2_000_000_000_000_000_000int && 2
            * (win.width as int) * (win.height as int) >= 0) by (nonlinear_arith)
            requires
                1 <= win.width as int <= 1_000_000_000int,
                1 <= win.height as int <= 1_000_000_000int,
        ;
    }
    let wh: i128 = 2 * (win.width as i128) * (win.height as i128);
    let diff: i128 = total - wh;
    -tol <= diff && diff <= tol
}

} // verus!
