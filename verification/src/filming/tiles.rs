//! The split of a film's crop window into tiles, the units that a render is
//! spread over: the tiles partition the window.

use vstd::prelude::*;
use vstd::arithmetic::div_mod::{
    lemma_div_pos_is_pos, lemma_fundamental_div_mod, lemma_mod_pos_bound,
};
use crate::geometry::bbox::BBox2;
use crate::geometry::model::Box2;
use crate::geometry::point::Point2;

verus! {

/// The length of tile `i` out of `n` along an axis of extent `e`: the
/// common length `e / n`, and for the last tile that length plus the
/// remainder `e % n`.
pub open spec fn tile_len(e: int, n: int, i: int) -> int {
    if i == n - 1 {
        e / n + e % n
    } else {
        e / n
    }
}

/// Tile `(i, j)` of an `nx` by `ny` split of the crop window `w`: tile
/// `(i, j)` spans `[lo.0 + i * dx, lo.0 + i * dx + tile_len)` by
/// `[lo.1 + j * dy, lo.1 + j * dy + tile_len)`, with `dx`, `dy` the common
/// lengths.
pub open spec fn tile_box(w: Box2, nx: int, ny: int, i: int, j: int) -> Box2 {
    let e = w.diagonal();
    let dx = e.0 / nx;
    let dy = e.1 / ny;
    Box2 {
        lo: (w.lo.0 + i * dx, w.lo.1 + j * dy),
        hi: (w.lo.0 + i * dx + tile_len(e.0, nx, i), w.lo.1 + j * dy + tile_len(e.1, ny, j)),
    }
}

/// Whether box `a` lies within box `b`.
pub open spec fn box_within(a: Box2, b: Box2) -> bool {
    &&& b.lo.0 <= a.lo.0 && a.hi.0 <= b.hi.0
    &&& b.lo.1 <= a.lo.1 && a.hi.1 <= b.hi.1
}

/// The split is possible: at least one tile each way, and no more tiles
/// along an axis than pixels (so that no tile is empty).
pub open spec fn tiling_ok(e: (int, int), nx: int, ny: int) -> bool {
    &&& 0 < nx <= e.0
    &&& 0 < ny <= e.1
    &&& nx * ny <= usize::MAX
}

/// Facts on one axis: the common length is positive, each tile starts where
/// the one before ends, and the last one ends at the extent.
proof fn lemma_axis(e: int, n: int, i: int)
    requires
        0 < n <= e,
        0 <= i < n,
    ensures
        e / n > 0,
        0 <= e % n < n,
        0 <= i * (e / n),
        tile_len(e, n, i) > 0,
        i * (e / n) + tile_len(e, n, i) <= e,
        i < n - 1 ==> (i + 1) * (e / n) == i * (e / n) + tile_len(e, n, i),
        i == n - 1 ==> i * (e / n) + tile_len(e, n, i) == e,
{
    let d = e / n;
    lemma_fundamental_div_mod(e, n);
    lemma_mod_pos_bound(e, n);
    assert(d > 0) by (nonlinear_arith)
        requires
            e == n * d + e % n,
            0 <= e % n < n,
            n <= e,
    ;
    assert(0 <= i * d && (i + 1) * d == i * d + d) by (nonlinear_arith)
        requires
            0 <= i,
            0 < d,
    ;
    assert((n - 1) * d + d == n * d) by (nonlinear_arith);
    if i < n - 1 {
        assert((i + 1) * d <= (n - 1) * d) by (nonlinear_arith)
            requires
                i + 1 <= n - 1,
                0 < d,
        ;
    }
}

/// On one axis, a position in `[0, e)` lies in tile `min(x / d, n - 1)`
/// and in no other.
proof fn lemma_axis_cover(e: int, n: int, x: int, k: int)
    requires
        0 < n <= e,
        0 <= x < e,
        0 <= k < n,
    ensures
        ({
            let d = e / n;
            let i = if x / d < n - 1 { x / d } else { n - 1 };
            &&& 0 <= i < n
            &&& i * d <= x < i * d + tile_len(e, n, i)
            &&& (k * d <= x < k * d + tile_len(e, n, k) ==> k == i)
        }),
{
    let d = e / n;
    lemma_axis(e, n, k);
    lemma_axis(e, n, n - 1);
    lemma_fundamental_div_mod(x, d);
    lemma_mod_pos_bound(x, d);
    lemma_div_pos_is_pos(x, d);
    let q = x / d;
    let i = if q < n - 1 { q } else { n - 1 };
    if q < n - 1 {
        lemma_axis(e, n, q);
        assert(q * d <= x < q * d + d) by (nonlinear_arith)
            requires
                x == d * q + x % d,
                0 <= x % d < d,
        ;
    } else {
        assert((n - 1) * d <= x) by (nonlinear_arith)
            requires
                x == d * q + x % d,
                0 <= x % d,
                q >= n - 1,
                d > 0,
        ;
    }
    lemma_axis(e, n, i);
    if k * d <= x < k * d + tile_len(e, n, k) {
        if k < i {
            assert((k + 1) * d <= i * d) by (nonlinear_arith)
                requires
                    k + 1 <= i,
                    d > 0,
            ;
        } else if k > i {
            assert((i + 1) * d <= k * d) by (nonlinear_arith)
                requires
                    i + 1 <= k,
                    d > 0,
            ;
        }
    }
}

/// The tiles partition the crop window: each integer point of the window
/// (greater boundaries excluded) lies in exactly one tile, namely tile
/// `(min(x / dx, nx - 1), min(y / dy, ny - 1))` of its offsets `(x, y)` from
/// the window's lower corner; and each tile is non-empty and lies within
/// the window.
pub proof fn lemma_tiles_partition(w: Box2, nx: int, ny: int, p: (int, int), i: int, j: int)
    requires
        w.is_ordered(),
        0 < nx <= w.diagonal().0,
        0 < ny <= w.diagonal().1,
        0 <= i < nx,
        0 <= j < ny,
    ensures
        ({
            let e = w.diagonal();
            let (x, y) = (p.0 - w.lo.0, p.1 - w.lo.1);
            let ci = if x / (e.0 / nx) < nx - 1 { x / (e.0 / nx) } else { nx - 1 };
            let cj = if y / (e.1 / ny) < ny - 1 { y / (e.1 / ny) } else { ny - 1 };
            &&& w.contains_lb(p) ==> 0 <= ci < nx && 0 <= cj < ny && tile_box(w, nx, ny, ci, cj).contains_lb(p)
            &&& w.contains_lb(p) && tile_box(w, nx, ny, i, j).contains_lb(p) ==> i == ci && j == cj
            &&& box_within(tile_box(w, nx, ny, i, j), w)
            &&& tile_box(w, nx, ny, i, j).lo.0 < tile_box(w, nx, ny, i, j).hi.0
            &&& tile_box(w, nx, ny, i, j).lo.1 < tile_box(w, nx, ny, i, j).hi.1
        }),
{
    let e = w.diagonal();
    lemma_axis(e.0, nx, i);
    lemma_axis(e.1, ny, j);
    if w.contains_lb(p) {
        lemma_axis_cover(e.0, nx, p.0 - w.lo.0, i);
        lemma_axis_cover(e.1, ny, p.1 - w.lo.1, j);
    }
}

/// The bounds of the tiles that a crop window is split into, `nx` by `ny`:
/// tile `(i, j)` at position `i * ny + j`, as `tile_box` gives it. The tiles
/// partition the window: every pixel of the window lies in exactly one tile,
/// and every tile is non-empty and lies within the window.
pub fn spawn_tile_bounds(crop_window: &BBox2<usize>, nx: usize, ny: usize) -> (r: Vec<BBox2<usize>>)
    requires
        crop_window@.is_ordered(),
        tiling_ok(crop_window@.diagonal(), nx as int, ny as int),
    ensures
        r.len() == nx * ny,
        forall|i: int, j: int|
            0 <= i < nx && 0 <= j < ny ==> #[trigger] r@[i * ny + j]@ == tile_box(
                crop_window@,
                nx as int,
                ny as int,
                i,
                j,
            ),
        forall|i: int, j: int|
            0 <= i < nx && 0 <= j < ny ==> {
                &&& box_within(#[trigger] r@[i * ny + j]@, crop_window@)
                &&& r@[i * ny + j]@.lo.0 < r@[i * ny + j]@.hi.0
                &&& r@[i * ny + j]@.lo.1 < r@[i * ny + j]@.hi.1
            },
        forall|p: (int, int)|
            #![trigger crop_window@.contains_lb(p)]
            crop_window@.contains_lb(p) ==> exists|i: int, j: int|
                0 <= i < nx && 0 <= j < ny && #[trigger] r@[i * ny + j]@.contains_lb(p),
        forall|p: (int, int), i1: int, j1: int, i2: int, j2: int|
            0 <= i1 < nx && 0 <= j1 < ny && 0 <= i2 < nx && 0 <= j2 < ny
                && #[trigger] r@[i1 * ny + j1]@.contains_lb(p) && #[trigger] r@[i2 * ny
                + j2]@.contains_lb(p) ==> i1 == i2 && j1 == j2,
{
    let ghost w = crop_window@;
    let ghost ext = crop_window@.diagonal();
    let extend = crop_window.diagonal();
    let dx = extend.x / nx;
    let dy = extend.y / ny;
    proof {
        lemma_axis(ext.0, nx as int, nx - 1);
        lemma_axis(ext.1, ny as int, ny - 1);
    }
    let lastx = dx + extend.x % nx;
    let lasty = dy + extend.y % ny;
    let x0 = crop_window.pmin.x;
    let y0 = crop_window.pmin.y;
    let mut ret: Vec<BBox2<usize>> = Vec::new();
    let mut ix: usize = 0;
    while ix < nx
        invariant
            tiling_ok(ext, nx as int, ny as int),
            w.is_ordered(),
            ext == w.diagonal(),
            x0 == w.lo.0,
            y0 == w.lo.1,
            w.hi.0 <= usize::MAX,
            w.hi.1 <= usize::MAX,
            dx == ext.0 / nx as int,
            dy == ext.1 / ny as int,
            lastx == tile_len(ext.0, nx as int, nx - 1),
            lasty == tile_len(ext.1, ny as int, ny - 1),
            ix <= nx,
            ret.len() == ix * ny,
            forall|i: int, j: int|
                0 <= i < ix && 0 <= j < ny ==> #[trigger] ret@[i * ny + j]@ == tile_box(
                    w,
                    nx as int,
                    ny as int,
                    i,
                    j,
                ),
        decreases nx - ix,
    {
        proof {
            lemma_axis(ext.0, nx as int, ix as int);
        }
        let cdx = if ix == nx - 1 {
            lastx
        } else {
            dx
        };
        let mut iy: usize = 0;
        while iy < ny
            invariant
                tiling_ok(ext, nx as int, ny as int),
                ext == w.diagonal(),
                x0 == w.lo.0,
                y0 == w.lo.1,
                w.hi.0 <= usize::MAX,
                w.hi.1 <= usize::MAX,
                dx == ext.0 / nx as int,
                dy == ext.1 / ny as int,
                lasty == tile_len(ext.1, ny as int, ny - 1),
                cdx == tile_len(ext.0, nx as int, ix as int),
                ix < nx,
                ix as int * dx + cdx <= ext.0,
                0 <= ix as int * dx,
                iy <= ny,
                ret.len() == ix * ny + iy,
                forall|i: int, j: int|
                    (0 <= i < ix && 0 <= j < ny) || (i == ix && 0 <= j < iy) ==> #[trigger] ret@[i
                        * ny + j]@ == tile_box(w, nx as int, ny as int, i, j),
            decreases ny - iy,
        {
            proof {
                lemma_axis(ext.1, ny as int, iy as int);
            }
            let cdy = if iy == ny - 1 {
                lasty
            } else {
                dy
            };
            let bx = x0 + ix * dx;
            let by = y0 + iy * dy;
            let bbox = BBox2::new(Point2::new(bx, by), Point2::new(bx + cdx, by + cdy));
            let ghost old_ret = ret@;
            ret.push(bbox);
            proof {
                assert forall|i: int, j: int|
                    (0 <= i < ix && 0 <= j < ny) || (i == ix && 0 <= j < iy + 1) implies #[trigger] ret@[i
                        * ny + j]@ == tile_box(w, nx as int, ny as int, i, j) by {
                    if i == ix && j == iy {
                    } else {
                        assert(i * ny + j < ix * ny + iy) by (nonlinear_arith)
                            requires
                                (0 <= i < ix && 0 <= j < ny) || (i == ix && 0 <= j < iy),
                        ;
                        assert(0 <= i * ny + j) by (nonlinear_arith)
                            requires
                                0 <= i,
                                0 <= j,
                                0 < ny,
                        ;
                        assert(ret@[i * ny + j] == old_ret[i * ny + j]);
                    }
                }
            }
            iy = iy + 1;
        }
        assert((ix + 1) * ny == ix * ny + ny) by (nonlinear_arith);
        ix = ix + 1;
    }
    proof {
        assert forall|i: int, j: int| 0 <= i < nx && 0 <= j < ny implies {
            &&& box_within(#[trigger] ret@[i * ny + j]@, w)
            &&& ret@[i * ny + j]@.lo.0 < ret@[i * ny + j]@.hi.0
            &&& ret@[i * ny + j]@.lo.1 < ret@[i * ny + j]@.hi.1
        } by {
            lemma_tiles_partition(w, nx as int, ny as int, w.lo, i, j);
        }
        assert forall|p: (int, int)| #![trigger w.contains_lb(p)] w.contains_lb(p) implies exists|i: int, j: int|
            0 <= i < nx && 0 <= j < ny && #[trigger] ret@[i * ny + j]@.contains_lb(p) by {
            lemma_tiles_partition(w, nx as int, ny as int, p, 0, 0);
            let e = w.diagonal();
            let (x, y) = (p.0 - w.lo.0, p.1 - w.lo.1);
            let ci = if x / (e.0 / nx as int) < nx - 1 { x / (e.0 / nx as int) } else { nx - 1 };
            let cj = if y / (e.1 / ny as int) < ny - 1 { y / (e.1 / ny as int) } else { ny - 1 };
            assert(ret@[ci * ny + cj]@.contains_lb(p));
        }
        assert forall|p: (int, int), i1: int, j1: int, i2: int, j2: int|
            0 <= i1 < nx && 0 <= j1 < ny && 0 <= i2 < nx && 0 <= j2 < ny
                && #[trigger] ret@[i1 * ny + j1]@.contains_lb(p) && #[trigger] ret@[i2 * ny
                + j2]@.contains_lb(p) implies i1 == i2 && j1 == j2 by {
            lemma_tiles_partition(w, nx as int, ny as int, p, i1, j1);
            lemma_tiles_partition(w, nx as int, ny as int, p, i2, j2);
        }
    }
    ret
}

} // verus!
