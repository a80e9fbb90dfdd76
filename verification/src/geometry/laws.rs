//! Properties of boxes and of the row-major scan that hold for all inputs.

use vstd::prelude::*;
use vstd::arithmetic::div_mod::{
    lemma_fundamental_div_mod, lemma_fundamental_div_mod_converse, lemma_mod_pos_bound,
};
use super::model::{axis2, axis3, Box2, Box3, RowScan};

verus! {

/// One step along the row-major order of a `w` by `h` grid, from position
/// `k - 1` to position `k`: the column grows by one within a row, or wraps
/// to zero with the row growing by one; positions before `w * h` stay in
/// the grid, and position `w * h - 1` is the end of the last row.
proof fn lemma_row_major_step(k: int, w: int, h: int)
    requires
        0 < w,
        0 < h,
        1 <= k <= w * h,
    ensures
        0 <= (k - 1) % w < w,
        0 <= (k - 1) / w < h,
        (k - 1) % w + 1 < w ==> k % w == (k - 1) % w + 1 && k / w == (k - 1) / w,
        (k - 1) % w + 1 == w ==> k % w == 0 && k / w == (k - 1) / w + 1,
        k < w * h ==> 0 <= k / w < h,
        k == w * h ==> (k - 1) % w + 1 == w && (k - 1) / w == h - 1,
{
    let q = (k - 1) / w;
    let r = (k - 1) % w;
    lemma_fundamental_div_mod(k - 1, w);
    lemma_mod_pos_bound(k - 1, w);
    assert(0 <= q < h) by (nonlinear_arith)
        requires
            k - 1 == w * q + r,
            0 <= r < w,
            0 <= k - 1 < w * h,
    ;
    if r + 1 < w {
        assert(k == q * w + (r + 1)) by (nonlinear_arith)
            requires
                k - 1 == w * q + r,
        ;
        lemma_fundamental_div_mod_converse(k, w, q, r + 1);
        if k == w * h {
            assert(k == h * w + 0) by (nonlinear_arith)
                requires
                    k == w * h,
            ;
            lemma_fundamental_div_mod_converse(k, w, h, 0);
        }
    } else {
        assert(k == (q + 1) * w + 0) by (nonlinear_arith)
            requires
                k - 1 == w * q + r,
                r + 1 == w,
        ;
        lemma_fundamental_div_mod_converse(k, w, q + 1, 0);
        if k < w * h {
            assert(q + 1 < h) by (nonlinear_arith)
                requires
                    k == (q + 1) * w,
                    k < w * h,
                    0 < w,
            ;
        } else {
            assert(q == h - 1) by (nonlinear_arith)
                requires
                    k == (q + 1) * w,
                    k == w * h,
                    0 < w,
            ;
        }
    }
}

/// After `k` steps, for `1 <= k <= w * h`, the scan of a non-empty box stands
/// just past point `k - 1` of the row-major order.
proof fn lemma_scan_after(b: Box2, k: nat)
    requires
        b.lo.0 < b.hi.0,
        b.lo.1 < b.hi.1,
        1 <= k <= (b.hi.0 - b.lo.0) * (b.hi.1 - b.lo.1),
    ensures
        ({
            let w = b.hi.0 - b.lo.0;
            RowScan::over(b).after(k) == RowScan {
                x: b.lo.0 + (k - 1) % w + 1,
                y: b.lo.1 + (k - 1) / w,
                ..RowScan::over(b)
            }
        }),
    decreases k,
{
    let w = b.hi.0 - b.lo.0;
    let h = b.hi.1 - b.lo.1;
    if k == 1 {
        lemma_fundamental_div_mod_converse(0, w, 0, 0);
        assert(RowScan::over(b).after(1) == RowScan::over(b).after(0).step().1);
    } else {
        let j = (k - 1) as nat;
        lemma_scan_after(b, j);
        assert(RowScan::over(b).after(k) == RowScan::over(b).after(j).step().1);
        lemma_row_major_step(j as int, w, h);
    }
}

/// Scanning a box (as `BBox2<isize>::into_iter` and `BBox2iIter::next` do)
/// visits the integer points of `[lo, hi)` exactly once each, row by row:
/// step `k` yields `(lo.0 + k % w, lo.1 + k / w)` while `k < w * h`, where
/// `w` and `h` are the width and height, and every later step yields nothing.
/// A box with no such point yields nothing at all.
pub proof fn lemma_scan_row_major(b: Box2, k: nat)
    ensures
        ({
            let w = b.hi.0 - b.lo.0;
            let h = b.hi.1 - b.lo.1;
            let n = if w > 0 && h > 0 { w * h } else { 0 };
            &&& k < n ==> RowScan::over(b).nth(k) == Some((b.lo.0 + (k as int) % w, b.lo.1 + (k as int) / w))
            &&& k >= n ==> RowScan::over(b).nth(k) is None
        }),
    decreases k,
{
    let w = b.hi.0 - b.lo.0;
    let h = b.hi.1 - b.lo.1;
    let s = RowScan::over(b);
    if w > 0 && h > 0 {
        let n = w * h;
        assert(n >= 1) by (nonlinear_arith)
            requires
                w > 0,
                h > 0,
                n == w * h,
        ;
        if k == 0 {
            lemma_fundamental_div_mod_converse(0, w, 0, 0);
        } else if k <= n {
            lemma_scan_after(b, k);
            lemma_row_major_step(k as int, w, h);
        } else {
            lemma_scan_past_end(b, k);
        }
    } else {
        lemma_scan_empty(b, k);
    }
}

/// Once a non-empty box is exhausted the scan stays past its last row.
proof fn lemma_scan_past_end(b: Box2, k: nat)
    requires
        b.lo.0 < b.hi.0,
        b.lo.1 < b.hi.1,
        k > (b.hi.0 - b.lo.0) * (b.hi.1 - b.lo.1),
    ensures
        RowScan::over(b).after(k) == (RowScan { x: b.lo.0, y: b.hi.1, ..RowScan::over(b) }),
    decreases k,
{
    let w = b.hi.0 - b.lo.0;
    let h = b.hi.1 - b.lo.1;
    let n = w * h;
    let j = (k - 1) as nat;
    if j == n {
        assert(n >= 1) by (nonlinear_arith)
            requires
                w > 0,
                h > 0,
                n == w * h,
        ;
        lemma_scan_after(b, j);
        lemma_row_major_step(j as int, w, h);
    } else {
        lemma_scan_past_end(b, j);
    }
}

/// A box with no integer point in `[lo, hi)` yields nothing.
proof fn lemma_scan_empty(b: Box2, k: nat)
    requires
        !(b.lo.0 < b.hi.0 && b.lo.1 < b.hi.1),
    ensures
        RowScan::over(b).after(k).y >= b.hi.1 || (RowScan::over(b).after(k) == RowScan::over(b)),
        (RowScan::over(b).nth(k) is None),
    decreases k,
{
    if k > 0 {
        lemma_scan_empty(b, (k - 1) as nat);
    }
}

/// The box spanned by two points is ordered, holds both points, and is the
/// least such box: a box holding both points holds its corners.
pub proof fn lemma_box2_spanning(p: (int, int), q: (int, int), c: Box2)
    ensures
        Box2::spanning(p, q).is_ordered(),
        Box2::spanning(p, q).contains(p),
        Box2::spanning(p, q).contains(q),
        Box2::spanning(p, q) == Box2::spanning(q, p),
        c.contains(p) && c.contains(q) ==> c.contains(Box2::spanning(p, q).lo) && c.contains(
            Box2::spanning(p, q).hi,
        ),
{
}

/// Extending a box by `p` gives a box that holds `p` and every point the box
/// held, and no more than needed: a box holding `p` and the corners holds the
/// extended corners.
pub proof fn lemma_box2_extend(b: Box2, p: (int, int), s: (int, int), c: Box2)
    ensures
        b.extend(p).contains(p),
        b.contains(s) ==> b.extend(p).contains(s),
        c.contains(p) && c.contains(b.lo) && c.contains(b.hi) ==> c.contains(b.extend(p).lo)
            && c.contains(b.extend(p).hi),
{
}

/// The union holds every point of either box, and is the least box that
/// holds both ordered boxes.
pub proof fn lemma_box2_union(a: Box2, b: Box2, p: (int, int), c: Box2)
    ensures
        a.contains(p) || b.contains(p) ==> a.union(b).contains(p),
        a.union(b) == b.union(a),
        a.is_ordered() && b.is_ordered() && c.contains(a.lo) && c.contains(a.hi) && c.contains(b.lo)
            && c.contains(b.hi) ==> c.contains(a.union(b).lo) && c.contains(a.union(b).hi),
{
}

/// A point lies in the common part of two boxes exactly when it lies in both;
/// the common part is empty exactly when no point lies in both.
pub proof fn lemma_box2_meet(a: Box2, b: Box2, p: (int, int))
    ensures
        a.meet(b).contains(p) <==> a.contains(p) && b.contains(p),
        a.meet(b).is_ordered() <==> a.meet(b).contains(a.meet(b).lo),
        !a.meet(b).is_ordered() ==> !(a.contains(p) && b.contains(p)),
        a.meet(b) == b.meet(a),
{
}

/// For ordered boxes, `overlap` holds exactly when `intersect` finds a common part.
pub proof fn lemma_box2_overlap_meet(a: Box2, b: Box2)
    requires
        a.is_ordered(),
        b.is_ordered(),
    ensures
        a.overlaps(b) <==> a.meet(b).is_ordered(),
        a.overlaps(b) <==> b.overlaps(a),
{
}

/// Holding a point with the greater boundaries excluded is holding it while
/// lying on neither greater boundary: the least corner of a box with positive
/// extents is held, the greatest corner never is.
pub proof fn lemma_box2_contains_lb(b: Box2, p: (int, int))
    ensures
        b.contains_lb(p) ==> b.contains(p),
        b.contains_lb(p) <==> (b.contains(p) && p.0 != b.hi.0 && p.1 != b.hi.1),
        b.lo.0 < b.hi.0 && b.lo.1 < b.hi.1 ==> b.contains_lb(b.lo),
        !b.contains_lb(b.hi),
{
}

/// Expanding by `d` and then by `-d` gives back the box.
pub proof fn lemma_box2_expand_inverse(b: Box2, d: int)
    ensures
        b.expanded(d).expanded(-d) == b,
{
}

/// Expanding by `d` moves every boundary out by `d`: each extent grows by
/// `2 * d`, the centre stays where it was, and for `d >= 0` every point of
/// the box stays in it.
pub proof fn lemma_box2_expand(b: Box2, d: int, p: (int, int))
    ensures
        b.expanded(d).diagonal() == (b.diagonal().0 + 2 * d, b.diagonal().1 + 2 * d),
        b.expanded(d).lo.0 + b.expanded(d).hi.0 == b.lo.0 + b.hi.0,
        b.expanded(d).lo.1 + b.expanded(d).hi.1 == b.lo.1 + b.hi.1,
        d >= 0 && b.contains(p) ==> b.expanded(d).contains(p),
{
}

/// The axis of greatest extent: no axis is longer, and a later axis is
/// strictly shorter, so that a tie goes to the later axis.
pub proof fn lemma_box2_max_extent(b: Box2, a: int)
    requires
        0 <= a < 2,
    ensures
        0 <= b.max_extent() < 2,
        axis2(b.diagonal(), a) <= axis2(b.diagonal(), b.max_extent()),
        a > b.max_extent() ==> axis2(b.diagonal(), a) < axis2(b.diagonal(), b.max_extent()),
{
}

/// The corners: corner 0 is `lo`, corner 3 is `hi`, and all four lie in an ordered box.
pub proof fn lemma_box2_corners(b: Box2, i: int)
    requires
        0 <= i < 4,
    ensures
        b.corner(0) == b.lo,
        b.corner(3) == b.hi,
        b.is_ordered() ==> b.contains(b.corner(i)),
{
}

/// Neighbouring corners: for a clear bit of `i`, setting it moves the
/// corner along that bit's axis alone, from the least bound to the greatest
/// (bit 0 is x, bit 1 is y).
pub proof fn lemma_box2_corner_steps(b: Box2, i: int)
    requires
        0 <= i < 4,
    ensures
        i % 2 == 0 ==> b.corner(i).0 == b.lo.0 && b.corner(i + 1) == (b.hi.0, b.corner(i).1),
        i < 2 ==> b.corner(i).1 == b.lo.1 && b.corner(i + 2) == (b.corner(i).0, b.hi.1),
{
    assert(i == 0 || i == 1 || i == 2 || i == 3);
}

/// The area of an ordered box is the product of its extents and is never negative.
pub proof fn lemma_box2_area(b: Box2)
    ensures
        b.area() >= 0,
        b.is_ordered() ==> b.area() == (b.hi.0 - b.lo.0) * (b.hi.1 - b.lo.1),
{
    let d = b.diagonal();
    if d.0 >= 0 && d.1 >= 0 {
        assert(d.0 * d.1 >= 0) by (nonlinear_arith)
            requires
                d.0 >= 0,
                d.1 >= 0,
        ;
    }
}

/// The box spanned by two points is ordered, holds both points, and is the
/// least such box: a box holding both points holds its corners.
pub proof fn lemma_box3_spanning(p: (int, int, int), q: (int, int, int), c: Box3)
    ensures
        Box3::spanning(p, q).is_ordered(),
        Box3::spanning(p, q).contains(p),
        Box3::spanning(p, q).contains(q),
        Box3::spanning(p, q) == Box3::spanning(q, p),
        c.contains(p) && c.contains(q) ==> c.contains(Box3::spanning(p, q).lo) && c.contains(
            Box3::spanning(p, q).hi,
        ),
{
}

/// Extending a box by `p` gives a box that holds `p` and every point the box
/// held, and no more than needed: a box holding `p` and the corners holds the
/// extended corners.
pub proof fn lemma_box3_extend(b: Box3, p: (int, int, int), s: (int, int, int), c: Box3)
    ensures
        b.extend(p).contains(p),
        b.contains(s) ==> b.extend(p).contains(s),
        c.contains(p) && c.contains(b.lo) && c.contains(b.hi) ==> c.contains(b.extend(p).lo)
            && c.contains(b.extend(p).hi),
{
}

/// The union holds every point of either box, and is the least box that
/// holds both: any box holding the corners of both holds its corners.
pub proof fn lemma_box3_union(a: Box3, b: Box3, p: (int, int, int), c: Box3)
    ensures
        a.contains(p) || b.contains(p) ==> a.union(b).contains(p),
        a.union(b) == b.union(a),
        c.contains(a.lo) && c.contains(a.hi) && c.contains(b.lo) && c.contains(b.hi) ==> c.contains(
            a.union(b).lo,
        ) && c.contains(a.union(b).hi),
{
}

/// A point lies in the common part of two boxes exactly when it lies in both;
/// the common part is empty exactly when no point lies in both.
pub proof fn lemma_box3_meet(a: Box3, b: Box3, p: (int, int, int))
    ensures
        a.meet(b).contains(p) <==> a.contains(p) && b.contains(p),
        a.meet(b).is_ordered() <==> a.meet(b).contains(a.meet(b).lo),
        !a.meet(b).is_ordered() ==> !(a.contains(p) && b.contains(p)),
        a.meet(b) == b.meet(a),
{
}

/// For ordered boxes, `overlap` holds exactly when `intersect` finds a common part.
pub proof fn lemma_box3_overlap_meet(a: Box3, b: Box3)
    requires
        a.is_ordered(),
        b.is_ordered(),
    ensures
        a.overlaps(b) <==> a.meet(b).is_ordered(),
        a.overlaps(b) <==> b.overlaps(a),
{
}

/// Holding a point with the greater boundaries excluded is holding it while
/// lying on no greater boundary: the least corner of a box with positive
/// extents is held, the greatest corner never is.
pub proof fn lemma_box3_contains_lb(b: Box3, p: (int, int, int))
    ensures
        b.contains_lb(p) ==> b.contains(p),
        b.contains_lb(p) <==> (b.contains(p) && p.0 != b.hi.0 && p.1 != b.hi.1 && p.2 != b.hi.2),
        b.lo.0 < b.hi.0 && b.lo.1 < b.hi.1 && b.lo.2 < b.hi.2 ==> b.contains_lb(b.lo),
        !b.contains_lb(b.hi),
{
}

/// Expanding by `d` and then by `-d` gives back the box.
pub proof fn lemma_box3_expand_inverse(b: Box3, d: int)
    ensures
        b.expanded(d).expanded(-d) == b,
{
}

/// Expanding by `d` moves every boundary out by `d`: each extent grows by
/// `2 * d`, the centre stays where it was, and for `d >= 0` every point of
/// the box stays in it.
pub proof fn lemma_box3_expand(b: Box3, d: int, p: (int, int, int))
    ensures
        b.expanded(d).diagonal() == (
            b.diagonal().0 + 2 * d,
            b.diagonal().1 + 2 * d,
            b.diagonal().2 + 2 * d,
        ),
        b.expanded(d).lo.0 + b.expanded(d).hi.0 == b.lo.0 + b.hi.0,
        b.expanded(d).lo.1 + b.expanded(d).hi.1 == b.lo.1 + b.hi.1,
        b.expanded(d).lo.2 + b.expanded(d).hi.2 == b.lo.2 + b.hi.2,
        d >= 0 && b.contains(p) ==> b.expanded(d).contains(p),
{
}

/// The axis of greatest extent: no axis is longer, and every later axis is
/// strictly shorter, so that a tie goes to the later axis.
pub proof fn lemma_box3_max_extent(b: Box3, a: int)
    requires
        0 <= a < 3,
    ensures
        0 <= b.max_extent() < 3,
        axis3(b.diagonal(), a) <= axis3(b.diagonal(), b.max_extent()),
        a > b.max_extent() ==> axis3(b.diagonal(), a) < axis3(b.diagonal(), b.max_extent()),
{
}

/// The eight corners: corner 0 is `lo`, corner 7 is `hi`, all lie in an
/// ordered box, and distinct indices give distinct corners when every
/// extent is positive.
pub proof fn lemma_box3_corners(b: Box3, i: int, j: int)
    requires
        0 <= i < 8,
        0 <= j < 8,
    ensures
        b.corner(0) == b.lo,
        b.corner(7) == b.hi,
        b.is_ordered() ==> b.contains(b.corner(i)),
        b.lo.0 < b.hi.0 && b.lo.1 < b.hi.1 && b.lo.2 < b.hi.2 && i != j ==> b.corner(i) != b.corner(j),
{
    assert(0 <= i < 8 && 0 <= j < 8);
    assert(i == 0 || i == 1 || i == 2 || i == 3 || i == 4 || i == 5 || i == 6 || i == 7);
    assert(j == 0 || j == 1 || j == 2 || j == 3 || j == 4 || j == 5 || j == 6 || j == 7);
}

/// Neighbouring corners: for a clear bit of `i`, setting it moves the
/// corner along that bit's axis alone, from the least bound to the greatest
/// (bit 0 is x, bit 1 is y, bit 2 is z).
pub proof fn lemma_box3_corner_steps(b: Box3, i: int)
    requires
        0 <= i < 8,
    ensures
        i % 2 == 0 ==> b.corner(i).0 == b.lo.0 && b.corner(i + 1) == (b.hi.0, b.corner(i).1, b.corner(i).2),
        (i / 2) % 2 == 0 ==> b.corner(i).1 == b.lo.1 && b.corner(i + 2) == (b.corner(i).0, b.hi.1, b.corner(i).2),
        i < 4 ==> b.corner(i).2 == b.lo.2 && b.corner(i + 4) == (b.corner(i).0, b.corner(i).1, b.hi.2),
{
    assert(i == 0 || i == 1 || i == 2 || i == 3 || i == 4 || i == 5 || i == 6 || i == 7);
}

/// The faces of a box seen along each axis: the surface area is twice the
/// sum of the areas of the three faces, and the volume of an ordered box is
/// the area of its face across z times its extent along z. The diagonal
/// leads from the least corner to the greatest.
pub proof fn lemma_box3_faces(b: Box3)
    ensures
        b.lo.0 + b.diagonal().0 == b.hi.0,
        b.lo.1 + b.diagonal().1 == b.hi.1,
        b.lo.2 + b.diagonal().2 == b.hi.2,
        b.is_ordered() ==> b.surface_area() == 2 * (b.face(0).area() + b.face(1).area() + b.face(
            2,
        ).area()),
        b.is_ordered() ==> b.volume() == b.face(2).area() * (b.hi.2 - b.lo.2),
{
    let (x, y, z) = (b.hi.0 - b.lo.0, b.hi.1 - b.lo.1, b.hi.2 - b.lo.2);
    if b.is_ordered() {
        if x == 0 || y == 0 || z == 0 {
            assert(x * y * z == 0) by (nonlinear_arith)
                requires
                    x == 0 || y == 0 || z == 0,
            ;
        }
    }
}

/// Surface area and volume are never negative; an ordered box with positive
/// extents has volume equal to the product of its extents.
pub proof fn lemma_box3_measures(b: Box3)
    ensures
        b.surface_area() >= 0,
        b.volume() >= 0,
        b.lo.0 < b.hi.0 && b.lo.1 < b.hi.1 && b.lo.2 < b.hi.2 ==> b.volume() == (b.hi.0 - b.lo.0)
            * (b.hi.1 - b.lo.1) * (b.hi.2 - b.lo.2),
{
    let d = b.diagonal();
    let (x, y, z) = (vstd::math::max(d.0, 0), vstd::math::max(d.1, 0), vstd::math::max(d.2, 0));
    assert(x * y + x * z + y * z >= 0) by (nonlinear_arith)
        requires
            x >= 0,
            y >= 0,
            z >= 0,
    ;
    if !(d.0 <= 0 || d.1 <= 0 || d.2 <= 0) {
        assert(d.0 * d.1 * d.2 >= 0) by (nonlinear_arith)
            requires
                d.0 > 0,
                d.1 > 0,
                d.2 > 0,
        ;
    }
}

} // verus!
