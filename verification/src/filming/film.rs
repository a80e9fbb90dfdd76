//! Bounded pixel sinks, images, and the tiling of a film's crop window.

use vstd::prelude::*;
use crate::geometry::bbox::BBox2;
use crate::geometry::model::{Box2, RowScan};
use crate::geometry::laws::lemma_scan_row_major;
use vstd::arithmetic::div_mod::lemma_fundamental_div_mod;
use crate::geometry::point::Point2;

verus! {

/// Memory sink for values on the integer points of a bounding box, the
/// greater boundaries excluded, stored row by row.
pub struct BoundedSink2D<S> {
    pixels: Vec<S>,
    bounding: BBox2<usize>,
}

/// What a bounded sink holds: its values and its bounding box.
pub struct SinkView2D<S> {
    pub pixels: Seq<S>,
    pub bounding: Box2,
}

impl<S> SinkView2D<S> {
    /// The width of the bounding box.
    pub open spec fn width(self) -> int {
        self.bounding.hi.0 - self.bounding.lo.0
    }

    /// The height of the bounding box.
    pub open spec fn height(self) -> int {
        self.bounding.hi.1 - self.bounding.lo.1
    }

    /// The box has pixels and the sink has one value for each.
    pub open spec fn wf(self) -> bool {
        &&& self.width() > 0
        &&& self.height() > 0
        &&& self.pixels.len() == self.width() * self.height()
    }

    /// The position in `pixels` of the value at `p`.
    pub open spec fn offset(self, p: (int, int)) -> int {
        (p.0 - self.bounding.lo.0) + (p.1 - self.bounding.lo.1) * self.width()
    }
}

impl<S> View for BoundedSink2D<S> {
    type V = SinkView2D<S>;

    closed spec fn view(&self) -> SinkView2D<S> {
        SinkView2D { pixels: self.pixels@, bounding: self.bounding@ }
    }
}

/// Each pixel of a well-shaped sink has its own position in `pixels`: the
/// positions of the points in the box, greater boundaries excluded, lie in
/// `[0, width * height)` and differ for different points.
pub proof fn lemma_offset_one_to_one<S>(v: SinkView2D<S>, p: (int, int), q: (int, int))
    requires
        v.wf(),
        v.bounding.contains_lb(p),
        v.bounding.contains_lb(q),
    ensures
        0 <= v.offset(p) < v.pixels.len(),
        p != q ==> v.offset(p) != v.offset(q),
{
    let w = v.width();
    let h = v.height();
    let (px, py) = (p.0 - v.bounding.lo.0, p.1 - v.bounding.lo.1);
    let (qx, qy) = (q.0 - v.bounding.lo.0, q.1 - v.bounding.lo.1);
    assert(0 <= px + py * w < w * h) by (nonlinear_arith)
        requires
            0 <= px < w,
            0 <= py < h,
    ;
    if p != q {
        assert(px + py * w != qx + qy * w) by (nonlinear_arith)
            requires
                0 <= px < w,
                0 <= qx < w,
                px != qx || py != qy,
        ;
    }
}

/// Writing the pixel at `p` (through `get_pixel_mut` or `Image::index_mut`)
/// changes what is read at `p` and at no other pixel of the box.
pub proof fn lemma_write_then_read<S>(v: SinkView2D<S>, p: (int, int), q: (int, int), x: S)
    requires
        v.wf(),
        v.bounding.contains_lb(p),
        v.bounding.contains_lb(q),
    ensures
        v.pixels.update(v.offset(p), x)[v.offset(q)] == (if p == q {
            x
        } else {
            v.pixels[v.offset(q)]
        }),
{
    lemma_offset_one_to_one(v, p, q);
    lemma_offset_one_to_one(v, q, p);
}

/// Scanning the bounding box of a sink (as `BBox2<isize>::into_iter` does)
/// visits its pixels in storage order: the `k`-th point scanned has offset `k`.
pub proof fn lemma_scan_matches_storage<S>(v: SinkView2D<S>, k: nat)
    requires
        v.wf(),
        k < v.pixels.len(),
    ensures
        RowScan::over(v.bounding).nth(k) matches Some(p) && v.bounding.contains_lb(p) && v.offset(p)
            == k,
{
    let w = v.width();
    let h = v.height();
    lemma_scan_row_major(v.bounding, k);
    lemma_fundamental_div_mod(k as int, w);
    let p = (v.bounding.lo.0 + (k as int) % w, v.bounding.lo.1 + (k as int) / w);
    assert(v.offset(p) == (k as int) % w + ((k as int) / w) * w) by (nonlinear_arith)
        requires
            v.offset(p) == (p.0 - v.bounding.lo.0) + (p.1 - v.bounding.lo.1) * w,
            p.0 - v.bounding.lo.0 == (k as int) % w,
            p.1 - v.bounding.lo.1 == (k as int) / w,
    ;
    assert(((k as int) / w) * w == w * ((k as int) / w)) by (nonlinear_arith);
    assert(0 <= (k as int) % w < w && 0 <= (k as int) / w < h) by (nonlinear_arith)
        requires
            k == w * ((k as int) / w) + (k as int) % w,
            0 <= k < w * h,
            w > 0,
            h > 0,
    {
        vstd::arithmetic::div_mod::lemma_mod_pos_bound(k as int, w);
        vstd::arithmetic::div_mod::lemma_div_pos_is_pos(k as int, w);
    }
}

impl<S: Clone> BoundedSink2D<S> {
    /// Construction with every value a clone of `value`.
    pub fn with_value(value: S, bbox: BBox2<usize>) -> (r: BoundedSink2D<S>)
        requires
            bbox.pmax.x > bbox.pmin.x,
            bbox.pmax.y > bbox.pmin.y,
            (bbox.pmax.x - bbox.pmin.x) * (bbox.pmax.y - bbox.pmin.y) <= usize::MAX,
        ensures
            r@.wf(),
            r@.bounding == bbox@,
            forall|i: int| 0 <= i < r@.pixels.len() ==> cloned(value, #[trigger] r@.pixels[i]),
    {
        let diagonal = bbox.diagonal();
        let pixels = vec![value; diagonal.x * diagonal.y];
        BoundedSink2D { pixels, bounding: bbox }
    }
}

impl<S: Clone + Default> BoundedSink2D<S> {
    /// Construction; every value is a clone of the pixel type's default.
    pub fn new(bbox: BBox2<usize>) -> (r: BoundedSink2D<S>)
        requires
            bbox.pmax.x > bbox.pmin.x,
            bbox.pmax.y > bbox.pmin.y,
            (bbox.pmax.x - bbox.pmin.x) * (bbox.pmax.y - bbox.pmin.y) <= usize::MAX,
        ensures
            r@.wf(),
            r@.bounding == bbox@,
    {
        BoundedSink2D::with_value(S::default(), bbox)
    }
}

impl<S> BoundedSink2D<S> {
    /// Returns the offset in `self.pixels` at `p`.
    pub fn get_pixel_offset(&self, p: Point2<usize>) -> (r: usize)
        requires
            self@.wf(),
            self@.bounding.contains_lb(p@),
        ensures
            r == self@.offset(p@),
            r < self@.pixels.len(),
    {
        proof {
            lemma_offset_one_to_one(self@, p@, p@);
        }
        let ghost (px, py, w) = (
            p.x - self.bounding.pmin.x,
            p.y - self.bounding.pmin.y,
            self.bounding.pmax.x - self.bounding.pmin.x,
        );
        assert(0 <= py * w <= px + py * w) by (nonlinear_arith)
            requires
                0 <= px,
                0 <= py,
                0 <= w,
        ;
        assert(self.pixels.len() == self.pixels@.len());
        (p.x - self.bounding.pmin.x) + (p.y - self.bounding.pmin.y) * (self.bounding.pmax.x
            - self.bounding.pmin.x)
    }

    /// Get pixel at `p`.
    pub fn get_pixel(&self, p: Point2<usize>) -> (r: &S)
        requires
            self@.wf(),
            self@.bounding.contains_lb(p@),
        ensures
            *r == self@.pixels[self@.offset(p@)],
    {
        let idx = self.get_pixel_offset(p);
        &self.pixels[idx]
    }

    /// Get mutable pixel at `p`.
    pub fn get_pixel_mut(&mut self, p: Point2<usize>) -> (r: &mut S)
        requires
            old(self)@.wf(),
            old(self)@.bounding.contains_lb(p@),
        ensures
            *r == old(self)@.pixels[old(self)@.offset(p@)],
            final(self)@ == (SinkView2D {
                pixels: old(self)@.pixels.update(old(self)@.offset(p@), *final(r)),
                ..old(self)@
            }),
    {
        let idx = self.get_pixel_offset(p);
        &mut self.pixels[idx]
    }

    /// Get bounding.
    pub fn bounding(&self) -> (r: BBox2<usize>)
        ensures
            r@ == self@.bounding,
    {
        self.bounding
    }
}

/// An image: one value per pixel of `[0, width) x [0, height)`.
pub struct Image<S> {
    inner: BoundedSink2D<S>,
}

impl<S> View for Image<S> {
    type V = SinkView2D<S>;

    closed spec fn view(&self) -> SinkView2D<S> {
        self.inner@
    }
}

impl<S> Image<S> {
    /// Convert into a bounded sink.
    pub fn into_inner(self) -> (r: BoundedSink2D<S>)
        ensures
            r@ == self@,
    {
        self.inner
    }

    /// The pixel at `p`.
    pub fn index(&self, p: Point2<usize>) -> (r: &S)
        requires
            self@.wf(),
            self@.bounding.contains_lb(p@),
        ensures
            *r == self@.pixels[self@.offset(p@)],
    {
        self.inner.get_pixel(p)
    }

    /// The pixel at `p`, to be written.
    pub fn index_mut(&mut self, p: Point2<usize>) -> (r: &mut S)
        requires
            old(self)@.wf(),
            old(self)@.bounding.contains_lb(p@),
        ensures
            *r == old(self)@.pixels[old(self)@.offset(p@)],
            final(self)@ == (SinkView2D {
                pixels: old(self)@.pixels.update(old(self)@.offset(p@), *final(r)),
                ..old(self)@
            }),
    {
        self.inner.get_pixel_mut(p)
    }
}

impl<S> Image<S> {
    /// The pixel at column `x`, row `y`.
    pub fn at(&self, x: usize, y: usize) -> (r: &S)
        requires
            self@.wf(),
            self@.bounding.contains_lb((x as int, y as int)),
        ensures
            *r == self@.pixels[self@.offset((x as int, y as int))],
    {
        self.inner.get_pixel(Point2::new(x, y))
    }

    /// The pixel at column `x`, row `y`, to be written.
    pub fn at_mut(&mut self, x: usize, y: usize) -> (r: &mut S)
        requires
            old(self)@.wf(),
            old(self)@.bounding.contains_lb((x as int, y as int)),
        ensures
            *r == old(self)@.pixels[old(self)@.offset((x as int, y as int))],
            final(self)@ == (SinkView2D {
                pixels: old(self)@.pixels.update(old(self)@.offset((x as int, y as int)), *final(r)),
                ..old(self)@
            }),
    {
        self.inner.get_pixel_mut(Point2::new(x, y))
    }
}

impl<S: Copy> Image<S> {
    /// Construct an image of `dim.x` by `dim.y` pixels, each `spectrum`.
    pub fn new(spectrum: S, dim: Point2<usize>) -> (r: Image<S>)
        requires
            dim.x > 0,
            dim.y > 0,
            dim.x * dim.y <= usize::MAX,
        ensures
            r@.wf(),
            r@.bounding == (Box2 { lo: (0, 0), hi: dim@ }),
            r@.pixels == Seq::new((dim.x * dim.y) as nat, |i: int| spectrum),
            forall|p: (int, int)| #[trigger] r@.bounding.contains_lb(p) ==> r@.pixels[r@.offset(p)] == spectrum,
    {
        let bbox = BBox2::new(Point2::new(0, 0), dim);
        let n = dim.x * dim.y;
        let mut pixels: Vec<S> = Vec::new();
        let mut i: usize = 0;
        while i < n
            invariant
                i <= n,
                pixels@ == Seq::new(i as nat, |j: int| spectrum),
            decreases n - i,
        {
            pixels.push(spectrum);
            i = i + 1;
        }
        let r = Image { inner: BoundedSink2D { pixels, bounding: bbox } };
        proof {
            assert forall|p: (int, int)| #[trigger] r@.bounding.contains_lb(p) implies r@.pixels[r@.offset(p)] == spectrum by {
                lemma_offset_one_to_one(r@, p, p);
            }
        }
        r
    }
}

} // verus!
