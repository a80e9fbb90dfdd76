//! A utility sink for a sampler's precomputed values: `nsample` samples of
//! `ndim` dimensions each, read one dimension at a time.

use vstd::prelude::*;

verus! {

/// Precomputed sample values, laid out sample by sample, together with a
/// cursor `(isample, idim)` over them.
#[derive(Debug, Clone)]
pub struct Sink<T> {
    inner: Vec<T>,
    // dimension count
    ndim: usize,
    // total sample count
    nsample: usize,
    // current dimension index
    idim: usize,
    // current sample index
    isample: usize,
}

/// What a sink holds: the values (value `idim` of sample `isample` at
/// `isample * ndim + idim`), its shape and its cursor.
pub struct SinkView<T> {
    pub data: Seq<T>,
    pub ndim: nat,
    pub nsample: nat,
    pub idim: nat,
    pub isample: nat,
}

impl<T> SinkView<T> {
    /// The sink is well shaped: `ndim * nsample` values, a dimension cursor
    /// at most `ndim`, and a sample cursor on a sample (or zero when there is none).
    pub open spec fn wf(self) -> bool {
        &&& self.data.len() == self.ndim * self.nsample
        &&& self.idim <= self.ndim
        &&& (self.isample < self.nsample || self.isample == 0)
    }

    /// The position in `data` of dimension `idim` of sample `isample`.
    pub open spec fn offset(self, isample: int, idim: int) -> int {
        isample * self.ndim + idim
    }
}

/// Distinct `(isample, idim)` cells with `idim < ndim` have distinct
/// positions, so writing one cell (through `Sink::set`) changes what is read
/// at that cell and at no other.
pub proof fn lemma_set_then_get<T>(v: SinkView<T>, s1: int, d1: int, s2: int, d2: int, x: T)
    requires
        v.wf(),
        0 <= s1 < v.nsample,
        0 <= d1 < v.ndim,
        0 <= s2 < v.nsample,
        0 <= d2 < v.ndim,
    ensures
        0 <= v.offset(s1, d1) < v.data.len(),
        v.data.update(v.offset(s1, d1), x)[v.offset(s2, d2)] == (if s1 == s2 && d1 == d2 {
            x
        } else {
            v.data[v.offset(s2, d2)]
        }),
{
    let n = v.ndim as int;
    let m = v.nsample as int;
    assert(0 <= s1 * n + d1 < n * m && 0 <= s2 * n + d2 < n * m) by (nonlinear_arith)
        requires
            0 <= s1 < m,
            0 <= d1 < n,
            0 <= s2 < m,
            0 <= d2 < n,
    ;
    if !(s1 == s2 && d1 == d2) {
        assert(s1 * n + d1 != s2 * n + d2) by (nonlinear_arith)
            requires
                0 <= d1 < n,
                0 <= d2 < n,
                s1 != s2 || d1 != d2,
        ;
    }
}

/// The samples are stored one after another: the row that `Sink::sample`
/// returns for sample `s` holds at position `d` the value that `Sink::get`
/// reads at `(s, d)`, and the dimensions of a sample are consecutive.
pub proof fn lemma_sample_row<T>(v: SinkView<T>, s: int, d: int)
    requires
        v.wf(),
        0 <= s < v.nsample,
        0 <= d < v.ndim,
    ensures
        (s + 1) * v.ndim <= v.data.len(),
        v.data.subrange(s * v.ndim, (s + 1) * v.ndim)[d] == v.data[v.offset(s, d)],
        d + 1 < v.ndim ==> v.offset(s, d + 1) == v.offset(s, d) + 1,
        s + 1 < v.nsample ==> v.offset(s + 1, 0) == v.offset(s, v.ndim - 1) + 1,
{
    let n = v.ndim as int;
    let m = v.nsample as int;
    assert((s + 1) * n <= n * m && (s + 1) * n == s * n + n) by (nonlinear_arith)
        requires
            0 <= s < m,
            0 <= n,
    ;
}

impl<T> View for Sink<T> {
    type V = SinkView<T>;

    closed spec fn view(&self) -> SinkView<T> {
        SinkView {
            data: self.inner@,
            ndim: self.ndim as nat,
            nsample: self.nsample as nat,
            idim: self.idim as nat,
            isample: self.isample as nat,
        }
    }
}

impl<T: Copy> Sink<T> {
    /// Constructs a new sink from given dimension and sample count, every
    /// value set to `value`.
    pub fn new(ndim: usize, nsample: usize, value: T) -> (r: Sink<T>)
        requires
            ndim * nsample <= usize::MAX,
        ensures
            r@.data == Seq::new((ndim * nsample) as nat, |i: int| value),
            r@.ndim == ndim,
            r@.nsample == nsample,
            r@.idim == 0,
            r@.isample == 0,
            r@.wf(),
    {
        let n = ndim * nsample;
        let mut inner: Vec<T> = Vec::new();
        let mut i: usize = 0;
        while i < n
            invariant
                i <= n,
                inner@ == Seq::new(i as nat, |j: int| value),
            decreases n - i,
        {
            inner.push(value);
            i = i + 1;
        }
        Sink { inner, ndim, nsample, idim: 0usize, isample: 0usize }
    }

    /// Advance to next pixel, reset indexing.
    pub fn reset(&mut self)
        requires
            old(self)@.wf(),
        ensures
            final(self)@.wf(),
            final(self)@ == (SinkView { idim: 0, isample: 0, ..old(self)@ }),
    {
        self.idim = 0;
        self.isample = 0;
    }

    /// Get sample value in next dimension: the value at the cursor, the
    /// dimension cursor then moved on; `None` once the dimensions are used up.
    pub fn next_dim(&mut self) -> (r: Option<T>)
        requires
            old(self)@.wf(),
            old(self)@.idim < old(self)@.ndim ==> old(self)@.nsample > 0,
        ensures
            final(self)@.wf(),
            old(self)@.idim >= old(self)@.ndim ==> r is None && final(self)@ == old(self)@,
            old(self)@.idim < old(self)@.ndim ==> {
                &&& r == Some(old(self)@.data[old(self)@.offset(old(self)@.isample as int, old(self)@.idim as int)])
                &&& final(self)@ == (SinkView { idim: old(self)@.idim + 1, ..old(self)@ })
            },
    {
        if self.idim >= self.ndim {
            None
        } else {
            let isample = self.isample;
            let idim = self.idim;
            self.idim = self.idim + 1;
            let ghost (s, d, n) = (isample as int, self.ndim as int, self.nsample as int);
            assert(0 <= s * d + idim < d * n) by (nonlinear_arith)
                requires
                    0 <= s < n,
                    0 <= idim < d,
            ;
            Some(self.get(isample, idim))
        }
    }

    /// Advance to next sample; `false`, with nothing changed, when the
    /// current sample is the last one.
    pub fn next_sample(&mut self) -> (r: bool)
        requires
            old(self)@.wf(),
        ensures
            final(self)@.wf(),
            r == (old(self)@.isample + 1 < old(self)@.nsample),
            r ==> final(self)@ == (SinkView { isample: old(self)@.isample + 1, ..old(self)@ }),
            !r ==> final(self)@ == old(self)@,
    {
        if self.isample + 1 >= self.nsample {
            false
        } else {
            self.isample = self.isample + 1;
            true
        }
    }

    /// Set sample index; `false`, with nothing changed, when `idx` is not a sample.
    pub fn set_sample_index(&mut self, idx: usize) -> (r: bool)
        requires
            old(self)@.wf(),
        ensures
            final(self)@.wf(),
            r == (idx < old(self)@.nsample),
            r ==> final(self)@ == (SinkView { isample: idx as nat, ..old(self)@ }),
            !r ==> final(self)@ == old(self)@,
    {
        if idx >= self.nsample {
            false
        } else {
            self.isample = idx;
            true
        }
    }

    /// Get total dimension.
    pub fn ndim(&self) -> (r: usize)
        ensures
            r == self@.ndim,
    {
        self.ndim
    }

    /// Get total sample count.
    pub fn nsample(&self) -> (r: usize)
        ensures
            r == self@.nsample,
    {
        self.nsample
    }

    /// Get current dim.
    pub fn idim(&self) -> (r: usize)
        ensures
            r == self@.idim,
    {
        self.idim
    }

    /// Get current sample.
    pub fn isample(&self) -> (r: usize)
        ensures
            r == self@.isample,
    {
        self.isample
    }

    /// The value at `(isample, idim)`.
    pub fn get(&self, isample: usize, idim: usize) -> (r: T)
        requires
            0 <= self@.offset(isample as int, idim as int) < self@.data.len(),
        ensures
            r == self@.data[self@.offset(isample as int, idim as int)],
    {
        let ghost (s, d) = (isample as int, self.ndim as int);
        assert(0 <= s * d) by (nonlinear_arith)
            requires
                0 <= s,
                0 <= d,
        ;
        assert(self.inner.len() == self.inner@.len());
        self.inner[isample * self.ndim + idim]
    }

    /// Overwrite the value at `(isample, idim)`.
    pub fn set(&mut self, isample: usize, idim: usize, value: T)
        requires
            old(self)@.wf(),
            0 <= old(self)@.offset(isample as int, idim as int) < old(self)@.data.len(),
        ensures
            final(self)@.wf(),
            final(self)@ == (SinkView {
                data: old(self)@.data.update(old(self)@.offset(isample as int, idim as int), value),
                ..old(self)@
            }),
    {
        let ghost (s, d) = (isample as int, self.ndim as int);
        assert(0 <= s * d) by (nonlinear_arith)
            requires
                0 <= s,
                0 <= d,
        ;
        assert(self.inner.len() == self.inner@.len());
        let k = isample * self.ndim + idim;
        self.inner.set(k, value);
    }

    /// The values of sample `isample`, all dimensions.
    pub fn sample(&self, isample: usize) -> (r: &[T])
        requires
            (isample + 1) * self@.ndim <= self@.data.len(),
        ensures
            r@ == self@.data.subrange(isample * self@.ndim, (isample + 1) * self@.ndim),
    {
        let ghost (s, d) = (isample as int, self.ndim as int);
        assert(0 <= s * d <= s * d + d == (s + 1) * d) by (nonlinear_arith)
            requires
                0 <= s,
                0 <= d,
        ;
        assert(self.inner.len() == self.inner@.len());
        let offset = isample * self.ndim;
        &self.inner.as_slice()[offset..offset + self.ndim]
    }
}

} // verus!
