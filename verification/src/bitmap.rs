//! 1-bit-per-pixel rasters with compositing primitives.
//!
//! A `Bitmap` stores its pixels row-major in a packed bit vector from the
//! `bit_vec` crate.  The bit vector is opaque to the verifier; its logical
//! contents are named by `bit_vec_bits`, and every operation on it goes
//! through a small trusted wrapper whose contract matches the crate's source.

use vstd::prelude::*;

verus! {

#[verifier::external_type_specification]
#[verifier::external_body]
#[verifier::reject_recursive_types(B)]
pub struct ExBitVec<B>(bit_vec::BitVec<B>);

/// The logical contents of a packed bit vector, bit by bit.
pub uninterp spec fn bit_vec_bits(v: bit_vec::BitVec) -> Seq<bool>;

/// Relies on bit_vec::BitVec::from_elem: `len` copies of `bit`.
#[verifier::external_body]
fn bv_from_elem(len: usize, bit: bool) -> (r: bit_vec::BitVec)
    ensures
        bit_vec_bits(r) == Seq::new(len as nat, |i: int| bit),
{
    bit_vec::BitVec::from_elem(len, bit)
}

/// Relies on bit_vec::BitVec::get: the bit at `i`, or `None` past the end.
#[verifier::external_body]
fn bv_get(v: &bit_vec::BitVec, i: usize) -> (r: Option<bool>)
    ensures
        r == (if (i as int) < bit_vec_bits(*v).len() {
            Some(bit_vec_bits(*v)[i as int])
        } else {
            None::<bool>
        }),
{
    v.get(i)
}

/// Relies on bit_vec::BitVec::set: overwrites the bit at `i`, which must be
/// in bounds (the crate panics otherwise).
#[verifier::external_body]
fn bv_set(v: &mut bit_vec::BitVec, i: usize, x: bool)
    requires
        (i as int) < bit_vec_bits(*old(v)).len(),
    ensures
        bit_vec_bits(*final(v)) == bit_vec_bits(*old(v)).update(i as int, x),
{
    v.set(i, x)
}

/// Relies on bit_vec::BitVec::negate: flips every bit.
#[verifier::external_body]
fn bv_negate(v: &mut bit_vec::BitVec)
    ensures
        bit_vec_bits(*final(v)) == Seq::new(
            bit_vec_bits(*old(v)).len(),
            |i: int| !bit_vec_bits(*old(v))[i],
        ),
{
    v.negate()
}

/// Relies on bit_vec::BitVec's PartialEq: equal bit counts and equal
/// storage blocks.  The crate keeps bits past the end of the last block
/// zero, so this is exactly bit-for-bit equality.
#[verifier::external_body]
fn bv_eq(a: &bit_vec::BitVec, b: &bit_vec::BitVec) -> (r: bool)
    ensures
        r <==> bit_vec_bits(*a) =~= bit_vec_bits(*b),
{
    a == b
}

/// Relies on bit_vec::BitVec's Clone: the copy holds the same bits.
#[verifier::external_body]
fn bv_clone(v: &bit_vec::BitVec) -> (r: bit_vec::BitVec)
    ensures
        bit_vec_bits(r) == bit_vec_bits(*v),
{
    v.clone()
}

/// The mathematical value of a `Bitmap`: its dimensions and its pixels,
/// row-major.
#[verifier::ext_equal]
pub struct BitmapView {
    pub w: nat,
    pub h: nat,
    pub bits: Seq<bool>,
}

impl BitmapView {
    /// The pixel array has exactly one bit per pixel, and the pixel count is
    /// addressable with a machine word.
    pub open spec fn wf(self) -> bool {
        &&& self.bits.len() == self.w * self.h
        &&& self.w * self.h <= usize::MAX
    }

    pub open spec fn in_bounds(self, x: int, y: int) -> bool {
        0 <= x < self.w && 0 <= y < self.h
    }

    /// The pixel at column `x`, row `y`.
    pub open spec fn px(self, x: int, y: int) -> bool {
        self.bits[y * self.w + x]
    }
}

/// Whether source pixel space covers destination pixel `(sx, sy)` when the
/// source is placed at offset `(x, y)`.
pub open spec fn blit_covers(src: BitmapView, x: int, y: int, sx: int, sy: int) -> bool {
    src.in_bounds(sx - x, sy - y)
}

/// The pixel at `(sx, sy)` of the destination after blitting `src` at offset
/// `(x, y)`.  Opaque blits overwrite covered pixels; transparent blits OR the
/// source in, so unset source pixels leave the destination untouched.
pub open spec fn blit_px(
    dst: BitmapView,
    src: BitmapView,
    x: int,
    y: int,
    opaque: bool,
    sx: int,
    sy: int,
) -> bool {
    if blit_covers(src, x, y, sx, sy) {
        if opaque {
            src.px(sx - x, sy - y)
        } else {
            dst.px(sx, sy) || src.px(sx - x, sy - y)
        }
    } else {
        dst.px(sx, sy)
    }
}

/// The whole destination after blitting `src` at offset `(x, y)`.
pub open spec fn blit_view(dst: BitmapView, src: BitmapView, x: int, y: int, opaque: bool) -> BitmapView {
    BitmapView {
        w: dst.w,
        h: dst.h,
        bits: Seq::new(dst.bits.len(), |i: int| blit_px(dst, src, x, y, opaque, i % (dst.w as int), i / (dst.w as int))),
    }
}

proof fn lemma_row_major_index(w: int, h: int, x: int, y: int)
    by (nonlinear_arith)
    requires
        0 <= x < w,
        0 <= y < h,
    ensures
        0 <= y * w + x < w * h,
        (y * w + x) % w == x,
        (y * w + x) / w == y,
{
}

proof fn lemma_index_decomp(w: int, h: int, i: int)
    by (nonlinear_arith)
    requires
        0 <= w,
        0 <= i < w * h,
    ensures
        0 < w,
        0 <= i % w < w,
        0 <= i / w < h,
        (i / w) * w + i % w == i,
{
}

proof fn lemma_mul_le(a: int, b: int, c: int, d: int)
    by (nonlinear_arith)
    requires
        0 <= a <= c,
        0 <= b <= d,
    ensures
        a * b <= c * d,
{
}

/// A monochrome raster: `w * h` pixels, row-major, one bit each.
pub struct Bitmap {
    pub w: usize,
    pub h: usize,
    pub data: bit_vec::BitVec,
}

impl View for Bitmap {
    type V = BitmapView;

    open spec fn view(&self) -> BitmapView {
        BitmapView { w: self.w as nat, h: self.h as nat, bits: bit_vec_bits(self.data) }
    }
}

impl Bitmap {
    /// A `w` by `h` bitmap with every pixel set to `on`.
    pub fn new(w: usize, h: usize, on: bool) -> (r: Bitmap)
        requires
            w * h <= usize::MAX,
        ensures
            r@.wf(),
            r@.w == w,
            r@.h == h,
            forall|x: int, y: int| r@.in_bounds(x, y) ==> r@.px(x, y) == on,
            r@.bits == Seq::new((w * h) as nat, |i: int| on),
    {
        let data = bv_from_elem(w * h, on);
        let r = Bitmap { w, h, data };
        proof {
            assert forall|x: int, y: int| r@.in_bounds(x, y) implies r@.px(x, y) == on by {
                lemma_row_major_index(w as int, h as int, x, y);
            }
        }
        r
    }

    /// The pixel at `(x, y)`.
    pub fn get(&self, x: usize, y: usize) -> (r: bool)
        requires
            self@.wf(),
            self@.in_bounds(x as int, y as int),
        ensures
            r == self@.px(x as int, y as int),
    {
        proof {
            lemma_row_major_index(self.w as int, self.h as int, x as int, y as int);
        }
        let i = y * self.w + x;
        match bv_get(&self.data, i) {
            Some(b) => b,
            None => false,
        }
    }

    /// Overwrites the pixel at `(x, y)`.
    pub fn set(&mut self, x: usize, y: usize, on: bool)
        requires
            old(self)@.wf(),
            old(self)@.in_bounds(x as int, y as int),
        ensures
            final(self)@.wf(),
            final(self)@.w == old(self)@.w,
            final(self)@.h == old(self)@.h,
            final(self)@.px(x as int, y as int) == on,
            forall|i: int, j: int|
                old(self)@.in_bounds(i, j) && !(i == x && j == y)
                    ==> final(self)@.px(i, j) == old(self)@.px(i, j),
    {
        proof {
            lemma_row_major_index(self.w as int, self.h as int, x as int, y as int);
        }
        let i = y * self.w + x;
        bv_set(&mut self.data, i, on);
        proof {
            assert forall|i2: int, j2: int|
                old(self)@.in_bounds(i2, j2) && !(i2 == x && j2 == y)
                    implies final(self)@.px(i2, j2) == old(self)@.px(i2, j2) by {
                lemma_row_major_index(self.w as int, self.h as int, i2, j2);
                lemma_row_major_index(self.w as int, self.h as int, x as int, y as int);
                if j2 * self.w + i2 == y * self.w + x {
                    assert(i2 == x && j2 == y) by (nonlinear_arith)
                        requires
                            0 <= i2 < self.w as int,
                            0 <= x < self.w as int,
                            j2 * self.w + i2 == y * self.w + x,
                    ;
                }
            }
        }
    }

    /// A copy of the sub-rectangle at `(x, y)` of size `w` by `h`.
    /// Callers must stay inside the bitmap; out-of-bounds crops are not
    /// accepted (the peer operation on the device panics there).
    pub fn crop(&self, x: usize, y: usize, w: usize, h: usize) -> (r: Bitmap)
        requires
            self@.wf(),
            x <= self@.w,
            y <= self@.h,
            w <= self@.w - x,
            h <= self@.h - y,
        ensures
            r@.wf(),
            r@.w == w,
            r@.h == h,
            forall|i: int, j: int|
                0 <= i < w && 0 <= j < h ==> r@.px(i, j) == self@.px(x + i, y + j),
    {
        proof {
            lemma_mul_le(w as int, h as int, self.w as int, self.h as int);
        }
        let mut out = Bitmap::new(w, h, false);
        let mut j: usize = 0;
        while j < h
            invariant
                self@.wf(),
                x <= self@.w,
                y <= self@.h,
                w <= self@.w - x,
                h <= self@.h - y,
                out@.wf(),
                out@.w == w,
                out@.h == h,
                j <= h,
                forall|i2: int, j2: int|
                    0 <= i2 < w && 0 <= j2 < j ==> out@.px(i2, j2) == self@.px(x + i2, y + j2),
            decreases h - j,
        {
            let mut i: usize = 0;
            while i < w
                invariant
                    self@.wf(),
                    x <= self@.w,
                    y <= self@.h,
                    w <= self@.w - x,
                    h <= self@.h - y,
                    out@.wf(),
                    out@.w == w,
                    out@.h == h,
                    j < h,
                    i <= w,
                    forall|i2: int, j2: int|
                        0 <= i2 < w && 0 <= j2 < j ==> out@.px(i2, j2) == self@.px(x + i2, y + j2),
                    forall|i2: int|
                        0 <= i2 < i ==> out@.px(i2, j as int) == self@.px(x + i2, y + j as int),
                decreases w - i,
            {
                let b = self.get(x + i, y + j);
                out.set(i, j, b);
                i += 1;
            }
            j += 1;
        }
        out
    }

    /// Blits `other` onto this bitmap at signed offset `(x, y)`, without
    /// growing the bounds.  `opaque` overwrites covered pixels; transparent
    /// blits OR the source in.
    pub fn blit(&mut self, other: &Bitmap, x: isize, y: isize, opaque: bool)
        requires
            old(self)@.wf(),
            other@.wf(),
        ensures
            final(self)@.wf(),
            final(self)@ =~= blit_view(old(self)@, other@, x as int, y as int, opaque),
    {
        self.blit_wide(other, x as i128, y as i128, opaque)
    }

    /// `blit` with a wider offset type, for callers whose positions are
    /// sums that could overflow a machine word.  The offsets must stay
    /// well inside the wide type's own range.
    pub fn blit_wide(&mut self, other: &Bitmap, x: i128, y: i128, opaque: bool)
        requires
            old(self)@.wf(),
            other@.wf(),
            -0x1000000000000000000000000 <= x <= 0x1000000000000000000000000,
            -0x1000000000000000000000000 <= y <= 0x1000000000000000000000000,
        ensures
            final(self)@.wf(),
            final(self)@ =~= blit_view(old(self)@, other@, x as int, y as int, opaque),
    {
        let mut sy: usize = 0;
        while sy < self.h
            invariant
                self@.wf(),
                other@.wf(),
                -0x1000000000000000000000000 <= x <= 0x1000000000000000000000000,
                -0x1000000000000000000000000 <= y <= 0x1000000000000000000000000,
                self@.w == old(self)@.w,
                self@.h == old(self)@.h,
                sy <= self@.h,
                forall|i2: int, j2: int|
                    self@.in_bounds(i2, j2) && j2 < sy
                        ==> self@.px(i2, j2) == blit_px(old(self)@, other@, x as int, y as int, opaque, i2, j2),
                forall|i2: int, j2: int|
                    self@.in_bounds(i2, j2) && j2 >= sy ==> self@.px(i2, j2) == old(self)@.px(i2, j2),
            decreases self@.h - sy,
        {
            let mut sx: usize = 0;
            while sx < self.w
                invariant
                    self@.wf(),
                    other@.wf(),
                    -0x1000000000000000000000000 <= x <= 0x1000000000000000000000000,
                    -0x1000000000000000000000000 <= y <= 0x1000000000000000000000000,
                    self@.w == old(self)@.w,
                    self@.h == old(self)@.h,
                    sy < self@.h,
                    sx <= self@.w,
                    forall|i2: int, j2: int|
                        self@.in_bounds(i2, j2) && j2 < sy
                            ==> self@.px(i2, j2) == blit_px(old(self)@, other@, x as int, y as int, opaque, i2, j2),
                    forall|i2: int|
                        0 <= i2 < sx
                            ==> self@.px(i2, sy as int) == blit_px(old(self)@, other@, x as int, y as int, opaque, i2, sy as int),
                    forall|i2: int, j2: int|
                        self@.in_bounds(i2, j2) && (j2 > sy || (j2 == sy && i2 >= sx))
                            ==> self@.px(i2, j2) == old(self)@.px(i2, j2),
                decreases self@.w - sx,
            {
                let ox: i128 = sx as i128 - x;
                let oy: i128 = sy as i128 - y;
                if ox >= 0 && ox < other.w as i128 && oy >= 0 && oy < other.h as i128 {
                    let src = other.get(ox as usize, oy as usize);
                    if opaque {
                        self.set(sx, sy, src);
                    } else {
                        let cur = self.get(sx, sy);
                        self.set(sx, sy, cur || src);
                    }
                }
                sx += 1;
            }
            sy += 1;
        }
        proof {
            let target = blit_view(old(self)@, other@, x as int, y as int, opaque);
            let w = self@.w as int;
            let h = self@.h as int;
            assert forall|i: int| 0 <= i < self@.bits.len() implies self@.bits[i] == target.bits[i] by {
                lemma_index_decomp(w, h, i);
                let xi = i % w;
                let yi = i / w;
                assert(self@.in_bounds(xi, yi));
                assert(self@.px(xi, yi) == blit_px(old(self)@, other@, x as int, y as int, opaque, xi, yi));
                assert(self@.bits[yi * w + xi] == target.bits[i]);
            }
        }
    }

    /// Flips every pixel.
    pub fn invert(&mut self)
        requires
            old(self)@.wf(),
        ensures
            final(self)@.wf(),
            final(self)@.w == old(self)@.w,
            final(self)@.h == old(self)@.h,
            forall|i: int, j: int|
                old(self)@.in_bounds(i, j) ==> final(self)@.px(i, j) == !old(self)@.px(i, j),
    {
        bv_negate(&mut self.data);
        proof {
            assert forall|i: int, j: int|
                old(self)@.in_bounds(i, j) implies final(self)@.px(i, j) == !old(self)@.px(i, j) by {
                lemma_row_major_index(self.w as int, self.h as int, i, j);
            }
        }
    }

    /// Pixel-exact equality.
    pub fn equals(&self, other: &Bitmap) -> (r: bool)
        ensures
            r <==> self@ =~= other@,
    {
        self.w == other.w && self.h == other.h && bv_eq(&self.data, &other.data)
    }
}

impl Clone for Bitmap {
    fn clone(&self) -> (r: Self)
        ensures
            r@ == self@,
    {
        Bitmap { w: self.w, h: self.h, data: bv_clone(&self.data) }
    }
}

/// Blitting an all-off bitmap transparently changes nothing, while blitting
/// it opaquely clears every covered pixel.
pub proof fn lemma_blank_blit(dst: BitmapView, src: BitmapView, x: int, y: int)
    requires
        dst.wf(),
        forall|i: int, j: int| src.in_bounds(i, j) ==> !src.px(i, j),
    ensures
        blit_view(dst, src, x, y, false) =~= dst,
        forall|sx: int, sy: int|
            dst.in_bounds(sx, sy) && blit_covers(src, x, y, sx, sy)
                ==> !blit_view(dst, src, x, y, true).px(sx, sy),
{
    let tr = blit_view(dst, src, x, y, false);
    assert forall|i: int| 0 <= i < dst.bits.len() implies tr.bits[i] == dst.bits[i] by {
        lemma_index_decomp(dst.w as int, dst.h as int, i);
    }
    assert forall|sx: int, sy: int|
        dst.in_bounds(sx, sy) && blit_covers(src, x, y, sx, sy)
            implies !blit_view(dst, src, x, y, true).px(sx, sy) by {
        lemma_row_major_index(dst.w as int, dst.h as int, sx, sy);
    }
}

} // verus!
