//! How an image is cut into horizontal slices, and how the rendered slices
//! come together again in one buffer.

use crate::raster::{overwrite, overwritten, LayoutView, SliceLayout};
use vstd::arithmetic::div_mod::{lemma_fundamental_div_mod, lemma_mod_bound};
use vstd::prelude::*;

verus! {

/// An image and the number of slices it is cut into, as plain numbers.
pub struct PlanView {
    pub image_width: nat,
    pub image_height: nat,
    pub color_byte_size: nat,
    pub slice_count: nat,
}

impl PlanView {
    /// The number of rows in each slice.
    pub open spec fn slice_height(self) -> nat {
        self.image_height / self.slice_count
    }

    /// The number of bytes in each slice.
    pub open spec fn slice_length(self) -> nat {
        self.image_width * self.slice_height() * self.color_byte_size
    }

    /// The number of bytes in the image.
    pub open spec fn image_length(self) -> nat {
        self.image_width * self.image_height * self.color_byte_size
    }

    /// The first row of slice `index`.
    pub open spec fn start_row(self, index: nat) -> nat {
        index * self.slice_height()
    }

    /// The place of the first byte of slice `index` in the image.
    pub open spec fn byte_offset(self, index: nat) -> nat {
        index * self.slice_length()
    }

    /// A plan needs at least one slice and an image whose size in bytes can
    /// be counted; slices that are to run side by side must divide the rows
    /// evenly.
    pub open spec fn admissible(self, side_by_side: bool) -> bool {
        &&& self.slice_count > 0
        &&& side_by_side ==> self.image_height % self.slice_count == 0
        &&& self.image_width * self.image_height <= usize::MAX
        &&& self.image_length() <= usize::MAX
    }

    /// The layout of each slice.
    pub open spec fn layout(self) -> LayoutView {
        LayoutView {
            image_width: self.image_width,
            slice_length: self.slice_length(),
            color_byte_size: self.color_byte_size,
        }
    }
}

/// A plan for cutting an image into slices of equal height.
#[derive(Clone, Copy, Debug)]
pub struct SlicePlan {
    image_width: usize,
    image_height: usize,
    color_byte_size: usize,
    slice_count: usize,
    slice_height: usize,
    slice_length: usize,
}

impl View for SlicePlan {
    type V = PlanView;

    closed spec fn view(&self) -> PlanView {
        PlanView {
            image_width: self.image_width as nat,
            image_height: self.image_height as nat,
            color_byte_size: self.color_byte_size as nat,
            slice_count: self.slice_count as nat,
        }
    }
}

impl SlicePlan {
    #[verifier::type_invariant]
    spec fn consistent(&self) -> bool {
        &&& self@.admissible(false)
        &&& self.slice_height == self@.slice_height()
        &&& self.slice_length == self@.slice_length()
    }

    /// The plan for an image of `image_width` by `image_height` pixels of
    /// `color_byte_size` bytes, cut into `slice_count` slices; `None` where
    /// the plan is not admissible.
    pub fn new(
        image_width: usize,
        image_height: usize,
        color_byte_size: usize,
        slice_count: usize,
        use_multithreading: bool,
    ) -> (r: Option<SlicePlan>)
        ensures
            r is Some <==> (PlanView {
                image_width: image_width as nat,
                image_height: image_height as nat,
                color_byte_size: color_byte_size as nat,
                slice_count: slice_count as nat,
            }).admissible(use_multithreading),
            r matches Some(plan) ==> plan@ == (PlanView {
                image_width: image_width as nat,
                image_height: image_height as nat,
                color_byte_size: color_byte_size as nat,
                slice_count: slice_count as nat,
            }),
    {
        if slice_count == 0 {
            return None;
        }
        if use_multithreading && image_height % slice_count != 0 {
            return None;
        }
        let pixels: usize = match image_width.checked_mul(image_height) {
            Some(n) => n,
            None => { return None; },
        };
        if pixels.checked_mul(color_byte_size).is_none() {
            return None;
        }
        let slice_height: usize = image_height / slice_count;
        proof {
            let v = PlanView {
                image_width: image_width as nat,
                image_height: image_height as nat,
                color_byte_size: color_byte_size as nat,
                slice_count: slice_count as nat,
            };
            lemma_slice_not_longer(v);
        }
        let slice_length: usize = image_width * slice_height * color_byte_size;
        Some(
            SlicePlan {
                image_width,
                image_height,
                color_byte_size,
                slice_count,
                slice_height,
                slice_length,
            },
        )
    }

    /// The number of slices.
    pub fn slice_count(&self) -> (r: usize)
        ensures
            r == self@.slice_count,
            r > 0,
    {
        proof {
            use_type_invariant(self);
        }
        self.slice_count
    }

    /// The number of rows in each slice.
    pub fn slice_height(&self) -> (r: usize)
        ensures
            r == self@.slice_height(),
    {
        proof {
            use_type_invariant(self);
        }
        self.slice_height
    }

    /// The number of bytes in each slice.
    pub fn slice_length(&self) -> (r: usize)
        ensures
            r == self@.slice_length(),
    {
        proof {
            use_type_invariant(self);
        }
        self.slice_length
    }

    /// The number of bytes in the image.
    pub fn image_length(&self) -> (r: usize)
        ensures
            r == self@.image_length(),
    {
        proof {
            use_type_invariant(self);
        }
        self.image_width * self.image_height * self.color_byte_size
    }

    /// The first row of slice `index`.
    pub fn start_row(&self, index: usize) -> (r: usize)
        requires
            index < self@.slice_count,
        ensures
            r == self@.start_row(index as nat),
            r + self@.slice_height() <= self@.image_height,
    {
        proof {
            use_type_invariant(self);
            lemma_slice_rows_inside(self@, index as nat);
        }
        index * self.slice_height
    }

    /// The place of the first byte of slice `index` in the image.
    pub fn byte_offset(&self, index: usize) -> (r: usize)
        requires
            index < self@.slice_count,
        ensures
            r == self@.byte_offset(index as nat),
            r + self@.slice_length() <= self@.image_length(),
    {
        proof {
            use_type_invariant(self);
            lemma_slice_inside_image(self@, index as nat);
        }
        index * self.slice_length
    }

    /// The layout of each slice, or `None` where no pixel could be placed
    /// in one.
    pub fn layout(&self) -> (r: Option<SliceLayout>)
        ensures
            r is Some <==> self@.layout().usable(),
            r matches Some(layout) ==> layout@ == self@.layout(),
    {
        proof {
            use_type_invariant(self);
        }
        SliceLayout::new(self.image_width, self.slice_length, self.color_byte_size)
    }

    /// An image with every byte zero.
    pub fn blank_image(&self) -> (img: Vec<u8>)
        ensures
            img.len() == self@.image_length(),
            forall|t: int| 0 <= t < img.len() ==> #[trigger] img[t] == 0,
    {
        let n: usize = self.image_length();
        let img: Vec<u8> = vec![0u8; n];
        img
    }

    /// Copies the rendered slice `index` to its place in the image; every
    /// byte outside that place stays.
    pub fn place_slice(&self, img: &mut Vec<u8>, index: usize, slice: &[u8])
        requires
            old(img).len() == self@.image_length(),
            slice.len() == self@.slice_length(),
            index < self@.slice_count,
        ensures
            final(img)@ == overwritten(old(img)@, self@.byte_offset(index as nat) as int, slice@),
    {
        let i1: usize = self.byte_offset(index);
        overwrite(img, i1, slice);
    }
}

/// A slice is never longer than the image.
pub proof fn lemma_slice_not_longer(v: PlanView)
    requires
        v.slice_count > 0,
    ensures
        v.slice_height() <= v.image_height,
        v.image_width * v.slice_height() <= v.image_width * v.image_height,
        v.slice_length() <= v.image_length(),
{
    let (w, h, c, n) = (
        v.image_width as int,
        v.image_height as int,
        v.color_byte_size as int,
        v.slice_count as int,
    );
    let sh = h / n;
    lemma_fundamental_div_mod(h, n);
    lemma_mod_bound(h, n);
    assert(sh <= h) by (nonlinear_arith)
        requires
            h == n * sh + h % n,
            0 <= h % n,
            n > 0,
            sh >= 0,
    ;
    assert(w * sh <= w * h) by (nonlinear_arith)
        requires
            0 <= sh <= h,
            w >= 0,
    ;
    assert(w * sh * c <= w * h * c) by (nonlinear_arith)
        requires
            0 <= w * sh <= w * h,
            c >= 0,
    ;
}

/// The rows of every slice lie inside the image.
pub proof fn lemma_slice_rows_inside(v: PlanView, index: nat)
    requires
        index < v.slice_count,
    ensures
        v.start_row(index) + v.slice_height() <= v.image_height,
{
    let (h, n, i) = (v.image_height as int, v.slice_count as int, index as int);
    let sh = h / n;
    lemma_fundamental_div_mod(h, n);
    lemma_mod_bound(h, n);
    assert(i * sh + sh <= h) by (nonlinear_arith)
        requires
            h == n * sh + h % n,
            0 <= h % n,
            0 <= i < n,
            sh >= 0,
    ;
}

/// The bytes of every slice lie inside the image.
pub proof fn lemma_slice_inside_image(v: PlanView, index: nat)
    requires
        index < v.slice_count,
    ensures
        v.byte_offset(index) + v.slice_length() <= v.image_length(),
{
    lemma_slice_rows_inside(v, index);
    let (w, h, c, i) = (
        v.image_width as int,
        v.image_height as int,
        v.color_byte_size as int,
        index as int,
    );
    let sh = v.slice_height() as int;
    assert(i * (w * sh * c) + w * sh * c <= w * h * c) by (nonlinear_arith)
        requires
            i * sh + sh <= h,
            w >= 0,
            c >= 0,
            i >= 0,
            sh >= 0,
    ;
}

/// Two different slices share no byte of the image.
pub proof fn lemma_slices_disjoint(v: PlanView, first: nat, second: nat)
    requires
        first < second,
    ensures
        v.byte_offset(first) + v.slice_length() <= v.byte_offset(second),
{
    let (a, b, len) = (first as int, second as int, v.slice_length() as int);
    assert(a * len + len <= b * len) by (nonlinear_arith)
        requires
            a + 1 <= b,
            len >= 0,
    ;
}

/// Where the slices divide the rows evenly, they cover the whole image.
pub proof fn lemma_even_split_covers(v: PlanView)
    requires
        v.slice_count > 0,
        v.image_height % v.slice_count == 0,
    ensures
        v.slice_count * v.slice_height() == v.image_height,
        v.slice_count * v.slice_length() == v.image_length(),
{
    let (w, h, c, n) = (
        v.image_width as int,
        v.image_height as int,
        v.color_byte_size as int,
        v.slice_count as int,
    );
    let sh = h / n;
    lemma_fundamental_div_mod(h, n);
    assert(n * (w * sh * c) == w * h * c) by (nonlinear_arith)
        requires
            h == n * sh,
    ;
}

/// The image is row-major whatever the number of slices: pixel `pixel` of
/// slice `index` lands where its column and its row in the image put it.
pub proof fn lemma_row_major(v: PlanView, index: nat, pixel: nat)
    requires
        v.image_width > 0,
    ensures
        v.byte_offset(index) + v.layout().byte_start(pixel) == ((v.start_row(index)
            + v.layout().row(pixel)) * v.image_width + v.layout().column(pixel))
            * v.color_byte_size,
{
    let (w, c, i, p) = (
        v.image_width as int,
        v.color_byte_size as int,
        index as int,
        pixel as int,
    );
    let sh = v.slice_height() as int;
    lemma_fundamental_div_mod(p, w);
    assert(i * (w * sh * c) + p * c == ((i * sh + p / w) * w + p % w) * c) by (nonlinear_arith)
        requires
            p == w * (p / w) + p % w,
    ;
}

/// Slices may arrive in any order: placing two different slices gives the
/// same image whichever goes first.
pub proof fn lemma_placing_commutes(
    v: PlanView,
    img: Seq<u8>,
    first: nat,
    a: Seq<u8>,
    second: nat,
    b: Seq<u8>,
)
    requires
        first != second,
        first < v.slice_count,
        second < v.slice_count,
        img.len() == v.image_length(),
        a.len() == v.slice_length(),
        b.len() == v.slice_length(),
    ensures
        overwritten(
            overwritten(img, v.byte_offset(first) as int, a),
            v.byte_offset(second) as int,
            b,
        ) == overwritten(
            overwritten(img, v.byte_offset(second) as int, b),
            v.byte_offset(first) as int,
            a,
        ),
{
    lemma_slice_inside_image(v, first);
    lemma_slice_inside_image(v, second);
    if first < second {
        lemma_slices_disjoint(v, first, second);
    } else {
        lemma_slices_disjoint(v, second, first);
    }
    assert(overwritten(
        overwritten(img, v.byte_offset(first) as int, a),
        v.byte_offset(second) as int,
        b,
    ) =~= overwritten(
        overwritten(img, v.byte_offset(second) as int, b),
        v.byte_offset(first) as int,
        a,
    ));
}

} // verus!
