//! Where pixels go: the byte layout of one slice of an image.

use vstd::prelude::*;

verus! {

/// The number of bytes that one stored pixel takes.
pub const PIXEL_BYTES: usize = 6;

/// The geometry of one horizontal slice of an image, as plain numbers.
pub struct LayoutView {
    pub image_width: nat,
    pub slice_length: nat,
    pub color_byte_size: nat,
}

impl LayoutView {
    /// The number of whole pixels that fit in the slice.
    pub open spec fn pixel_count(self) -> nat {
        self.slice_length / self.color_byte_size
    }

    /// A layout can hold pixels if its stride is positive and, unless the
    /// slice is too short for even one pixel, the stride is `PIXEL_BYTES`
    /// and the image has columns.
    pub open spec fn usable(self) -> bool {
        &&& self.color_byte_size > 0
        &&& self.pixel_count() > 0 ==> self.color_byte_size == PIXEL_BYTES && self.image_width
            > 0
    }

    /// The column of pixel `index`.
    pub open spec fn column(self, index: nat) -> nat {
        index % self.image_width
    }

    /// The row of pixel `index`, counted from the slice's first row.
    pub open spec fn row(self, index: nat) -> nat {
        index / self.image_width
    }

    /// The place of the first byte of pixel `index` in the slice.
    pub open spec fn byte_start(self, index: nat) -> nat {
        index * self.color_byte_size
    }
}

/// The byte layout of one horizontal slice: pixels in row-major order, each
/// `PIXEL_BYTES` long, in a buffer of `slice_length` bytes.
#[derive(Clone, Copy, Debug)]
pub struct SliceLayout {
    image_width: usize,
    slice_length: usize,
    color_byte_size: usize,
}

impl View for SliceLayout {
    type V = LayoutView;

    closed spec fn view(&self) -> LayoutView {
        LayoutView {
            image_width: self.image_width as nat,
            slice_length: self.slice_length as nat,
            color_byte_size: self.color_byte_size as nat,
        }
    }
}

/// `buffer` with the bytes from `start` on replaced by `bytes`.
pub open spec fn overwritten(buffer: Seq<u8>, start: int, bytes: Seq<u8>) -> Seq<u8> {
    buffer.subrange(0, start) + bytes + buffer.subrange(start + bytes.len(), buffer.len() as int)
}

/// Copies `bytes` over the bytes of `out` from `start` on; every other byte
/// stays.
pub fn overwrite(out: &mut Vec<u8>, start: usize, bytes: &[u8])
    requires
        start + bytes.len() <= old(out).len(),
    ensures
        final(out)@ == overwritten(old(out)@, start as int, bytes@),
{
    let ghost before = out@;
    let n: usize = bytes.len();
    let mut j: usize = 0;
    while j < n
        invariant
            j <= n,
            n == bytes.len(),
            start + n <= out.len(),
            out.len() == before.len(),
            forall|t: int| 0 <= t < start ==> out[t] == before[t],
            forall|t: int| start <= t < start + j ==> out[t] == bytes[t - start],
            forall|t: int| start + j <= t < out.len() ==> out[t] == before[t],
        decreases n - j,
    {
        out[start + j] = bytes[j];
        j = j + 1;
    }
    assert(out@ =~= overwritten(before, start as int, bytes@));
}

/// Whether `buffer` holds `pixels` one after the other from its start, and
/// zeros behind them.
pub open spec fn holds_pixels(buffer: Seq<u8>, pixels: Seq<[u8; 6]>) -> bool {
    &&& buffer.len() >= pixels.len() * PIXEL_BYTES
    &&& forall|p: int, j: int|
        0 <= p < pixels.len() && 0 <= j < PIXEL_BYTES ==> buffer[p * PIXEL_BYTES + j]
            == #[trigger] pixels[p][j]
    &&& forall|t: int| pixels.len() * PIXEL_BYTES <= t < buffer.len() ==> #[trigger] buffer[t] == 0
}

impl SliceLayout {
    #[verifier::type_invariant]
    spec fn usable(&self) -> bool {
        self@.usable()
    }

    /// The layout of a slice of `slice_length` bytes in an image
    /// `image_width` pixels wide, or `None` where no pixel could be placed
    /// in it.
    pub fn new(image_width: usize, slice_length: usize, color_byte_size: usize) -> (r: Option<
        SliceLayout,
    >)
        ensures
            r is Some <==> (LayoutView {
                image_width: image_width as nat,
                slice_length: slice_length as nat,
                color_byte_size: color_byte_size as nat,
            }).usable(),
            r matches Some(layout) ==> layout@ == (LayoutView {
                image_width: image_width as nat,
                slice_length: slice_length as nat,
                color_byte_size: color_byte_size as nat,
            }),
    {
        if color_byte_size == 0 {
            return None;
        }
        if slice_length / color_byte_size > 0 && (color_byte_size != PIXEL_BYTES || image_width
            == 0) {
            return None;
        }
        Some(SliceLayout { image_width, slice_length, color_byte_size })
    }

    /// The number of pixels in the slice.
    pub fn pixel_count(&self) -> (r: usize)
        ensures
            r == self@.pixel_count(),
            self@.usable(),
    {
        proof {
            use_type_invariant(self);
        }
        self.slice_length / self.color_byte_size
    }

    /// The number of bytes in the slice.
    pub fn slice_length(&self) -> (r: usize)
        ensures
            r == self@.slice_length,
    {
        self.slice_length
    }

    /// The column and the row in the image of pixel `color_index` of a slice
    /// whose first row is `min_py`.
    pub fn pixel_position(&self, color_index: usize, min_py: usize) -> (r: (usize, usize))
        requires
            color_index < self@.pixel_count(),
            min_py + self@.row(color_index as nat) <= usize::MAX,
        ensures
            r.0 == self@.column(color_index as nat),
            r.1 == min_py + self@.row(color_index as nat),
            r.0 < self@.image_width,
            (r.1 - min_py) * self@.image_width + r.0 == color_index,
    {
        proof {
            use_type_invariant(self);
            vstd::arithmetic::div_mod::lemma_fundamental_div_mod(
                color_index as int,
                self.image_width as int,
            );
            vstd::arithmetic::mul::lemma_mul_is_commutative(
                self.image_width as int,
                color_index as int / self.image_width as int,
            );
        }
        let px: usize = color_index % self.image_width;
        let py: usize = min_py + color_index / self.image_width;
        (px, py)
    }

    /// A slice with every byte zero.
    pub fn blank(&self) -> (out: Vec<u8>)
        ensures
            out.len() == self@.slice_length,
            forall|t: int| 0 <= t < out.len() ==> #[trigger] out[t] == 0,
    {
        let out: Vec<u8> = vec![0u8; self.slice_length];
        out
    }

    /// Writes the six bytes of pixel `color_index` into the slice; every
    /// other byte stays.
    pub fn put_pixel(&self, out: &mut Vec<u8>, color_index: usize, bytes: &[u8; 6])
        requires
            old(out).len() == self@.slice_length,
            color_index < self@.pixel_count(),
        ensures
            final(out)@ == overwritten(
                old(out)@,
                self@.byte_start(color_index as nat) as int,
                bytes@,
            ),
    {
        proof {
            use_type_invariant(self);
            self.lemma_pixel_fits(color_index as nat);
        }
        let i1: usize = color_index * self.color_byte_size;
        overwrite(out, i1, bytes.as_slice());
    }

    /// The slice that holds `pixels` in order, and zeros in what is left of
    /// its `slice_length` bytes.
    pub fn assemble(&self, pixels: &Vec<[u8; 6]>) -> (out: Vec<u8>)
        requires
            pixels.len() == self@.pixel_count(),
        ensures
            out.len() == self@.slice_length,
            holds_pixels(out@, pixels@),
    {
        let mut out: Vec<u8> = self.blank();
        let count: usize = pixels.len();
        proof {
            use_type_invariant(self);
            if count > 0 {
                self.lemma_pixel_fits((count - 1) as nat);
            }
        }
        let mut p: usize = 0;
        while p < count
            invariant
                p <= count,
                count * PIXEL_BYTES <= out.len(),
                count == pixels.len(),
                count == self@.pixel_count(),
                out.len() == self@.slice_length,
                forall|q: int, j: int|
                    0 <= q < p && 0 <= j < PIXEL_BYTES ==> out[q * PIXEL_BYTES + j]
                        == #[trigger] pixels[q][j],
                forall|t: int| p * PIXEL_BYTES <= t < out.len() ==> #[trigger] out[t] == 0,
            decreases count - p,
        {
            proof {
                use_type_invariant(self);
                self.lemma_pixel_fits(p as nat);
            }
            let ghost before = out@;
            self.put_pixel(&mut out, p, &pixels[p]);
            proof {
                let start = p * PIXEL_BYTES;
                assert forall|q: int, j: int|
                    0 <= q < p + 1 && 0 <= j < PIXEL_BYTES implies out[q * PIXEL_BYTES + j]
                    == #[trigger] pixels[q][j] by {
                    if q < p {
                        assert(out[q * PIXEL_BYTES + j] == before[q * PIXEL_BYTES + j]);
                    } else {
                        assert(out[start + j] == pixels[p as int]@[j]);
                    }
                }
            }
            p = p + 1;
        }
        out
    }

    /// Every pixel of the slice lies whole inside its `slice_length` bytes.
    pub proof fn lemma_pixel_fits(&self, index: nat)
        requires
            self@.usable(),
            index < self@.pixel_count(),
        ensures
            self@.color_byte_size == PIXEL_BYTES,
            self@.byte_start(index) + PIXEL_BYTES <= self@.slice_length,
    {
        let v = self@;
        vstd::arithmetic::div_mod::lemma_fundamental_div_mod(
            v.slice_length as int,
            v.color_byte_size as int,
        );
    }
}

} // verus!
