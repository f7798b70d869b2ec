//! Turning a rendered texture into a tightly packed RGBA8 pixel buffer.

use vstd::prelude::*;
use crate::texture::{Texture, TextureFormat};

verus! {

/// Bytes per RGBA8 pixel.
pub const BYTES_PER_PIXEL: u32 = 4;

/// The boundary to which a texture-to-buffer copy aligns each row.
pub const COPY_BYTES_PER_ROW_ALIGNMENT: u32 = 256;

/// Why a readback failed.
#[derive(Clone, Copy, Debug, PartialEq, Eq, Structural)]
pub enum ReadbackError {
    /// The texture's format is neither copyable nor convertible.
    UnsupportedFormat,
    /// The staging buffer could not be mapped for host reads.
    Mapping,
}

/// The tight byte count of one row of `width` pixels.
pub open spec fn row_bytes(width: int) -> int {
    width * 4
}

/// The byte count of one row in the staging buffer: the least multiple of the
/// copy alignment that holds a row of `width` pixels.
pub open spec fn padded_row_bytes(width: int) -> int {
    ((row_bytes(width) + 255) / 256) * 256
}

/// Whether the padded stride of a row of `width` pixels can be computed in 32 bits.
pub open spec fn stride_fits(width: int) -> bool {
    row_bytes(width) + 255 <= u32::MAX
}

/// The padded stride is a multiple of the alignment, holds the row, and no
/// smaller multiple does.
pub proof fn lemma_padded_row_bytes(width: int)
    requires
        0 <= width,
    ensures
        padded_row_bytes(width) % 256 == 0,
        row_bytes(width) <= padded_row_bytes(width) < row_bytes(width) + 256,
        row_bytes(width) % 256 == 0 ==> padded_row_bytes(width) == row_bytes(width),
{
}

/// Computes the number of bytes per row of a copyable texture in a staging
/// buffer, padding included.
pub fn padded_bytes_per_row(texture: &Texture) -> (r: Result<u32, ReadbackError>)
    requires
        stride_fits(texture.width as int),
    ensures
        texture.format.copyable() ==> r == Ok::<u32, ReadbackError>(
            padded_row_bytes(texture.width as int) as u32,
        ),
        !texture.format.copyable() ==> r == Err::<u32, ReadbackError>(
            ReadbackError::UnsupportedFormat,
        ),
{
    if !texture.format.is_copyable() {
        return Err(ReadbackError::UnsupportedFormat);
    }
    let unaligned: u32 = texture.width * BYTES_PER_PIXEL;
    let padded: u32 = ((unaligned + (COPY_BYTES_PER_ROW_ALIGNMENT - 1))
        / COPY_BYTES_PER_ROW_ALIGNMENT) * COPY_BYTES_PER_ROW_ALIGNMENT;
    Ok(padded)
}

/// The pixel bytes of an image of `width` by `height` pixels whose rows lie
/// `stride` bytes apart in `data`: byte `i` of row `r` is `data[r * stride + i]`,
/// and what follows the first `width * 4` bytes of a row is left out.
pub open spec fn packed_pixels(data: Seq<u8>, width: int, height: int, stride: int) -> Seq<u8> {
    Seq::new(
        (height * row_bytes(width)) as nat,
        |i: int| data[(i / row_bytes(width)) * stride + i % row_bytes(width)],
    )
}

/// Copies the first `width * 4` bytes of each of the `height` rows of `data`,
/// which lie `stride` bytes apart, into one tightly packed buffer.
pub fn strip_padding(data: &[u8], width: u32, height: u32, stride: u32) -> (out: Vec<u8>)
    requires
        row_bytes(width as int) <= stride,
        data@.len() == stride * height,
    ensures
        out@ == packed_pixels(data@, width as int, height as int, stride as int),
        out@.len() == width * height * 4,
{
    let row: usize = (width as usize) * 4;
    let step: usize = stride as usize;
    let total: usize = data.len();
    let mut out: Vec<u8> = Vec::new();
    let mut r: usize = 0;
    proof {
        assert(width * height * 4 == height * row_bytes(width as int)) by (nonlinear_arith);
    }
    while r < height as usize
        invariant
            r <= height,
            row == row_bytes(width as int),
            step == stride,
            row <= step,
            data@.len() == step * height,
            data@.len() == total,
            out@ == packed_pixels(data@, width as int, r as int, stride as int),
        decreases height - r,
    {
        proof {
            assert(step * r + step <= step * height) by (nonlinear_arith)
                requires
                    r < height,
                    0 <= step,
            ;
            assert(0 <= step * r) by (nonlinear_arith)
                requires
                    0 <= step,
                    0 <= r,
            ;
        }
        let start: usize = step * r;
        let chunk: &[u8] = vstd::slice::slice_subrange(data, start, start + row);
        let ghost before = out@;
        out.extend_from_slice(chunk);
        proof {
            let next = packed_pixels(data@, width as int, r + 1, stride as int);
            assert(r * row + row == (r + 1) * row) by (nonlinear_arith);
            assert(out@.len() == next.len());
            assert forall|i: int| 0 <= i < out@.len() implies out@[i] == next[i] by {
                if i < before.len() {
                    assert(before[i] == next[i]);
                } else {
                    let k = i - before.len();
                    assert(i / (row as int) == r && i % (row as int) == k) by (nonlinear_arith)
                        requires
                            i == r * row + k,
                            0 <= k < row,
                            0 <= r,
                    ;
                    assert(start == r * stride) by (nonlinear_arith)
                        requires
                            start == step * r,
                            step == stride,
                    ;
                    assert(out@[i] == chunk@[k]);
                }
            }
            assert(out@ =~= next);
        }
        r = r + 1;
    }
    out
}

/// What a texture-to-buffer copy of a copyable texture needs: the layout of
/// the staging buffer.
#[derive(Clone, Copy, Debug, PartialEq, Eq, Structural)]
pub struct ReadbackPlan {
    /// The padded stride: bytes from one row to the next.
    pub bytes_per_row: u32,
    /// The rows of the image.
    pub rows_per_image: u32,
    /// The size of the staging buffer in bytes.
    pub buffer_size: u64,
}

/// The size in bytes of the staging buffer for `width` by `height` pixels.
pub open spec fn staging_size(width: int, height: int) -> int {
    padded_row_bytes(width) * height
}

/// Lays out the staging buffer into which a copyable texture is copied.
pub fn plan_readback(texture: &Texture) -> (r: Result<ReadbackPlan, ReadbackError>)
    requires
        stride_fits(texture.width as int),
    ensures
        !texture.format.copyable() ==> r == Err::<ReadbackPlan, ReadbackError>(
            ReadbackError::UnsupportedFormat,
        ),
        texture.format.copyable() ==> r == Ok::<ReadbackPlan, ReadbackError>(
            (ReadbackPlan {
                bytes_per_row: padded_row_bytes(texture.width as int) as u32,
                rows_per_image: texture.height,
                buffer_size: staging_size(texture.width as int, texture.height as int) as u64,
            }),
        ),
        texture.format.copyable() ==> staging_size(texture.width as int, texture.height as int)
            <= u64::MAX,
{
    match padded_bytes_per_row(texture) {
        Err(e) => Err(e),
        Ok(stride) => {
            proof {
                assert(stride * texture.height <= u64::MAX) by (nonlinear_arith)
                    requires
                        0 <= stride <= u32::MAX,
                        0 <= texture.height <= u32::MAX,
                ;
            }
            let size: u64 = (stride as u64) * (texture.height as u64);
            Ok(ReadbackPlan { bytes_per_row: stride, rows_per_image: texture.height, buffer_size: size })
        },
    }
}

/// Reads the pixels of a copyable texture out of its mapped staging buffer:
/// `width * height * 4` bytes, row by row, without the padding that the copy
/// put behind each row. `mapped` is the whole staging buffer as the host
/// sees it, or `None` where it could not be mapped.
pub fn read_pixels(texture: &Texture, mapped: Option<&[u8]>) -> (r: Result<Vec<u8>, ReadbackError>)
    requires
        stride_fits(texture.width as int),
    ensures
        !texture.format.copyable() ==> r == Err::<Vec<u8>, ReadbackError>(
            ReadbackError::UnsupportedFormat,
        ),
        texture.format.copyable() && !mapping_complete(*texture, mapped) ==> r == Err::<
            Vec<u8>,
            ReadbackError,
        >(ReadbackError::Mapping),
        texture.format.copyable() && mapping_complete(*texture, mapped) ==> r is Ok
            && r->Ok_0@ == packed_pixels(
            mapped->Some_0@,
            texture.width as int,
            texture.height as int,
            padded_row_bytes(texture.width as int),
        ) && r->Ok_0@.len() == texture.width * texture.height * 4,
{
    let plan: ReadbackPlan = match plan_readback(texture) {
        Err(e) => { return Err(e); },
        Ok(plan) => plan,
    };
    match mapped {
        None => Err(ReadbackError::Mapping),
        Some(data) => {
            if data.len() as u64 != plan.buffer_size {
                return Err(ReadbackError::Mapping);
            }
            proof {
                lemma_padded_row_bytes(texture.width as int);
            }
            Ok(strip_padding(data, texture.width, texture.height, plan.bytes_per_row))
        },
    }
}

/// Whether `mapped` is the whole staging buffer of `texture`.
pub open spec fn mapping_complete(texture: Texture, mapped: Option<&[u8]>) -> bool {
    mapped matches Some(data) && data@.len() == staging_size(
        texture.width as int,
        texture.height as int,
    )
}

/// An image of RGBA8 pixels in host memory, tightly packed row by row.
#[derive(Debug)]
pub struct PixelImage {
    width: u32,
    height: u32,
    data: Vec<u8>,
}

impl PixelImage {
    /// The image holds at least the bytes of its `width * height` pixels.
    #[verifier::type_invariant]
    pub closed spec fn well_formed(&self) -> bool {
        4 * self.width * self.height <= self.data@.len()
    }

    pub closed spec fn spec_width(&self) -> u32 {
        self.width
    }

    pub closed spec fn spec_height(&self) -> u32 {
        self.height
    }

    /// The bytes of the image.
    pub closed spec fn view(&self) -> Seq<u8> {
        self.data@
    }

    /// Wraps `buf` as an image of `width` by `height` pixels. Gives `None`
    /// if `buf` is too short for that many pixels.
    pub fn from_raw(width: u32, height: u32, buf: Vec<u8>) -> (r: Option<PixelImage>)
        ensures
            r is Some <==> 4 * width * height <= buf@.len(),
            r matches Some(image) ==> image.spec_width() == width && image.spec_height() == height
                && image@ == buf@,
    {
        proof {
            assert(4 * width * height <= u128::MAX) by (nonlinear_arith)
                requires
                    0 <= width <= u32::MAX,
                    0 <= height <= u32::MAX,
            ;
            assert(4 * width * height == 4 * (width * height)) by (nonlinear_arith);
            assert(width * height <= u128::MAX) by (nonlinear_arith)
                requires
                    0 <= width <= u32::MAX,
                    0 <= height <= u32::MAX,
            ;
        }
        let needed: u128 = 4 * ((width as u128) * (height as u128));
        if needed <= buf.len() as u128 {
            Some(PixelImage { width, height, data: buf })
        } else {
            None
        }
    }

    pub fn width(&self) -> (r: u32)
        ensures
            r == self.spec_width(),
    {
        self.width
    }

    pub fn height(&self) -> (r: u32)
        ensures
            r == self.spec_height(),
    {
        self.height
    }

    /// The bytes of the image.
    pub fn as_raw(&self) -> (r: &Vec<u8>)
        ensures
            r@ == self@,
            4 * self.spec_width() * self.spec_height() <= r@.len(),
    {
        proof {
            use_type_invariant(self);
        }
        &self.data
    }

    /// Gives up the image for its bytes.
    pub fn into_raw(self) -> (r: Vec<u8>)
        ensures
            r@ == self@,
            4 * self.spec_width() * self.spec_height() <= r@.len(),
    {
        proof {
            use_type_invariant(&self);
        }
        self.data
    }
}

/// Turns a copyable texture, read back into `mapped`, into an image.
pub fn to_image(texture: &Texture, mapped: Option<&[u8]>) -> (r: Result<PixelImage, ReadbackError>)
    requires
        stride_fits(texture.width as int),
    ensures
        !texture.format.copyable() ==> r == Err::<PixelImage, ReadbackError>(
            ReadbackError::UnsupportedFormat,
        ),
        texture.format.copyable() && !mapping_complete(*texture, mapped) ==> r == Err::<
            PixelImage,
            ReadbackError,
        >(ReadbackError::Mapping),
        texture.format.copyable() && mapping_complete(*texture, mapped) ==> r is Ok
            && r->Ok_0.spec_width() == texture.width && r->Ok_0.spec_height() == texture.height
            && r->Ok_0@ == packed_pixels(
            mapped->Some_0@,
            texture.width as int,
            texture.height as int,
            padded_row_bytes(texture.width as int),
        ) && r->Ok_0@.len() == texture.width * texture.height * 4,
{
    match read_pixels(texture, mapped) {
        Err(e) => Err(e),
        Ok(pixels) => {
            proof {
                assert(4 * texture.width * texture.height == texture.width * texture.height * 4)
                    by (nonlinear_arith);
            }
            match PixelImage::from_raw(texture.width, texture.height, pixels) {
                Some(image) => Ok(image),
                None => Err(ReadbackError::Mapping),
            }
        },
    }
}

} // verus!
