//! Decoding, scaling and re-encoding of images. The pixel work is done by the
//! `image` crate behind trusted wrappers; decoding and encoding are
//! deterministic functions of their inputs, so their results carry names that
//! the verified contracts speak of. The choice of the output dimensions is
//! the library's own and is verified.

use crate::config::SizeSpec;
use crate::errors::PipelineError;
use vstd::prelude::*;

verus! {

/// The dimensions `image::load_from_memory` reports for `data`: `None` when
/// the bytes do not decode. Decoding is a function of the bytes alone.
pub uninterp spec fn decoded_dims_of(data: Seq<u8>) -> Option<(u32, u32)>;

/// Whether decoding `data`, resampling the pixel grid to exactly
/// `width x height` with the Lanczos3 filter, and PNG-encoding the result
/// succeeds. The whole chain is deterministic in its three arguments.
pub uninterp spec fn thumb_ok_of(data: Seq<u8>, width: u32, height: u32) -> bool;

/// The PNG bytes that chain produces when it succeeds.
pub uninterp spec fn thumb_png_of(data: Seq<u8>, width: u32, height: u32) -> Seq<u8>;

/// Relies on image::load_from_memory, DynamicImage::width and
/// DynamicImage::height: the decoder reports failure as an error value, and
/// the reported dimensions depend on the bytes alone.
#[verifier::external_body]
fn decode_dims(data: &[u8]) -> (r: Option<(u32, u32)>)
    ensures
        r == decoded_dims_of(data@),
{
    match image::load_from_memory(data) {
        Ok(img) => Some((img.width(), img.height())),
        Err(_) => None,
    }
}

/// Relies on image::load_from_memory, DynamicImage::resize_exact with the
/// Lanczos3 filter, and DynamicImage::write_to with the PNG format: each is
/// deterministic in its inputs, failures come back as error values (an
/// undecodable buffer, an unsupported pixel format, an empty target grid),
/// and the resampler accepts any target bounds.
#[verifier::external_body]
fn scale_encode(data: &[u8], width: u32, height: u32) -> (r: Option<Vec<u8>>)
    ensures
        r is Some <==> thumb_ok_of(data@, width, height),
        r matches Some(b) ==> b@ == thumb_png_of(data@, width, height),
{
    let img = match image::load_from_memory(data) {
        Ok(img) => img,
        Err(_) => return None,
    };
    let scaled = img.resize_exact(width, height, image::imageops::FilterType::Lanczos3);
    let mut out = std::io::Cursor::new(Vec::new());
    match scaled.write_to(&mut out, image::ImageFormat::Png) {
        Ok(()) => Some(out.into_inner()),
        Err(_) => None,
    }
}

/// The height that keeps the source aspect ratio at the given target width:
/// `floor(source_height * target_width / source_width)`, saturated at
/// `u32::MAX`.
pub open spec fn scaled_height(source_width: int, source_height: int, target_width: int) -> int {
    let h = (source_height * target_width) / source_width;
    if h > u32::MAX {
        u32::MAX as int
    } else {
        h
    }
}

/// The bounds handed to the resampler: the target width as configured, and
/// the height derived from the source aspect ratio. The configured height is
/// never consulted.
pub fn resize_dims(source_width: u32, source_height: u32, target_width: u32) -> (r: (u32, u32))
    requires
        source_width >= 1,
    ensures
        r.0 == target_width,
        r.1 as int == scaled_height(source_width as int, source_height as int, target_width as int),
{
    proof {
        assert(source_height * target_width <= (u32::MAX as int) * (u32::MAX as int))
            by (nonlinear_arith)
            requires
                0 <= source_height <= u32::MAX,
                0 <= target_width <= u32::MAX,
        ;
    }
    let prod: u64 = (source_height as u64) * (target_width as u64);
    let h: u64 = prod / (source_width as u64);
    proof {
        assert(prod == source_height * target_width);
        assert(h == (source_height * target_width) / (source_width as int)) by {
            assert(prod as int / (source_width as u64) as int == prod as int / (source_width as int));
        }
    }
    if h > 0xffff_ffff {
        (target_width, 0xffff_ffff)
    } else {
        (target_width, h as u32)
    }
}

/// Everything the thumbnail step returns, as a function of the source bytes
/// and the target width alone: the error when the bytes do not decode (a grid
/// reported as empty counts as undecodable), the error when the re-encoding
/// chain fails, and otherwise the PNG of the grid scaled to the target width
/// at the source's aspect ratio.
pub open spec fn resize_outcome(data: Seq<u8>, target_width: u32) -> Result<
    Seq<u8>,
    PipelineError,
> {
    match decoded_dims_of(data) {
        None => Err(PipelineError::DecodeFailed),
        Some(dims) => {
            if dims.0 == 0 || dims.1 == 0 {
                Err(PipelineError::DecodeFailed)
            } else {
                let height = scaled_height(dims.0 as int, dims.1 as int, target_width as int);
                if thumb_ok_of(data, target_width, height as u32) {
                    Ok(thumb_png_of(data, target_width, height as u32))
                } else {
                    Err(PipelineError::EncodeFailed)
                }
            }
        },
    }
}

/// Decodes `data`, scales it to the configured target width — keeping the
/// source aspect ratio; the configured height is ignored — and encodes the
/// result as PNG. Succeeds exactly when the bytes decode to a nonempty grid
/// and the re-encoding chain accepts it; the result is `resize_outcome`.
pub fn resize_image(data: &[u8], config: &SizeSpec) -> (r: Result<Vec<u8>, PipelineError>)
    requires
        config.wf(),
    ensures
        r matches Ok(b) ==> resize_outcome(data@, config.target_width) == Ok::<
            Seq<u8>,
            PipelineError,
        >(b@),
        r matches Err(e) ==> resize_outcome(data@, config.target_width) == Err::<
            Seq<u8>,
            PipelineError,
        >(e),
{
    let dims = match decode_dims(data) {
        None => {
            return Err(PipelineError::DecodeFailed);
        },
        Some(d) => d,
    };
    if dims.0 == 0 || dims.1 == 0 {
        return Err(PipelineError::DecodeFailed);
    }
    let (width, height) = resize_dims(dims.0, dims.1, config.target_width);
    match scale_encode(data, width, height) {
        Some(buffer) => Ok(buffer),
        None => Err(PipelineError::EncodeFailed),
    }
}

/// The configured height never influences the thumbnail: the outcome is a
/// function of the source bytes and the target width alone, so two
/// configurations that agree on the width give the same result.
pub proof fn lemma_height_never_consulted(data: Seq<u8>, c1: SizeSpec, c2: SizeSpec)
    requires
        c1.target_width == c2.target_width,
    ensures
        resize_outcome(data, c1.target_width) == resize_outcome(data, c2.target_width),
{
}

} // verus!
