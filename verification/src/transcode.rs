use vstd::prelude::*;

use crate::errors::GlbError;

verus! {

// The raster decoder half of the texture transcoder: decode one
// encoded-image byte slice into an 8-bit RGBA raster and test that it suits
// a block compressor working on whole 4-by-4 pixel tiles. The decoder is an
// external collaborator behind one trusted wrapper. Its outcome is not a
// function of the input bytes alone — the image crate consults
// process-global decoder and format-detection hook registries that any code
// may extend at run time — so nothing names its result: the wrapper states
// only what holds of every outcome, and everything downstream takes the
// decoded raster as an argument. The block-compression encoder, the
// transcoder's other half, runs outside the library: the rebuild pass takes
// its output as an argument too and is verified for every value of it.

/// Relies on image::ImageReader::{new, with_guessed_format, decode} (the
/// format is sniffed from the bytes, never declared), then
/// image::DynamicImage::to_rgba8 and image::ImageBuffer::{width, height,
/// into_raw}: decode the bytes into an 8-bit RGBA raster holding exactly
/// four bytes per pixel. Whether the bytes decode at all may also depend on
/// the crate's global decoding and format-detection hooks, so only the
/// raster's shape is promised, never which inputs succeed.
#[verifier::external_body]
fn decode_rgba(data: &Vec<u8>) -> (r: Option<(u32, u32, Vec<u8>)>)
    ensures
        r matches Some(t) ==> t.2@.len() == 4 * t.0 * t.1,
{
    let reader = image::ImageReader::new(std::io::Cursor::new(data.as_slice()));
    let decoded = reader.with_guessed_format().ok()?.decode().ok()?;
    let raster = decoded.to_rgba8();
    let (width, height) = (raster.width(), raster.height());
    Some((width, height, raster.into_raw()))
}

/// Whether the decoded raster suits the block compressor: the compressor
/// consumes whole 4-by-4 pixel tiles, and the buffer sizes must stay within
/// 32-bit arithmetic.
pub open spec fn acceptable_raster(width: u32, height: u32) -> bool {
    &&& 0 < width
    &&& 0 < height
    &&& width % 4 == 0
    &&& height % 4 == 0
    &&& width * height + 15 <= u32::MAX
}

/// Decode the encoded image in `data` into its width, height and RGBA
/// raster, rejecting as `UndecodableAsset` any input the decoder cannot
/// read or whose raster the block compressor could not take. Every
/// successful result is a compressor-ready raster: acceptable dimensions
/// and exactly four bytes per pixel.
pub fn decode_asset(data: &Vec<u8>) -> (r: Result<(u32, u32, Vec<u8>), GlbError>)
    ensures
        r matches Ok(t) ==> acceptable_raster(t.0, t.1) && t.2@.len() == 4 * t.0 * t.1,
        r matches Err(e) ==> e == GlbError::UndecodableAsset,
{
    match decode_rgba(data) {
        None => Err(GlbError::UndecodableAsset),
        Some((width, height, rgba)) => {
            if width == 0 || height == 0 || width % 4 != 0 || height % 4 != 0 {
                return Err(GlbError::UndecodableAsset);
            }
            proof {
                assert((width as u64) * (height as u64) <= 0xFFFF_FFFFu64 * 0xFFFF_FFFFu64)
                    by (nonlinear_arith)
                    requires
                        width <= 0xFFFF_FFFFu64,
                        height <= 0xFFFF_FFFFu64,
                ;
            }
            let pixels: u64 = (width as u64) * (height as u64);
            if pixels > u32::MAX as u64 - 15 {
                return Err(GlbError::UndecodableAsset);
            }
            Ok((width, height, rgba))
        },
    }
}

} // verus!
