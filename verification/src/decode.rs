use vstd::prelude::*;
use crate::gray::GrayImage;

verus! {

/// The grayscale decoding of an encoded image: its width, height and
/// row-major 8-bit luminance samples, or nothing when the bytes are
/// not a decodable image.  Decoding depends on the bytes alone.
pub uninterp spec fn luma8_of(bytes: Seq<u8>) -> Option<(u32, u32, Seq<u8>)>;

/// Relies on image::load_from_memory and image::DynamicImage::to_luma8:
/// decoding and grayscale conversion depend on the encoded bytes alone,
/// and the returned buffer is row-major with one byte per pixel, so it
/// holds exactly width * height bytes.
#[verifier::external_body]
fn decode_luma8(bytes: &[u8]) -> (r: Option<(u32, u32, Vec<u8>)>)
    ensures
        r is Some <==> luma8_of(bytes@) is Some,
        r matches Some((w, h, p)) ==> luma8_of(bytes@) == Some((w, h, p@)) && p@.len() == w * h,
{
    match image::load_from_memory(bytes) {
        Ok(img) => {
            let buf = img.to_luma8();
            let w = buf.width();
            let h = buf.height();
            Some((w, h, buf.into_raw()))
        },
        Err(_) => None,
    }
}

/// Why a frame's bytes yield no image to render.
#[derive(Debug)]
pub enum DecodeError {
    /// The bytes are not a decodable image.
    Undecodable,
    /// The decoded image has no pixels in one direction.
    Degenerate,
}

/// Decodes one frame's encoded bytes into a grayscale image ready to
/// render.  Succeeds exactly when the bytes decode to an image with at
/// least one pixel in each direction; the result then holds that
/// image's dimensions and luminance samples.
pub fn decode_frame(bytes: &[u8]) -> (r: Result<GrayImage, DecodeError>)
    ensures
        r matches Ok(img) ==> {
            &&& img.wf()
            &&& luma8_of(bytes@) == Some((img.width, img.height, img.pixels@))
        },
        r matches Err(e) ==> match e {
            DecodeError::Undecodable => luma8_of(bytes@) is None,
            DecodeError::Degenerate => luma8_of(bytes@) matches Some((w, h, _p)) && (w == 0
                || h == 0),
        },
        r is Ok <==> (luma8_of(bytes@) matches Some((w, h, _p)) && w >= 1 && h >= 1),
{
    match decode_luma8(bytes) {
        None => Err(DecodeError::Undecodable),
        Some((w, h, p)) => {
            if w >= 1 && h >= 1 {
                Ok(GrayImage { width: w, height: h, pixels: p })
            } else {
                Err(DecodeError::Degenerate)
            }
        },
    }
}

/// Renders one encoded frame: decodes the bytes to a grayscale image
/// and renders it as ASCII art at the given terminal size.  Succeeds
/// exactly when the bytes decode to an image with at least one pixel
/// in each direction; the output is then the rendering of that image.
pub fn image_to_ascii(bytes: &[u8], term_width: u16, term_height: u16) -> (r: Result<
    String,
    DecodeError,
>)
    requires
        term_width >= 1,
        term_height >= 1,
    ensures
        r matches Ok(s) ==> exists|img: GrayImage|
            {
                &&& #[trigger] img.wf()
                &&& luma8_of(bytes@) == Some((img.width, img.height, img.pixels@))
                &&& s@ == crate::render::spec_render(img, term_width, term_height)
            },
        r is Ok <==> (luma8_of(bytes@) matches Some((w, h, _p)) && w >= 1 && h >= 1),
        r matches Err(e) ==> match e {
            DecodeError::Undecodable => luma8_of(bytes@) is None,
            DecodeError::Degenerate => luma8_of(bytes@) matches Some((w, h, _p)) && (w == 0
                || h == 0),
        },
{
    match decode_frame(bytes) {
        Ok(img) => {
            let s = crate::render::render(&img, term_width, term_height);
            proof {
                assert(img.wf() && luma8_of(bytes@) == Some((img.width, img.height, img.pixels@))
                    && s@ == crate::render::spec_render(img, term_width, term_height));
            }
            Ok(s)
        },
        Err(e) => Err(e),
    }
}

} // verus!
