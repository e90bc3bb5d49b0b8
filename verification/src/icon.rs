use vstd::prelude::*;

verus! {

/// The RGBA pixels, width and height that
/// `image::load_from_memory(bytes)?.into_rgba8()` gives for an encoded
/// image, or nothing when the bytes do not decode.
pub uninterp spec fn spec_decode_rgba(bytes: Seq<u8>) -> Option<(Seq<u8>, u32, u32)>;

/// `image::load_from_memory` followed by `into_rgba8`: decodes an encoded
/// image (its format guessed from the bytes) into 8-bit RGBA pixels.  The
/// decoders' output is only named; a decoding error gives `None`.
#[verifier::external_body]
fn decode_rgba(bytes: &[u8]) -> (r: Option<(Vec<u8>, u32, u32)>)
    ensures
        match r {
            Some((px, w, h)) => spec_decode_rgba(bytes@) == Some((px@, w, h)),
            None => spec_decode_rgba(bytes@) is None,
        },
{
    match image::load_from_memory(bytes) {
        Ok(img) => {
            let rgba = img.into_rgba8();
            let (w, h) = rgba.dimensions();
            Some((rgba.into_raw(), w, h))
        },
        Err(_) => None,
    }
}

/// The pixels of the window icon, row by row, four bytes per pixel.
pub struct IconRgba {
    pub pixels: Vec<u8>,
    pub width: u32,
    pub height: u32,
}

/// Decodes the window icon's image file into RGBA pixels with their width
/// and height; `None` when the file does not decode.
pub fn decode_icon(bytes: &[u8]) -> (r: Option<IconRgba>)
    ensures
        match r {
            Some(icon) => spec_decode_rgba(bytes@) == Some((icon.pixels@, icon.width, icon.height)),
            None => spec_decode_rgba(bytes@) is None,
        },
{
    match decode_rgba(bytes) {
        Some((pixels, width, height)) => Some(IconRgba { pixels, width, height }),
        None => None,
    }
}

} // verus!
