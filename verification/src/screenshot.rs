//! Screenshots arrive as base64 text holding an encoded image. The library
//! holds a decoded screenshot as a `Frame`: its width, its height and its
//! RGBA bytes, row by row.

use vstd::prelude::*;

verus! {

#[verifier::external_type_specification]
#[verifier::external_body]
pub struct ExImageError(image::ImageError);

#[verifier::external_type_specification]
#[verifier::external_body]
pub struct ExDecodeError(base64::DecodeError);

/// The bytes that a text decodes to under the standard base64 alphabet
/// with padding, or `None` where the text is not such base64.
pub uninterp spec fn base64_decoded(text: Seq<char>) -> Option<Seq<u8>>;

/// The image that the image library reads from encoded bytes (in the
/// format it guesses from them), as its width, height and RGBA bytes row
/// by row; `None` where it cannot read them.
pub uninterp spec fn decoded_rgba(bytes: Seq<u8>) -> Option<(u32, u32, Seq<u8>)>;

/// `base64::engine::general_purpose::STANDARD.decode`: the bytes the text
/// stands for, or the decoding error. The decoding itself is named, not
/// spelled out.
#[verifier::external_body]
fn decode_base64(text: &str) -> (r: Result<Vec<u8>, base64::DecodeError>)
    ensures
        match r {
            Ok(bytes) => base64_decoded(text@) == Some(bytes@),
            Err(_) => base64_decoded(text@) is None,
        },
{
    base64::Engine::decode(&base64::engine::general_purpose::STANDARD, text)
}

/// `image::load_from_memory`, the result converted by `to_rgba8`: the
/// image's width, height and RGBA bytes (exactly four per pixel), or the
/// reading error. The decoding itself is named, not spelled out.
#[verifier::external_body]
fn read_rgba(bytes: &[u8]) -> (r: Result<(u32, u32, Vec<u8>), image::ImageError>)
    ensures
        match r {
            Ok((w, h, p)) => decoded_rgba(bytes@) == Some((w, h, p@)) && p@.len() == 4 * w * h,
            Err(_) => decoded_rgba(bytes@) is None,
        },
{
    match image::load_from_memory(bytes) {
        Ok(img) => {
            let b = img.to_rgba8();
            Ok((b.width(), b.height(), b.into_raw()))
        },
        Err(e) => Err(e),
    }
}

/// A decoded image: width, height and RGBA bytes, row by row, four bytes
/// per pixel.
pub struct Frame {
    width: u32,
    height: u32,
    rgba: Vec<u8>,
}

impl View for Frame {
    type V = (u32, u32, Seq<u8>);

    closed spec fn view(&self) -> (u32, u32, Seq<u8>) {
        (self.width, self.height, self.rgba@)
    }
}

/// The bytes of a `w` x `h` RGBA image: four per pixel.
pub open spec fn rgba_sized(w: u32, h: u32, p: Seq<u8>) -> bool {
    p.len() == 4 * w * h
}

impl Frame {
    #[verifier::type_invariant]
    spec fn sized(self) -> bool {
        rgba_sized(self.width, self.height, self.rgba@)
    }

    /// The frame of a `width` x `height` image with these RGBA bytes, or
    /// `None` when they are not four bytes per pixel.
    pub fn new(width: u32, height: u32, rgba: Vec<u8>) -> (r: Option<Frame>)
        ensures
            match r {
                Some(f) => f@ == (width, height, rgba@),
                None => !rgba_sized(width, height, rgba@),
            },
    {
        proof {
            assert(width as int * height as int <= 0xffff_ffff * 0xffff_ffff) by (nonlinear_arith)
                requires
                    width <= 0xffff_ffffu32,
                    height <= 0xffff_ffffu32,
            ;
        }
        let wh: u64 = width as u64 * height as u64;
        assert(4 * (wh as int) == 4 * width * height) by (nonlinear_arith)
            requires
                wh == width * height,
        ;
        if rgba.len() as u128 == 4 * (wh as u128) {
            Some(Frame { width, height, rgba })
        } else {
            None
        }
    }

    pub fn width(&self) -> (r: u32)
        ensures
            r == self@.0,
    {
        self.width
    }

    pub fn height(&self) -> (r: u32)
        ensures
            r == self@.1,
    {
        self.height
    }

    /// The RGBA bytes, four per pixel.
    pub fn rgba(&self) -> (r: &Vec<u8>)
        ensures
            r@ == self@.2,
            rgba_sized(self@.0, self@.1, r@),
    {
        proof {
            use_type_invariant(self);
        }
        &self.rgba
    }
}

/// Why a screenshot could not be read.
pub enum ScreenshotError {
    /// The text is not base64.
    Base64(base64::DecodeError),
    /// The decoded bytes are not a readable image.
    Image(image::ImageError),
}

/// Decodes a base64-encoded screenshot into a frame.
pub fn decode_screenshot(base64_data: &str) -> (r: Result<Frame, ScreenshotError>)
    ensures
        match r {
            Ok(f) => base64_decoded(base64_data@) matches Some(b) && decoded_rgba(b) == Some(f@),
            Err(ScreenshotError::Base64(_)) => base64_decoded(base64_data@) is None,
            Err(ScreenshotError::Image(_)) => base64_decoded(base64_data@) matches Some(b) && decoded_rgba(b) is None,
        },
{
    match decode_base64(base64_data) {
        Err(e) => Err(ScreenshotError::Base64(e)),
        Ok(bytes) => match read_rgba(bytes.as_slice()) {
            Ok((w, h, p)) => Ok(Frame { width: w, height: h, rgba: p }),
            Err(e) => Err(ScreenshotError::Image(e)),
        },
    }
}

} // verus!
