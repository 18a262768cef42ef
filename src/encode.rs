use vstd::prelude::*;
use vstd::string::StringExecFns;
use crate::canvas::{Canvas, Color, canvas_pixels, canvas_width};

verus! {

/// The `image` crate's error, carried only until it is mapped to `RenderError`.
#[verifier::external_type_specification]
#[verifier::external_body]
pub struct ExImageError(image::ImageError);

/// Why an image could not be handed over.
#[derive(Debug, Clone, Copy, PartialEq, Eq, Structural)]
pub enum RenderError {
    /// The PNG encoder failed.
    Encoding,
}

/// The PNG file that the `image` crate writes for an RGBA8 raster with these
/// pixels, in rows of `width`.
pub uninterp spec fn png_of(pixels: Seq<Color>, width: nat) -> Seq<u8>;

/// Whether the `image` crate's PNG encoder accepts an RGBA8 raster with these
/// pixels, in rows of `width`; the outcome depends on the raster alone.
pub uninterp spec fn png_encodes(pixels: Seq<Color>, width: nat) -> bool;

/// Standard-alphabet base64 of the bytes, padded with `=`.
pub uninterp spec fn base64_of(bytes: Seq<u8>) -> Seq<char>;

/// Relies on `ImageBuffer::write_to` with `ImageFormat::Png` into an in-memory
/// cursor: whether it succeeds depends on the image alone, and on success the
/// buffer holds the PNG encoding of the image.
#[verifier::external_body]
fn encode_png(c: &Canvas) -> (r: Result<Vec<u8>, image::ImageError>)
    ensures
        r is Ok <==> png_encodes(canvas_pixels(*c), canvas_width(*c)),
        r is Ok ==> r->Ok_0@ == png_of(canvas_pixels(*c), canvas_width(*c)),
{
    let mut buffer: Vec<u8> = Vec::new();
    match c.img.write_to(&mut std::io::Cursor::new(&mut buffer), image::ImageFormat::Png) {
        Ok(()) => Ok(buffer),
        Err(e) => Err(e),
    }
}

/// Relies on `Engine::encode` of base64's `general_purpose::STANDARD` engine;
/// it panics when the encoded length overflows `usize`, which `requires` leaves out.
#[verifier::external_body]
fn base64_encode(bytes: &Vec<u8>) -> (r: String)
    requires
        bytes@.len() <= usize::MAX / 2,
    ensures
        r@ == base64_of(bytes@),
{
    base64::Engine::encode(&base64::engine::general_purpose::STANDARD, bytes)
}

/// The text that announces a base64 PNG in a data URI.
pub open spec fn png_uri_prefix() -> Seq<char> {
    "data:image/png;base64,"@
}

/// A PNG file as a data URI.
pub open spec fn data_uri_of(png: Seq<u8>) -> Seq<char> {
    png_uri_prefix() + base64_of(png)
}

/// The PNG encoder accepts the raster and its file fits a base64 text.
pub open spec fn data_uri_succeeds(pixels: Seq<Color>, width: nat) -> bool {
    png_encodes(pixels, width) && png_of(pixels, width).len() <= usize::MAX / 2
}

/// Wraps PNG bytes as `data:image/png;base64,<base64 of the bytes>`.
pub fn png_data_uri(png: &Vec<u8>) -> (r: String)
    requires
        png@.len() <= usize::MAX / 2,
    ensures
        r@ == data_uri_of(png@),
{
    let encoded = base64_encode(png);
    let mut uri = String::from_str("data:image/png;base64,");
    uri.append(encoded.as_str());
    uri
}

/// Encodes the canvas as a PNG data URI; the encoder's failure is the one
/// error that reaches the caller, besides a PNG too long to write as base64.
pub fn image_to_data_uri(c: &Canvas) -> (r: Result<String, RenderError>)
    ensures
        r is Ok <==> data_uri_succeeds(canvas_pixels(*c), canvas_width(*c)),
        r is Ok ==> r->Ok_0@ == data_uri_of(png_of(canvas_pixels(*c), canvas_width(*c))),
{
    match encode_png(c) {
        Ok(png) => {
            if png.len() > usize::MAX / 2 {
                return Err(RenderError::Encoding);
            }
            Ok(png_data_uri(&png))
        },
        Err(_) => Err(RenderError::Encoding),
    }
}

} // verus!
