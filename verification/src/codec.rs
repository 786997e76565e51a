//! Picture containers and transport text: decoding, resampling and encoding
//! are done by the `image` and `base64` crates.

use vstd::prelude::*;
use crate::grid::{cell_count, ColorRaster, PixelBuffer};

verus! {

/// How a picture is scaled to its new size.
#[derive(Clone, Copy, Debug, PartialEq, Eq)]
pub enum ResampleFilter {
    /// Each new pixel takes the nearest old one. The default: it is fast and
    /// adds no intermediate tones.
    Nearest,
    /// The smooth Lanczos filter with window 3.
    Lanczos3,
}

/// The container the pattern is delivered in.
#[derive(Clone, Copy, Debug, PartialEq, Eq)]
pub enum OutputFormat {
    /// 8-bit grayscale TIFF.
    Tiff,
    /// Grayscale PNG. The default for any tag but `tiff`.
    Png,
}

/// Why a conversion gave no pattern.
#[derive(Clone, Copy, Debug, PartialEq, Eq)]
pub enum LoomError {
    /// The source could not be read as a picture of the declared format, has
    /// no area, or is too large to lay out.
    Decode,
    /// The picture has no contrast: there is nothing to weave. This is an
    /// outcome, not a fault.
    Degenerate,
    /// The container refused the pattern.
    Encode,
}

/// What `image` decodes from `bytes` read as the format that `extension`
/// names: width, height and the RGBA bytes; `None` where it reports an
/// error or does not know the extension.
pub uninterp spec fn decoded_rgba(bytes: Seq<u8>, extension: Seq<char>) -> Option<(u32, u32, Seq<u8>)>;

/// The container that `image` writes for a grayscale raster, as TIFF where
/// `tiff` holds and as PNG otherwise; `None` where it reports an error.
pub uninterp spec fn encoded_gray(pixels: Seq<u8>, width: u32, height: u32, tiff: bool) -> Option<Seq<u8>>;

/// The bytes that standard base64 text stands for; `None` for text that is
/// not valid base64.
pub uninterp spec fn base64_decoded(text: Seq<char>) -> Option<Seq<u8>>;

/// The standard base64 text of the bytes.
pub uninterp spec fn base64_encoded(bytes: Seq<u8>) -> Seq<char>;

/// Calls `image::io::Reader::decode` with the format that
/// `image::ImageFormat::from_extension` gives and without limits, and
/// converts the picture to 8-bit RGBA. Trusted: the result is the named
/// value `decoded_rgba` of the two arguments.
#[verifier::external_body]
fn decode_rgba(bytes: &Vec<u8>, extension: &str) -> (r: Option<(u32, u32, Vec<u8>)>)
    ensures
        match r {
            Some((w, h, p)) => decoded_rgba(bytes@, extension@) == Some((w, h, p@)),
            None => decoded_rgba(bytes@, extension@) is None,
        },
{
    let format = image::ImageFormat::from_extension(extension)?;
    let mut reader = image::io::Reader::with_format(std::io::Cursor::new(bytes.as_slice()), format);
    reader.no_limits();
    let picture = reader.decode().ok()?.into_rgba8();
    Some((picture.width(), picture.height(), picture.into_raw()))
}

/// Calls `image::imageops::resize` on an RGBA raster. Trusted: the result
/// holds four bytes for every cell of the new size, and a picture that
/// already has the new size is copied as it is. The values of a picture
/// that is scaled depend on the filter's floating-point arithmetic and are
/// not stated.
#[verifier::external_body]
fn resample_rgba(
    rgba: &Vec<u8>,
    width: u32,
    height: u32,
    new_width: u32,
    new_height: u32,
    filter: ResampleFilter,
) -> (r: Vec<u8>)
    requires
        rgba@.len() == 4 * width * height,
        width > 0,
        height > 0,
        new_width > 0,
        new_height > 0,
        16 * width * new_height <= isize::MAX,
        16 * new_width * new_height <= isize::MAX,
    ensures
        r@.len() == 4 * new_width * new_height,
        new_width == width && new_height == height ==> r@ == rgba@,
{
    let kind = match filter {
        ResampleFilter::Nearest => image::imageops::FilterType::Nearest,
        ResampleFilter::Lanczos3 => image::imageops::FilterType::Lanczos3,
    };
    let source: image::ImageBuffer<image::Rgba<u8>, &[u8]> =
        image::ImageBuffer::from_raw(width, height, rgba.as_slice()).unwrap();
    image::imageops::resize(&source, new_width, new_height, kind).into_raw()
}

/// Calls `image::DynamicImage::write_to` on a grayscale raster. Trusted: the
/// result is the named value `encoded_gray` of the arguments.
#[verifier::external_body]
fn encode_gray(pixels: &Vec<u8>, width: u32, height: u32, tiff: bool) -> (r: Option<Vec<u8>>)
    requires
        pixels@.len() == width * height,
        width > 0,
        height > 0,
    ensures
        match r {
            Some(b) => encoded_gray(pixels@, width, height, tiff) == Some(b@),
            None => encoded_gray(pixels@, width, height, tiff) is None,
        },
{
    let kind = if tiff {
        image::ImageOutputFormat::Tiff
    } else {
        image::ImageOutputFormat::Png
    };
    let picture = image::GrayImage::from_raw(width, height, pixels.clone())?;
    let mut buffer: Vec<u8> = Vec::new();
    image::DynamicImage::ImageLuma8(picture).write_to(&mut std::io::Cursor::new(&mut buffer), kind).ok()?;
    Some(buffer)
}

/// Calls `base64::Engine::decode` of the standard engine. Trusted: the
/// result is the named value `base64_decoded` of the text.
#[verifier::external_body]
fn base64_decode(text: &str) -> (r: Option<Vec<u8>>)
    ensures
        match r {
            Some(b) => base64_decoded(text@) == Some(b@),
            None => base64_decoded(text@) is None,
        },
{
    base64::Engine::decode(&base64::prelude::BASE64_STANDARD, text).ok()
}

/// Calls `base64::Engine::encode` of the standard engine. Trusted: the
/// result is the named value `base64_encoded` of the bytes.
#[verifier::external_body]
fn base64_encode(bytes: &Vec<u8>) -> (r: String)
    requires
        bytes@.len() <= usize::MAX / 2,
    ensures
        r@ == base64_encoded(bytes@),
{
    base64::Engine::encode(&base64::prelude::BASE64_STANDARD, bytes)
}

/// The picture that the source holds, where it holds one: the decoder gives
/// a raster with area and four bytes for each of its cells.
pub open spec fn source_picture(bytes: Seq<u8>, extension: Seq<char>) -> Option<(u32, u32, Seq<u8>)> {
    match decoded_rgba(bytes, extension) {
        Some((w, h, p)) => if w > 0 && h > 0 && p.len() == 4 * w * h {
            Some((w, h, p))
        } else {
            None
        },
        None => None,
    }
}

/// Decodes an encoded picture of the format that the file extension names.
/// Fails with `Decode` where the bytes are not a picture of that format, the
/// extension is unknown, or the picture has no area.
pub fn decode_source(bytes: &Vec<u8>, extension: &str) -> (r: Result<ColorRaster, LoomError>)
    ensures
        match r {
            Ok(raster) => raster.wf() && source_picture(bytes@, extension@) == Some(
                (raster.width, raster.height, raster.rgba@),
            ),
            Err(e) => e == LoomError::Decode && source_picture(bytes@, extension@) is None,
        },
{
    match decode_rgba(bytes, extension) {
        Some((width, height, rgba)) => {
            if width == 0 || height == 0 {
                return Err(LoomError::Decode);
            }
            let bytes_needed: u128 = 4 * (cell_count(width, height) as u128);
            assert(4 * width * height == 4 * (width * height)) by (nonlinear_arith);
            if rgba.len() as u128 != bytes_needed {
                return Err(LoomError::Decode);
            }
            Ok(ColorRaster { width, height, rgba })
        },
        None => Err(LoomError::Decode),
    }
}

/// The picture can be scaled to the new size: both sizes have area and the
/// buffers of the scaling fit in memory.
pub open spec fn can_resample(width: u32, height: u32, new_width: u32, new_height: u32) -> bool {
    &&& new_width > 0
    &&& new_height > 0
    &&& 16 * width * new_height <= isize::MAX
    &&& 16 * new_width * new_height <= isize::MAX
}

/// Scales a picture to `new_width x new_height` with the chosen filter; a
/// picture that has that size already is copied as it is. `None` where the
/// new size has no area or is too large to hold.
pub fn resample(raster: &ColorRaster, new_width: u32, new_height: u32, filter: ResampleFilter) -> (r: Option<ColorRaster>)
    requires
        raster.wf(),
    ensures
        r is Some == can_resample(raster.width, raster.height, new_width, new_height),
        match r {
            Some(scaled) => {
                &&& scaled.wf()
                &&& scaled.width == new_width
                &&& scaled.height == new_height
                &&& new_width == raster.width && new_height == raster.height ==> scaled.rgba@
                    == raster.rgba@
            },
            None => true,
        },
{
    if new_width == 0 || new_height == 0 {
        return None;
    }
    let tall: u128 = 16 * (cell_count(raster.width, new_height) as u128);
    let wide: u128 = 16 * (cell_count(new_width, new_height) as u128);
    assert(16 * raster.width * new_height == 16 * (raster.width * new_height)) by (nonlinear_arith);
    assert(16 * new_width * new_height == 16 * (new_width * new_height)) by (nonlinear_arith);
    assert(4 * new_width * new_height == 4 * (new_width * new_height)) by (nonlinear_arith);
    if tall > isize::MAX as u128 || wide > isize::MAX as u128 {
        return None;
    }
    let rgba = resample_rgba(&raster.rgba, raster.width, raster.height, new_width, new_height, filter);
    Some(ColorRaster { width: new_width, height: new_height, rgba })
}

/// Whether the format is TIFF.
pub open spec fn is_tiff(format: OutputFormat) -> bool {
    format == OutputFormat::Tiff
}

/// The encoded pattern as a value: the container's bytes, or `Encode` where
/// the raster has no area or the container refuses it.
pub open spec fn container_of(pixels: Seq<u8>, width: u32, height: u32, format: OutputFormat) -> Result<Seq<u8>, LoomError> {
    if width == 0 || height == 0 {
        Err(LoomError::Encode)
    } else {
        match encoded_gray(pixels, width, height, is_tiff(format)) {
            Some(b) => Ok(b),
            None => Err(LoomError::Encode),
        }
    }
}

/// A result with its bytes taken as a sequence.
pub open spec fn bytes_view(r: Result<Vec<u8>, LoomError>) -> Result<Seq<u8>, LoomError> {
    match r {
        Ok(b) => Ok(b@),
        Err(e) => Err(e),
    }
}

/// Packs a pattern into the chosen lossless container. Fails with `Encode`
/// where the pattern has no area or the container refuses it.
pub fn encode_pattern(pattern: &PixelBuffer, format: OutputFormat) -> (r: Result<Vec<u8>, LoomError>)
    requires
        pattern.wf(),
    ensures
        bytes_view(r) == container_of(pattern.pixels@, pattern.width, pattern.height, format),
{
    if pattern.width == 0 || pattern.height == 0 {
        return Err(LoomError::Encode);
    }
    let tiff = match format {
        OutputFormat::Tiff => true,
        OutputFormat::Png => false,
    };
    match encode_gray(&pattern.pixels, pattern.width, pattern.height, tiff) {
        Some(bytes) => Ok(bytes),
        None => Err(LoomError::Encode),
    }
}

/// Bytes from their base64 text; `None` for text that is not valid base64.
pub fn bytes_from_text(text: &str) -> (r: Option<Vec<u8>>)
    ensures
        match r {
            Some(b) => base64_decoded(text@) == Some(b@),
            None => base64_decoded(text@) is None,
        },
{
    base64_decode(text)
}

/// The base64 text of the bytes; `None` where the text would be too long to
/// hold.
pub fn text_from_bytes(bytes: &Vec<u8>) -> (r: Option<String>)
    ensures
        r is Some == (bytes@.len() <= usize::MAX / 2),
        match r {
            Some(t) => t@ == base64_encoded(bytes@),
            None => true,
        },
{
    if bytes.len() > usize::MAX / 2 {
        return None;
    }
    Some(base64_encode(bytes))
}

} // verus!
