//! The conversion of a picture into a weave pattern for a Jacquard-style
//! loom: decode, scale onto the canvas, reduce to intensities, stretch the
//! range, find the picture's columns, dither, enforce the float limits,
//! stamp the tabby binding, encode.

use vstd::prelude::*;
use crate::canvas::{
    canvas_of, computed_height, content_width_for, end_column, locate_content, place_on_canvas,
    planned_height, planned_width, start_column,
};
use crate::codec::{
    base64_decoded, base64_encoded, bytes_from_text, bytes_view, can_resample, container_of,
    decode_source, encode_pattern, resample, source_picture, text_from_bytes, LoomError,
    OutputFormat, ResampleFilter,
};
use crate::dither::{
    atkinson_dither, diffused, floyd_steinberg_dither, lemma_diffused_is_binary, ordered,
    ordered_4x4_dither,
};
use crate::grid::{cell_count, is_binary, is_raster, lemma_index_cell, ColorRaster, PixelBuffer};
use crate::tabby::{fitted_width, lemma_stamped_binary, loom_tabby, stamped};
use crate::tone::{extract_luminance, is_flat, lemma_uniform_is_flat, luminance, normalize_range, normalized};
use crate::weave::{
    enforce_weavability, enforced, lemma_enforced_binary, lemma_enforced_columns, standard_rules,
    WeaveRules,
};

verus! {

/// The way grayscale becomes black and white.
#[derive(Clone, Copy, Debug, PartialEq, Eq)]
pub enum Ditherer {
    /// Error diffusion with the weights 7, 3, 5, 1 sixteenths. The default.
    Atkinson,
    /// The same diffusion under its other name.
    FloydSteinberg,
    /// Thresholding against the ordered 4 x 4 matrix.
    Ordered4x4,
}

/// The settings of the loom that a pattern is made for.
#[derive(Clone, Copy, Debug)]
pub struct PatternSettings {
    /// The number of warp threads: the width of every pattern.
    pub loom_width: u32,
    /// The width of the tabby strips at the picture's two sides.
    pub tabby_width: usize,
    /// The width of the tabby strips at the canvas's two edges.
    pub selvedge_width: usize,
    /// How many pixels of a column must differ from white for the column to
    /// count as part of the picture.
    pub content_threshold: u32,
    pub ditherer: Ditherer,
    pub rules: WeaveRules,
}

/// A picture to convert, with everything the conversion needs to know.
#[derive(Clone, Debug)]
pub struct ConversionRequest {
    /// The encoded picture.
    pub source: Vec<u8>,
    /// The file extension that names the picture's format.
    pub extension: String,
    /// The width the picture is to have on the canvas.
    pub content_width: u32,
    pub filter: ResampleFilter,
    pub format: OutputFormat,
    pub settings: PatternSettings,
}

/// The settings the loom is run with unless told otherwise: selvedge strips
/// as wide as the tabby strips, a content threshold of ten pixels, error
/// diffusion, and the standing float limits.
pub open spec fn standard_settings(loom_width: u32, tabby_width: usize) -> PatternSettings {
    PatternSettings {
        loom_width,
        tabby_width,
        selvedge_width: tabby_width,
        content_threshold: 10,
        ditherer: Ditherer::Atkinson,
        rules: standard_rules(),
    }
}

impl PatternSettings {
    /// The settings the loom is run with unless told otherwise.
    pub fn standard(loom_width: u32, tabby_width: usize) -> (r: PatternSettings)
        ensures
            r == standard_settings(loom_width, tabby_width),
    {
        PatternSettings {
            loom_width,
            tabby_width,
            selvedge_width: tabby_width,
            content_threshold: 10,
            ditherer: Ditherer::Atkinson,
            rules: WeaveRules::standard(),
        }
    }
}

/// The container for a format tag: TIFF for `tiff`, PNG for anything else.
pub open spec fn format_of(tag: Seq<char>) -> OutputFormat {
    if tag == "tiff"@ {
        OutputFormat::Tiff
    } else {
        OutputFormat::Png
    }
}

impl OutputFormat {
    /// The container for a format tag: TIFF for `tiff`, PNG for anything
    /// else.
    pub fn from_tag(tag: &str) -> (r: OutputFormat)
        ensures
            r == format_of(tag@),
    {
        let given: String = tag.to_owned();
        let tiff: String = "tiff".to_owned();
        if given == tiff {
            OutputFormat::Tiff
        } else {
            OutputFormat::Png
        }
    }
}

impl LoomError {
    /// What the caller is told: for a picture without contrast the fixed
    /// text `Image is all white`.
    pub fn message(&self) -> (r: String)
        ensures
            r@ == (match *self {
                LoomError::Decode => "Image could not be read"@,
                LoomError::Degenerate => "Image is all white"@,
                LoomError::Encode => "Pattern could not be written"@,
            }),
    {
        match self {
            LoomError::Decode => "Image could not be read".to_owned(),
            LoomError::Degenerate => "Image is all white".to_owned(),
            LoomError::Encode => "Pattern could not be written".to_owned(),
        }
    }
}

/// A grayscale raster reduced to black and white by the chosen ditherer.
pub open spec fn dithered(s: Seq<u8>, width: int, height: int, ditherer: Ditherer) -> Seq<u8> {
    match ditherer {
        Ditherer::Ordered4x4 => ordered(s, width),
        _ => diffused(s, width, height, (width * height) as nat),
    }
}

/// Reduces a grayscale raster to black and white, in place, by the chosen
/// ditherer.
pub fn apply_dither(img: &mut Vec<u8>, width: u32, height: u32, ditherer: Ditherer)
    requires
        is_raster(old(img)@, width as int, height as int),
    ensures
        final(img)@ == dithered(old(img)@, width as int, height as int, ditherer),
        is_raster(final(img)@, width as int, height as int),
        is_binary(final(img)@),
{
    match ditherer {
        Ditherer::Atkinson => atkinson_dither(img, width, height),
        Ditherer::FloydSteinberg => floyd_steinberg_dither(img, width, height),
        Ditherer::Ordered4x4 => ordered_4x4_dither(img, width, height),
    }
}

/// The raster with the tabby strips at its two outer edges.
pub open spec fn selvedge_stamped(s: Seq<u8>, width: int, strip: int) -> Seq<u8> {
    let t = fitted_width(width, strip);
    stamped(s, width, t, width - t, strip)
}

/// Stamps the tabby binding at the two outer edges of the canvas, in place:
/// the first and the last `strip` columns of every row (the whole row where
/// the strip is wider than the canvas).
pub fn stamp_selvedge(img: &mut Vec<u8>, width: u32, height: u32, strip: usize)
    requires
        is_raster(old(img)@, width as int, height as int),
    ensures
        final(img)@ == selvedge_stamped(old(img)@, width as int, strip as int),
        is_raster(final(img)@, width as int, height as int),
        is_binary(old(img)@) ==> is_binary(final(img)@),
{
    let t: u32 = if strip <= width as usize {
        strip as u32
    } else {
        width
    };
    loom_tabby(img, width, height, t, width - t, strip);
}

/// The weave pattern of a picture of intensities, `content_width x height`,
/// on the loom's canvas; `None` where the canvas has no contrast.
pub open spec fn pattern_of(content: Seq<u8>, content_width: int, height: int, settings: PatternSettings) -> Option<Seq<u8>> {
    let width = settings.loom_width as int;
    let canvas = canvas_of(content, content_width, width, height);
    if is_flat(canvas) {
        None
    } else {
        let toned = normalized(canvas);
        let start = start_column(toned, width, height, settings.content_threshold as int);
        let end = end_column(toned, width, height, settings.content_threshold as int);
        let binary = dithered(toned, width, height, settings.ditherer);
        let bound = enforced(binary, width, settings.rules, settings.rules.passes as nat);
        let framed = stamped(bound, width, start, end, settings.tabby_width as int);
        Some(selvedge_stamped(framed, width, settings.selvedge_width as int))
    }
}

/// Makes the weave pattern of a picture of intensities. The picture is
/// placed at the top left of a white canvas as wide as the loom; the range
/// of the canvas is stretched; the picture's columns are located; the canvas
/// is dithered, the float limits are enforced, and the tabby binding is
/// stamped at the picture's sides and at the canvas's edges. The pattern is
/// as wide as the loom, as high as the picture, and black and white
/// throughout. A canvas without contrast gives `Degenerate`.
pub fn weave_pattern(content: &Vec<u8>, content_width: u32, height: u32, settings: &PatternSettings) -> (r: Result<PixelBuffer, LoomError>)
    requires
        is_raster(content@, content_width as int, height as int),
        content_width <= settings.loom_width,
        settings.loom_width * height <= usize::MAX,
    ensures
        match r {
            Ok(pattern) => {
                &&& pattern_of(content@, content_width as int, height as int, *settings) == Some(
                    pattern.pixels@,
                )
                &&& pattern.width == settings.loom_width
                &&& pattern.height == height
                &&& pattern.wf()
                &&& is_binary(pattern.pixels@)
            },
            Err(e) => e == LoomError::Degenerate && pattern_of(
                content@,
                content_width as int,
                height as int,
                *settings,
            ) is None,
        },
{
    let width = settings.loom_width;
    let mut pixels = place_on_canvas(content, content_width, height, width);
    if !normalize_range(&mut pixels) {
        return Err(LoomError::Degenerate);
    }
    let (start, end) = locate_content(&pixels, width, height, settings.content_threshold);
    apply_dither(&mut pixels, width, height, settings.ditherer);
    enforce_weavability(&mut pixels, width, height, &settings.rules);
    loom_tabby(&mut pixels, width, height, start, end, settings.tabby_width);
    stamp_selvedge(&mut pixels, width, height, settings.selvedge_width);
    Ok(PixelBuffer { width, height, pixels })
}

/// Every pattern is a raster as wide as the loom and as high as the
/// picture, and from dithering on every pixel of it is black or white.
pub proof fn lemma_pattern_is_binary_raster(content: Seq<u8>, content_width: int, height: int, settings: PatternSettings)
    requires
        0 <= height,
        pattern_of(content, content_width, height, settings) is Some,
    ensures
        is_raster(
            pattern_of(content, content_width, height, settings)->0,
            settings.loom_width as int,
            height,
        ),
        is_binary(pattern_of(content, content_width, height, settings)->0),
{
    let width = settings.loom_width as int;
    assert(0 <= width * height) by (nonlinear_arith)
        requires
            0 <= width,
            0 <= height,
    ;
    let toned = normalized(canvas_of(content, content_width, width, height));
    let start = start_column(toned, width, height, settings.content_threshold as int);
    let end = end_column(toned, width, height, settings.content_threshold as int);
    let binary = dithered(toned, width, height, settings.ditherer);
    assert(is_raster(toned, width, height));
    if settings.ditherer == Ditherer::Ordered4x4 {
        assert(is_binary(binary));
        assert(is_raster(binary, width, height));
    } else {
        lemma_diffused_is_binary(toned, width, height);
    }
    let bound = enforced(binary, width, settings.rules, settings.rules.passes as nat);
    lemma_enforced_columns(binary, width, height, settings.rules, settings.rules.passes as nat);
    lemma_enforced_binary(binary, width, height, settings.rules, settings.rules.passes as nat);
    let framed = stamped(bound, width, start, end, settings.tabby_width as int);
    lemma_stamped_binary(bound, width, height, start, end, settings.tabby_width as int);
    let t = fitted_width(width, settings.selvedge_width as int);
    lemma_stamped_binary(framed, width, height, t, width - t, settings.selvedge_width as int);
}

/// A picture of one colour that fills the loom's width, or a white picture
/// of any width, has no pattern: its canvas has no contrast.
pub proof fn lemma_uniform_picture_has_no_pattern(content: Seq<u8>, content_width: int, height: int, settings: PatternSettings)
    requires
        is_raster(content, content_width, height),
        content_width <= settings.loom_width,
        forall|i: int, j: int| 0 <= i < content.len() && 0 <= j < content.len() ==> content[i] == content[j],
        content_width == settings.loom_width || (forall|i: int| 0 <= i < content.len() ==> content[i] == 255u8),
    ensures
        pattern_of(content, content_width, height, settings) is None,
{
    let width = settings.loom_width as int;
    let canvas = canvas_of(content, content_width, width, height);
    assert(0 <= width * height) by (nonlinear_arith)
        requires
            0 <= width,
            0 <= height,
    ;
    assert forall|i: int, j: int| 0 <= i < canvas.len() && 0 <= j < canvas.len() implies canvas[i] == canvas[j] by {
        assert(width > 0) by (nonlinear_arith)
            requires
                0 < width * height,
                0 <= width,
        ;
        lemma_index_cell(width, height, i);
        lemma_index_cell(width, height, j);
        if i % width < content_width {
            crate::grid::lemma_cell_index(content_width, height, i % width, i / width);
        }
        if j % width < content_width {
            crate::grid::lemma_cell_index(content_width, height, j % width, j / width);
        }
    }
    lemma_uniform_is_flat(canvas);
}

/// What the conversion gives once the picture is scaled: the encoded
/// pattern, `Degenerate` for a picture without contrast, or `Encode`.
pub open spec fn finished(scaled_rgba: Seq<u8>, content_width: u32, height: u32, settings: PatternSettings, format: OutputFormat) -> Result<Seq<u8>, LoomError> {
    match pattern_of(luminance(scaled_rgba), content_width as int, height as int, settings) {
        None => Err(LoomError::Degenerate),
        Some(pattern) => container_of(pattern, settings.loom_width, height, format),
    }
}

/// The second half of a conversion: from the scaled picture to the encoded
/// pattern.
pub fn finish_conversion(scaled_rgba: &Vec<u8>, content_width: u32, height: u32, settings: &PatternSettings, format: OutputFormat) -> (r: Result<Vec<u8>, LoomError>)
    requires
        scaled_rgba@.len() == 4 * content_width * height,
        content_width <= settings.loom_width,
        settings.loom_width * height <= usize::MAX,
    ensures
        bytes_view(r) == finished(scaled_rgba@, content_width, height, *settings, format),
{
    assert(4 * content_width * height == 4 * (content_width * height)) by (nonlinear_arith);
    assert(0 <= content_width * height) by (nonlinear_arith)
        requires
            0 <= content_width,
            0 <= height,
    ;
    let gray = extract_luminance(scaled_rgba);
    match weave_pattern(&gray, content_width, height, settings) {
        Ok(pattern) => encode_pattern(&pattern, format),
        Err(e) => Err(e),
    }
}

/// The size the picture is scaled to, where the source holds a picture and
/// that size can be laid out: the width asked for (at most the loom's) and
/// the height that keeps the proportions.
pub open spec fn plan_of(source: Seq<u8>, extension: Seq<char>, requested_width: u32, loom_width: u32) -> Option<(u32, u32)> {
    match source_picture(source, extension) {
        None => None,
        Some((w, h, p)) => {
            let cw = planned_width(requested_width as int, loom_width as int);
            let ch = planned_height(w as int, h as int, cw);
            if ch > u32::MAX || loom_width * ch > usize::MAX {
                None
            } else if cw > 0 && ch > 0 && !can_resample(w, h, cw as u32, ch as u32) {
                None
            } else {
                Some((cw as u32, ch as u32))
            }
        },
    }
}

/// `out` is a possible outcome of converting the source: `Decode` where the
/// source holds no picture that can be laid out; otherwise what follows from
/// the picture scaled to the planned size, which is the picture itself
/// where it has that size already.
pub open spec fn may_convert_to(source: Seq<u8>, extension: Seq<char>, requested_width: u32, settings: PatternSettings, format: OutputFormat, out: Result<Seq<u8>, LoomError>) -> bool {
    match plan_of(source, extension, requested_width, settings.loom_width) {
        None => out == Err::<Seq<u8>, LoomError>(LoomError::Decode),
        Some((cw, ch)) => exists|scaled: Seq<u8>|
            is_scaled_from(source_picture(source, extension)->0, scaled, cw, ch) && out
                == #[trigger] finished(scaled, cw, ch, settings, format),
    }
}

/// `scaled` can be the picture scaled to `width x height`: it holds four
/// bytes for each cell, and it is the picture itself where the picture has
/// that size already.
pub open spec fn is_scaled_from(picture: (u32, u32, Seq<u8>), scaled: Seq<u8>, width: u32, height: u32) -> bool {
    &&& scaled.len() == 4 * width * height
    &&& picture.0 == width && picture.1 == height ==> scaled == picture.2
}

/// Converts a picture into the encoded weave pattern.
///
/// The source is decoded, scaled to the planned size with the chosen filter
/// and turned into a pattern as wide as the loom and as high as the scaled
/// picture, which is packed into the chosen container. The outcome is
/// `Decode` exactly where the source holds no picture that can be laid out;
/// otherwise it is what the scaled picture determines.
pub fn convert(request: &ConversionRequest) -> (r: Result<Vec<u8>, LoomError>)
    ensures
        may_convert_to(
            request.source@,
            request.extension@,
            request.content_width,
            request.settings,
            request.format,
            bytes_view(r),
        ),
{
    let loom_width = request.settings.loom_width;
    let picture = match decode_source(&request.source, request.extension.as_str()) {
        Ok(picture) => picture,
        Err(e) => {
            return Err(e);
        },
    };
    let content_width = content_width_for(request.content_width, loom_width);
    let height = match computed_height(picture.width, picture.height, content_width) {
        Some(height) => height,
        None => {
            return Err(LoomError::Decode);
        },
    };
    if cell_count(loom_width, height) as u128 > usize::MAX as u128 {
        return Err(LoomError::Decode);
    }
    let scaled: Vec<u8> = if content_width == 0 || height == 0 {
        assert(4 * content_width * height == 0) by (nonlinear_arith)
            requires
                content_width == 0 || height == 0,
        ;
        Vec::new()
    } else {
        match resample(&picture, content_width, height, request.filter) {
            Some(scaled) => scaled.rgba,
            None => {
                return Err(LoomError::Decode);
            },
        }
    };
    let r = finish_conversion(&scaled, content_width, height, &request.settings, request.format);
    assert(bytes_view(r) == finished(scaled@, content_width, height, request.settings, request.format));
    r
}

/// The outcome of a conversion with its container given as base64 text;
/// `Encode` where that text would be too long to hold.
pub open spec fn transport_text(converted: Result<Seq<u8>, LoomError>) -> Result<Seq<char>, LoomError> {
    match converted {
        Ok(bytes) => if bytes.len() <= usize::MAX / 2 {
            Ok(base64_encoded(bytes))
        } else {
            Err(LoomError::Encode)
        },
        Err(e) => Err(e),
    }
}

/// `out` is a possible outcome of a request made in text: `Decode` where
/// the text is not base64; otherwise a possible outcome of converting the
/// bytes, with the container given as base64 text (`Encode` where that text
/// would be too long to hold).
pub open spec fn may_render_to(text: Seq<char>, extension: Seq<char>, requested_width: u32, settings: PatternSettings, format: OutputFormat, out: Result<Seq<char>, LoomError>) -> bool {
    if base64_decoded(text) is None {
        out == Err::<Seq<char>, LoomError>(LoomError::Decode)
    } else {
        exists|converted: Result<Seq<u8>, LoomError>|
            rendering(
                base64_decoded(text).unwrap(),
                extension,
                requested_width,
                settings,
                format,
                converted,
                out,
            )
    }
}

/// The outcome `converted` of converting the source is possible, and `out`
/// is that outcome in transport text.
pub open spec fn rendering(source: Seq<u8>, extension: Seq<char>, requested_width: u32, settings: PatternSettings, format: OutputFormat, converted: Result<Seq<u8>, LoomError>, out: Result<Seq<char>, LoomError>) -> bool {
    may_convert_to(source, extension, requested_width, settings, format, converted) && out
        == transport_text(converted)
}

/// A result with its text taken as a sequence.
pub open spec fn text_view(r: Result<String, LoomError>) -> Result<Seq<char>, LoomError> {
    match r {
        Ok(t) => Ok(t@),
        Err(e) => Err(e),
    }
}

/// Converts a picture given as base64 text into the weave pattern, given as
/// base64 text, under the loom's standard settings and with the nearest
/// neighbour filter. `format` is `tiff` for a TIFF container; any other tag
/// gives PNG.
pub fn render_loom_request(b64_file: &str, file_extension: &str, loom_width: &u32, width: &u32, tabby_width: &usize, format: &str) -> (r: Result<String, LoomError>)
    ensures
        may_render_to(
            b64_file@,
            file_extension@,
            *width,
            standard_settings(*loom_width, *tabby_width),
            format_of(format@),
            text_view(r),
        ),
{
    let source = match bytes_from_text(b64_file) {
        Some(source) => source,
        None => {
            return Err(LoomError::Decode);
        },
    };
    let request = ConversionRequest {
        source,
        extension: file_extension.to_owned(),
        content_width: *width,
        filter: ResampleFilter::Nearest,
        format: OutputFormat::from_tag(format),
        settings: PatternSettings::standard(*loom_width, *tabby_width),
    };
    let converted = convert(&request);
    let ghost witness = bytes_view(converted);
    let r = match converted {
        Ok(bytes) => match text_from_bytes(&bytes) {
            Some(text) => Ok(text),
            None => Err(LoomError::Encode),
        },
        Err(e) => Err(e),
    };
    proof {
        assert(base64_decoded(b64_file@).unwrap() == request.source@);
        assert(rendering(
            base64_decoded(b64_file@).unwrap(),
            file_extension@,
            *width,
            standard_settings(*loom_width, *tabby_width),
            format_of(format@),
            witness,
            text_view(r),
        ));
    }
    r
}

} // verus!
