use make::canvas::computed_height;
use make::codec::{
    bytes_from_text, decode_source, encode_pattern, resample, text_from_bytes, LoomError,
    OutputFormat, ResampleFilter,
};
use make::grid::{ColorRaster, PixelBuffer};
use make::loom::{
    apply_dither, convert, finish_conversion, render_loom_request, stamp_selvedge, weave_pattern,
    ConversionRequest, Ditherer, PatternSettings,
};
use make::tone::extract_luminance;
use make::weave::{columns_within_limit, WeaveRules};

fn sample_content() -> Vec<u8> {
    let mut content = Vec::new();
    for y in 0..12u32 {
        for x in 0..8u32 {
            content.push(((x * 17 + y * 29) % 200) as u8);
        }
    }
    content
}

fn sample_pattern() -> Vec<u8> {
    vec![
        0, 255, 0, 0, 255, 0, 255, 0, 0, 255, 0, 255, 255, 255, 0, 255, 255, 0, 0, 255, 0, 255, 0,
        255, 255, 0, 0, 255, 255, 255, 255, 0, 0, 255, 0, 255, 0, 255, 255, 0, 0, 255, 0, 255, 255,
        255, 0, 255, 255, 0, 0, 255, 0, 255, 255, 0, 255, 0, 255, 0, 0, 255, 255, 0, 0, 255, 0, 255,
        255, 255, 255, 0, 0, 255, 0, 255, 255, 0, 0, 255, 255, 0, 255, 0, 255, 0, 0, 0, 255, 0, 0, 0,
        255, 255, 255, 0, 0, 255, 255, 255, 0, 0, 0, 255, 0, 255, 0, 255, 255, 255, 0, 255, 255, 0,
        0, 0, 0, 255, 0, 255, 255, 0, 255, 255, 255, 255, 255, 0, 0, 255, 0, 255, 0, 255, 0, 255, 0,
        255, 255, 255, 0, 255, 0, 255, 255, 0, 0, 255, 0, 255, 255, 0, 255, 0, 255, 255, 255, 0, 255,
        0, 0, 255, 0, 255, 0, 255, 255, 255, 0, 255, 255, 0, 255, 255, 0, 255, 255, 0, 0, 255, 255,
        0, 255, 255, 255, 0, 0, 255, 255, 255, 255, 0,
    ]
}

fn gray_png(pixels: Vec<u8>, width: u32, height: u32) -> Vec<u8> {
    encode_pattern(&PixelBuffer { width, height, pixels }, OutputFormat::Png).unwrap()
}

fn gradient(width: u32, height: u32) -> Vec<u8> {
    let mut pixels = Vec::new();
    for y in 0..height {
        for x in 0..width {
            pixels.push(((x * 255) / (width - 1) / 2 + (y * 255) / (height - 1) / 2) as u8);
        }
    }
    pixels
}

#[test]
fn pattern_of_a_small_picture() {
    let settings = PatternSettings::standard(16, 2);
    let pattern = weave_pattern(&sample_content(), 8, 12, &settings).unwrap();
    assert_eq!(pattern.width, 16);
    assert_eq!(pattern.height, 12);
    assert_eq!(pattern.pixels, sample_pattern());
}

#[test]
fn pattern_is_as_wide_as_the_loom_and_as_high_as_the_picture() {
    let settings = PatternSettings::standard(40, 5);
    let content = gradient(25, 17);
    let pattern = weave_pattern(&content, 25, 17, &settings).unwrap();
    assert_eq!((pattern.width, pattern.height), (40, 17));
    assert_eq!(pattern.pixels.len(), 40 * 17);
    assert!(pattern.pixels.iter().all(|p| *p == 0 || *p == 255));
}

#[test]
fn pattern_carries_the_tabby_at_the_edges() {
    let settings = PatternSettings::standard(40, 5);
    let content = gradient(40, 9);
    let pattern = weave_pattern(&content, 40, 9, &settings).unwrap();
    for y in 0..9usize {
        let row = &pattern.pixels[y * 40..(y + 1) * 40];
        let expected: [u8; 5] = if y % 2 == 0 { [0, 255, 0, 255, 0] } else { [255, 0, 255, 0, 255] };
        assert_eq!(&row[..5], &expected);
        assert_eq!(&row[35..], &expected);
    }
}

#[test]
fn uniform_picture_has_no_pattern() {
    let settings = PatternSettings::standard(10, 2);
    let content = vec![90u8; 10 * 4];
    assert_eq!(weave_pattern(&content, 10, 4, &settings).err(), Some(LoomError::Degenerate));
    let white = vec![255u8; 6 * 4];
    assert_eq!(weave_pattern(&white, 6, 4, &settings).err(), Some(LoomError::Degenerate));
    let empty: Vec<u8> = Vec::new();
    assert_eq!(weave_pattern(&empty, 0, 4, &settings).err(), Some(LoomError::Degenerate));
    assert_eq!(weave_pattern(&empty, 5, 0, &settings).err(), Some(LoomError::Degenerate));
}

#[test]
fn uniform_gray_picture_beside_white_canvas_has_a_pattern() {
    let settings = PatternSettings::standard(10, 2);
    let content = vec![90u8; 6 * 4];
    assert!(weave_pattern(&content, 6, 4, &settings).is_ok());
}

#[test]
fn chosen_ditherer_is_applied() {
    let source: Vec<u8> = (0..48).map(|i| ((i * 5) % 256) as u8).collect();
    let mut a = source.clone();
    apply_dither(&mut a, 8, 6, Ditherer::Ordered4x4);
    let mut b = source.clone();
    make::dither::ordered_4x4_dither(&mut b, 8, 6);
    assert_eq!(a, b);
    let mut c = source.clone();
    apply_dither(&mut c, 8, 6, Ditherer::Atkinson);
    let mut d = source.clone();
    apply_dither(&mut d, 8, 6, Ditherer::FloydSteinberg);
    assert_eq!(c, d);
    assert!(c != source);
}

#[test]
fn selvedge_binds_the_outer_edges() {
    let mut img = vec![7u8; 10 * 2];
    stamp_selvedge(&mut img, 10, 2, 3);
    assert_eq!(&img[..10], &[0, 255, 0, 7, 7, 7, 7, 0, 255, 0]);
    assert_eq!(&img[10..], &[255, 0, 255, 7, 7, 7, 7, 255, 0, 255]);
    let mut img = vec![7u8; 4];
    stamp_selvedge(&mut img, 4, 1, 9);
    assert_eq!(img, vec![0, 255, 0, 255]);
}

#[test]
fn pattern_keeps_the_column_limit_before_stamping() {
    let rules = WeaveRules::standard();
    let mut img = gradient(30, 30);
    apply_dither(&mut img, 30, 30, Ditherer::Atkinson);
    make::weave::enforce_weavability(&mut img, 30, 30, &rules);
    assert!(columns_within_limit(&img, 30, 30, 5));
}

#[test]
fn base64_text_round_trip() {
    let text = text_from_bytes(&b"hello".to_vec()).unwrap();
    assert_eq!(text, "aGVsbG8=");
    assert_eq!(bytes_from_text("aGVsbG8="), Some(b"hello".to_vec()));
    assert_eq!(bytes_from_text("not base64!"), None);
    assert_eq!(text_from_bytes(&Vec::new()).unwrap(), "");
}

#[test]
fn encoded_pattern_decodes_to_the_same_pixels() {
    let pixels = sample_pattern();
    for format in [OutputFormat::Png, OutputFormat::Tiff] {
        let buffer = PixelBuffer { width: 16, height: 12, pixels: pixels.clone() };
        let bytes = encode_pattern(&buffer, format).unwrap();
        assert!(bytes != pixels);
        let extension = if format == OutputFormat::Png { "png" } else { "tiff" };
        let raster = decode_source(&bytes, extension).unwrap();
        assert_eq!((raster.width, raster.height), (16, 12));
        assert_eq!(extract_luminance(&raster.rgba), pixels);
    }
}

#[test]
fn containers_differ_by_format() {
    let buffer = PixelBuffer { width: 2, height: 2, pixels: vec![0, 255, 255, 0] };
    let png = encode_pattern(&buffer, OutputFormat::Png).unwrap();
    let tiff = encode_pattern(&buffer, OutputFormat::Tiff).unwrap();
    assert_eq!(&png[..8], &[0x89, b'P', b'N', b'G', 0x0d, 0x0a, 0x1a, 0x0a]);
    assert!(&tiff[..2] == b"II" || &tiff[..2] == b"MM");
}

#[test]
fn pattern_without_area_is_not_encoded() {
    let buffer = PixelBuffer { width: 0, height: 0, pixels: Vec::new() };
    assert_eq!(encode_pattern(&buffer, OutputFormat::Png), Err(LoomError::Encode));
    let buffer = PixelBuffer { width: 3, height: 0, pixels: Vec::new() };
    assert_eq!(encode_pattern(&buffer, OutputFormat::Tiff), Err(LoomError::Encode));
}

#[test]
fn decoder_rejects_what_is_no_picture() {
    assert_eq!(decode_source(&b"garbage".to_vec(), "png").err(), Some(LoomError::Decode));
    assert_eq!(decode_source(&Vec::new(), "png").err(), Some(LoomError::Decode));
    let png = gray_png(vec![1, 2, 3, 4], 2, 2);
    assert_eq!(decode_source(&png, "nosuchformat").err(), Some(LoomError::Decode));
    assert_eq!(decode_source(&png, "tiff").err(), Some(LoomError::Decode));
    assert!(decode_source(&png, "png").is_ok());
    assert!(decode_source(&png, "PNG").is_ok());
}

#[test]
fn decoder_gives_four_bytes_for_each_cell() {
    let png = gray_png(vec![10, 20, 30, 40, 50, 60], 3, 2);
    let raster = decode_source(&png, "png").unwrap();
    assert_eq!((raster.width, raster.height), (3, 2));
    assert_eq!(
        raster.rgba,
        vec![
            10, 10, 10, 255, 20, 20, 20, 255, 30, 30, 30, 255, 40, 40, 40, 255, 50, 50, 50, 255,
            60, 60, 60, 255
        ]
    );
}

#[test]
fn resampling_gives_the_new_size() {
    let raster = ColorRaster { width: 2, height: 2, rgba: vec![0, 0, 0, 255, 255, 255, 255, 255, 255, 255, 255, 255, 0, 0, 0, 255] };
    let scaled = resample(&raster, 4, 4, ResampleFilter::Nearest).unwrap();
    assert_eq!((scaled.width, scaled.height), (4, 4));
    assert_eq!(scaled.rgba.len(), 64);
    assert_eq!(extract_luminance(&scaled.rgba), vec![0, 0, 255, 255, 0, 0, 255, 255, 255, 255, 0, 0, 255, 255, 0, 0]);
    let smooth = resample(&raster, 3, 5, ResampleFilter::Lanczos3).unwrap();
    assert_eq!((smooth.width, smooth.height), (3, 5));
    assert_eq!(smooth.rgba.len(), 60);
    let same = resample(&raster, 2, 2, ResampleFilter::Lanczos3).unwrap();
    assert_eq!(same.rgba, raster.rgba);
    assert!(resample(&raster, 0, 4, ResampleFilter::Nearest).is_none());
    assert!(resample(&raster, 4, 0, ResampleFilter::Nearest).is_none());
}

#[test]
fn finishing_encodes_the_pattern_of_the_scaled_picture() {
    let settings = PatternSettings::standard(16, 2);
    let mut rgba = Vec::new();
    for v in sample_content() {
        rgba.extend_from_slice(&[v, v, v, 255]);
    }
    let bytes = finish_conversion(&rgba, 8, 12, &settings, OutputFormat::Png).unwrap();
    let raster = decode_source(&bytes, "png").unwrap();
    assert_eq!((raster.width, raster.height), (16, 12));
    assert_eq!(extract_luminance(&raster.rgba), sample_pattern());
}

fn request(source: Vec<u8>, extension: &str, content_width: u32, loom_width: u32) -> ConversionRequest {
    ConversionRequest {
        source,
        extension: extension.to_string(),
        content_width,
        filter: ResampleFilter::Nearest,
        format: OutputFormat::Png,
        settings: PatternSettings::standard(loom_width, 3),
    }
}

#[test]
fn conversion_at_the_pictures_own_size() {
    let png = gray_png(sample_content(), 8, 12);
    let mut req = request(png, "png", 8, 16);
    req.settings = PatternSettings::standard(16, 2);
    let bytes = convert(&req).unwrap();
    let raster = decode_source(&bytes, "png").unwrap();
    assert_eq!((raster.width, raster.height), (16, 12));
    assert_eq!(extract_luminance(&raster.rgba), sample_pattern());
}

#[test]
fn conversion_gives_loom_width_and_computed_height() {
    let png = gray_png(gradient(30, 20), 30, 20);
    for (content_width, loom_width) in [(45u32, 60u32), (60, 60), (100, 60), (7, 50)] {
        let bytes = convert(&request(png.clone(), "png", content_width, loom_width)).unwrap();
        let raster = decode_source(&bytes, "png").unwrap();
        let scaled_width = content_width.min(loom_width);
        let height = computed_height(30, 20, scaled_width).unwrap();
        assert_eq!((raster.width, raster.height), (loom_width, height));
        assert!(extract_luminance(&raster.rgba).iter().all(|p| *p == 0 || *p == 255));
    }
}

#[test]
fn conversion_with_the_smooth_filter_and_tiff() {
    let png = gray_png(gradient(30, 20), 30, 20);
    let mut req = request(png, "png", 45, 60);
    req.filter = ResampleFilter::Lanczos3;
    req.format = OutputFormat::Tiff;
    req.settings.ditherer = Ditherer::Ordered4x4;
    let bytes = convert(&req).unwrap();
    let raster = decode_source(&bytes, "tiff").unwrap();
    assert_eq!((raster.width, raster.height), (60, 30));
}

#[test]
fn conversion_of_a_uniform_picture_is_degenerate() {
    let png = gray_png(vec![128u8; 20 * 10], 20, 10);
    assert_eq!(convert(&request(png.clone(), "png", 40, 40)), Err(LoomError::Degenerate));
    let white = gray_png(vec![255u8; 20 * 10], 20, 10);
    assert_eq!(convert(&request(white, "png", 10, 40)), Err(LoomError::Degenerate));
    // too flat to have a row: the canvas is empty
    let wide = gray_png(gradient(100, 2), 100, 2);
    assert_eq!(convert(&request(wide, "png", 10, 40)), Err(LoomError::Degenerate));
}

#[test]
fn conversion_of_what_is_no_picture_fails_to_decode() {
    assert_eq!(convert(&request(b"nothing".to_vec(), "png", 10, 40)), Err(LoomError::Decode));
    let png = gray_png(gradient(30, 20), 30, 20);
    assert_eq!(convert(&request(png, "xyz", 10, 40)), Err(LoomError::Decode));
}

#[test]
fn request_in_text_gives_the_pattern_in_text() {
    let png = gray_png(sample_content(), 8, 12);
    let text = text_from_bytes(&png).unwrap();
    let out = render_loom_request(&text, "png", &16, &8, &2, "png").unwrap();
    let bytes = bytes_from_text(&out).unwrap();
    let raster = decode_source(&bytes, "png").unwrap();
    assert_eq!((raster.width, raster.height), (16, 12));
    assert_eq!(extract_luminance(&raster.rgba), sample_pattern());
}

#[test]
fn request_format_tag_chooses_the_container() {
    let png = gray_png(gradient(30, 20), 30, 20);
    let text = text_from_bytes(&png).unwrap();
    let tiff = bytes_from_text(&render_loom_request(&text, "png", &40, &30, &5, "tiff").unwrap()).unwrap();
    assert!(&tiff[..2] == b"II" || &tiff[..2] == b"MM");
    let other = bytes_from_text(&render_loom_request(&text, "png", &40, &30, &5, "bmp").unwrap()).unwrap();
    assert_eq!(&other[1..4], b"PNG");
    assert_eq!(OutputFormat::from_tag("tiff"), OutputFormat::Tiff);
    assert_eq!(OutputFormat::from_tag("png"), OutputFormat::Png);
    assert_eq!(OutputFormat::from_tag("TIFF"), OutputFormat::Png);
    assert_eq!(OutputFormat::from_tag(""), OutputFormat::Png);
}

#[test]
fn request_with_a_uniform_picture_reports_no_contrast() {
    let png = gray_png(vec![200u8; 12 * 12], 12, 12);
    let text = text_from_bytes(&png).unwrap();
    let outcome = render_loom_request(&text, "png", &12, &12, &5, "tiff");
    assert_eq!(outcome, Err(LoomError::Degenerate));
    assert_eq!(LoomError::Degenerate.message(), "Image is all white");
    assert!(LoomError::Decode.message() != LoomError::Degenerate.message());
    assert!(LoomError::Encode.message() != LoomError::Degenerate.message());
}

#[test]
fn request_that_is_not_base64_fails_to_decode() {
    assert_eq!(render_loom_request("***", "png", &12, &12, &5, "tiff"), Err(LoomError::Decode));
    assert_eq!(render_loom_request("aGVsbG8=", "png", &12, &12, &5, "png"), Err(LoomError::Decode));
}

#[test]
fn standard_settings_are_the_looms() {
    let settings = PatternSettings::standard(1320, 5);
    assert_eq!(settings.loom_width, 1320);
    assert_eq!(settings.tabby_width, 5);
    assert_eq!(settings.selvedge_width, 5);
    assert_eq!(settings.content_threshold, 10);
    assert_eq!(settings.ditherer, Ditherer::Atkinson);
    assert_eq!(settings.rules, WeaveRules::standard());
    assert_eq!(WeaveRules::standard().passes, 3);
    assert_eq!(WeaveRules::flat(6, 7, 2).column_limit, 7);
}
