use raster_codec::{
    Endian, PhotometricInterpretation, Raster, RasterError, Rgba8, SampleFormat,
};

fn unsigned(n: usize) -> Vec<SampleFormat> {
    vec![SampleFormat::Unsigned; n]
}

fn make_raster(
    dims: (u32, u32),
    buffer: Vec<u8>,
    bits: Vec<u16>,
    formats: Vec<SampleFormat>,
    endian: Endian,
) -> Raster {
    Raster::new(
        dims,
        buffer,
        bits,
        PhotometricInterpretation::BlackIsZero,
        formats,
        vec![],
        endian,
    )
    .unwrap()
}

#[test]
fn buffer_length_invariant_holds() {
    // 3x2 pixels, RGB 8-bit: 3 * 2 * 24 / 8 = 18 bytes.
    let r = make_raster(
        (3, 2),
        vec![7u8; 18],
        vec![8, 8, 8],
        unsigned(3),
        Endian::Little,
    );
    assert_eq!(
        r.buffer.len(),
        3 * 2 * (8 + 8 + 8) / 8,
        "buffer length must equal width * height * sum(bits) / 8"
    );
    assert!(r.is_wf());
}

#[test]
fn mismatched_buffer_length_fails() {
    let r = Raster::new(
        (3, 2),
        vec![7u8; 17],
        vec![8, 8, 8],
        PhotometricInterpretation::RGB,
        unsigned(3),
        vec![],
        Endian::Little,
    );
    assert_eq!(r.unwrap_err(), RasterError::BufferLengthMismatch);
}

#[test]
fn mismatched_format_count_fails() {
    let r = Raster::new(
        (1, 1),
        vec![0u8; 2],
        vec![8, 8],
        PhotometricInterpretation::BlackIsZero,
        unsigned(1),
        vec![],
        Endian::Little,
    );
    assert_eq!(r.unwrap_err(), RasterError::SampleFormatLengthMismatch);
}

#[test]
fn zero_dimension_fails() {
    let r = Raster::new(
        (0, 5),
        vec![],
        vec![8],
        PhotometricInterpretation::BlackIsZero,
        unsigned(1),
        vec![],
        Endian::Little,
    );
    assert_eq!(r.unwrap_err(), RasterError::EmptyDimensions);
}

#[test]
fn rgba_four_band_returns_stored_bytes() {
    // 2x2 RGBA pixels; every pixel keeps its four stored bytes verbatim.
    let buffer = vec![
        1, 2, 3, 4, 5, 6, 7, 8, //
        9, 10, 11, 12, 13, 14, 15, 16,
    ];
    let r = make_raster((2, 2), buffer, vec![8, 8, 8, 8], unsigned(4), Endian::Little);
    assert_eq!(
        r.get_pixel_rgba(0, 0),
        Some(Rgba8 { r: 1, g: 2, b: 3, a: 4 })
    );
    assert_eq!(
        r.get_pixel_rgba(1, 0),
        Some(Rgba8 { r: 5, g: 6, b: 7, a: 8 })
    );
    assert_eq!(
        r.get_pixel_rgba(0, 1),
        Some(Rgba8 { r: 9, g: 10, b: 11, a: 12 })
    );
    assert_eq!(
        r.get_pixel_rgba(1, 1),
        Some(Rgba8 { r: 13, g: 14, b: 15, a: 16 })
    );
}

#[test]
fn rgba_out_of_bounds_is_none() {
    let r = make_raster((2, 2), vec![0u8; 4], vec![8], unsigned(1), Endian::Little);
    assert_eq!(r.get_pixel_rgba(2, 0), None);
    assert_eq!(r.get_pixel_rgba(0, 2), None);
}

#[test]
fn rgba_gray_replicates_intensity() {
    let r = make_raster((2, 1), vec![40, 200], vec![8], unsigned(1), Endian::Little);
    assert_eq!(
        r.get_pixel_rgba(0, 0),
        Some(Rgba8 { r: 40, g: 40, b: 40, a: 255 })
    );
    assert_eq!(
        r.get_pixel_rgba(1, 0),
        Some(Rgba8 { r: 200, g: 200, b: 200, a: 255 })
    );
}

#[test]
fn rgba_gray_alpha_keeps_alpha() {
    let r = make_raster((1, 1), vec![40, 99], vec![8, 8], unsigned(2), Endian::Little);
    assert_eq!(
        r.get_pixel_rgba(0, 0),
        Some(Rgba8 { r: 40, g: 40, b: 40, a: 99 })
    );
}

#[test]
fn rgba_rgb_has_opaque_alpha() {
    let r = make_raster((1, 1), vec![10, 20, 30], vec![8, 8, 8], unsigned(3), Endian::Little);
    assert_eq!(
        r.get_pixel_rgba(0, 0),
        Some(Rgba8 { r: 10, g: 20, b: 30, a: 255 })
    );
}

#[test]
fn rgba_gray16_scales_and_clamps() {
    // Stored signed value 2550 scales to 2550 / 10 = 255.
    let v: i16 = 2550;
    let b = v.to_le_bytes();
    let r = make_raster((1, 1), vec![b[0], b[1]], vec![16], unsigned(1), Endian::Little);
    assert_eq!(
        r.get_pixel_rgba(0, 0),
        Some(Rgba8 { r: 255, g: 255, b: 255, a: 255 })
    );
}

#[test]
fn rgba_gray16_negative_clamps_to_zero() {
    let v: i16 = -100;
    let b = v.to_le_bytes();
    let r = make_raster((1, 1), vec![b[0], b[1]], vec![16], unsigned(1), Endian::Little);
    assert_eq!(
        r.get_pixel_rgba(0, 0),
        Some(Rgba8 { r: 0, g: 0, b: 0, a: 255 })
    );
}

#[test]
fn rgba_gray16_truncates_division() {
    let v: i16 = 1275;
    let b = v.to_be_bytes();
    let r = make_raster((1, 1), vec![b[0], b[1]], vec![16], unsigned(1), Endian::Big);
    assert_eq!(
        r.get_pixel_rgba(0, 0),
        Some(Rgba8 { r: 127, g: 127, b: 127, a: 255 })
    );
}

#[test]
fn rgba_unmapped_layout_is_none() {
    let r = make_raster((1, 1), vec![0u8; 4], vec![32], unsigned(1), Endian::Little);
    assert_eq!(r.get_pixel_rgba(0, 0), None);
}
