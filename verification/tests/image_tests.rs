use raster_codec::{
    Endian, ExtraSamples, ImageKind, PhotometricInterpretation, PixelImage, Raster, RasterError,
    SampleData, SampleFormat,
};

// The fixed tone-map used for single-band 32-bit float rasters: an affine
// normalization with sensor-calibration constants, clamped to [0, 1] and
// scaled to a display byte.
fn tone_map(bits: u32) -> u8 {
    let f = f32::from_bits(bits);
    (((f + 0.037346) / (0.03628 + 0.037346)).clamp(0.0, 1.0) * 255.0) as u8
}

fn round_trip(img: PixelImage) {
    let raster = Raster::from_image(&img).unwrap();
    let back = raster.into_image(tone_map).unwrap();
    assert_eq!(back, img);
}

#[test]
fn round_trip_luma8() {
    round_trip(PixelImage {
        kind: ImageKind::Luma8,
        width: 3,
        height: 2,
        data: SampleData::Bytes(vec![1, 2, 3, 4, 5, 6]),
    });
}

#[test]
fn round_trip_luma_alpha8() {
    round_trip(PixelImage {
        kind: ImageKind::LumaA8,
        width: 2,
        height: 1,
        data: SampleData::Bytes(vec![10, 255, 20, 128]),
    });
}

#[test]
fn round_trip_rgb8() {
    round_trip(PixelImage {
        kind: ImageKind::Rgb8,
        width: 1,
        height: 2,
        data: SampleData::Bytes(vec![1, 2, 3, 4, 5, 6]),
    });
}

#[test]
fn round_trip_rgba8() {
    round_trip(PixelImage {
        kind: ImageKind::Rgba8,
        width: 2,
        height: 2,
        data: SampleData::Bytes((0u8..16).collect()),
    });
}

#[test]
fn round_trip_luma16() {
    round_trip(PixelImage {
        kind: ImageKind::Luma16,
        width: 2,
        height: 2,
        data: SampleData::Words16(vec![0, 500, 40000, 65535]),
    });
}

#[test]
fn round_trip_luma_alpha16() {
    round_trip(PixelImage {
        kind: ImageKind::LumaA16,
        width: 1,
        height: 2,
        data: SampleData::Words16(vec![7, 65535, 260, 0]),
    });
}

#[test]
fn round_trip_rgb16() {
    round_trip(PixelImage {
        kind: ImageKind::Rgb16,
        width: 1,
        height: 1,
        data: SampleData::Words16(vec![1, 256, 65535]),
    });
}

#[test]
fn round_trip_rgba16() {
    round_trip(PixelImage {
        kind: ImageKind::Rgba16,
        width: 1,
        height: 1,
        data: SampleData::Words16(vec![513, 2, 3, 65000]),
    });
}

#[test]
fn round_trip_rgb32f() {
    round_trip(PixelImage {
        kind: ImageKind::Rgb32F,
        width: 1,
        height: 1,
        data: SampleData::Words32(vec![
            1.0f32.to_bits(),
            (-0.5f32).to_bits(),
            1e20f32.to_bits(),
        ]),
    });
}

#[test]
fn round_trip_rgba32f() {
    round_trip(PixelImage {
        kind: ImageKind::Rgba32F,
        width: 2,
        height: 1,
        data: SampleData::Words32(vec![
            0.0f32.to_bits(),
            0.25f32.to_bits(),
            0.5f32.to_bits(),
            1.0f32.to_bits(),
            2.0f32.to_bits(),
            3.0f32.to_bits(),
            4.0f32.to_bits(),
            5.0f32.to_bits(),
        ]),
    });
}

#[test]
fn round_trip_both_byte_orders() {
    let img = PixelImage {
        kind: ImageKind::Luma16,
        width: 2,
        height: 1,
        data: SampleData::Words16(vec![0x1234, 0xFEDC]),
    };
    for e in [Endian::Little, Endian::Big] {
        let raster = Raster::from_image_with_endian(&img, e).unwrap();
        assert_eq!(raster.endian, e);
        let back = raster.into_image(tone_map).unwrap();
        assert_eq!(back, img);
    }
}

#[test]
fn fallback_kind_round_trips_shape_wise() {
    // An unmapped image kind falls back to one 8-bit unsigned band; it
    // comes back as 8-bit grayscale with the same bytes, not as itself.
    let img = PixelImage {
        kind: ImageKind::Other,
        width: 2,
        height: 2,
        data: SampleData::Bytes(vec![5, 6, 7, 8]),
    };
    let raster = Raster::from_image(&img).unwrap();
    assert_eq!(raster.bits_per_sample, vec![8]);
    assert_eq!(raster.interpretation, PhotometricInterpretation::Unknown);
    let back = raster.into_image(tone_map).unwrap();
    assert_eq!(back.kind, ImageKind::Luma8);
    assert_eq!(back.width, 2);
    assert_eq!(back.height, 2);
    assert_eq!(back.data, SampleData::Bytes(vec![5, 6, 7, 8]));
}

#[test]
fn fallback_kind_with_wrong_length_fails() {
    let img = PixelImage {
        kind: ImageKind::Other,
        width: 2,
        height: 2,
        data: SampleData::Bytes(vec![5, 6, 7]),
    };
    assert_eq!(
        Raster::from_image(&img).unwrap_err(),
        RasterError::BufferLengthMismatch
    );
}

#[test]
fn encoder_infers_metadata() {
    let img = PixelImage {
        kind: ImageKind::Rgba16,
        width: 1,
        height: 1,
        data: SampleData::Words16(vec![1, 2, 3, 4]),
    };
    let raster = Raster::from_image_with_endian(&img, Endian::Little).unwrap();
    assert_eq!(raster.dimensions, (1, 1));
    assert_eq!(raster.bits_per_sample, vec![16, 16, 16, 16]);
    assert_eq!(raster.interpretation, PhotometricInterpretation::RGB);
    assert_eq!(raster.sample_format, vec![SampleFormat::Unsigned; 4]);
    assert_eq!(raster.extra_samples, vec![ExtraSamples::AssociatedAlpha]);
    assert_eq!(raster.buffer, vec![1, 0, 2, 0, 3, 0, 4, 0]);
}

#[test]
fn encoder_infers_float_formats() {
    let img = PixelImage {
        kind: ImageKind::Rgb32F,
        width: 1,
        height: 1,
        data: SampleData::Words32(vec![0, 0, 0]),
    };
    let raster = Raster::from_image_with_endian(&img, Endian::Big).unwrap();
    assert_eq!(raster.bits_per_sample, vec![32, 32, 32]);
    assert_eq!(raster.sample_format, vec![SampleFormat::Float; 3]);
    assert_eq!(raster.extra_samples, vec![]);
}

#[test]
fn encoder_rejects_empty_dimensions() {
    let img = PixelImage {
        kind: ImageKind::Luma8,
        width: 0,
        height: 3,
        data: SampleData::Bytes(vec![]),
    };
    assert_eq!(
        Raster::from_image(&img).unwrap_err(),
        RasterError::EmptyDimensions
    );
}

#[test]
fn decoder_big_endian_16_bit() {
    let raster = Raster::new(
        (1, 1),
        vec![0x12, 0x34],
        vec![16],
        PhotometricInterpretation::BlackIsZero,
        vec![SampleFormat::Unsigned],
        vec![],
        Endian::Big,
    )
    .unwrap();
    let img = raster.into_image(tone_map).unwrap();
    assert_eq!(img.kind, ImageKind::Luma16);
    assert_eq!(img.data, SampleData::Words16(vec![0x1234]));
}

#[test]
fn decoder_rejects_unmapped_layout() {
    let raster = Raster::new(
        (1, 1),
        vec![0, 1, 2],
        vec![8, 16],
        PhotometricInterpretation::BlackIsZero,
        vec![SampleFormat::Unsigned, SampleFormat::Unsigned],
        vec![],
        Endian::Little,
    )
    .unwrap();
    let e = raster.into_image(tone_map).unwrap_err();
    assert_eq!(e, "Not Supported");
}

#[test]
fn tone_map_lower_calibration_bound_is_black() {
    // A sample exactly at the lower calibration constant maps to 0.
    let raster = Raster::new(
        (1, 1),
        (-0.037346f32).to_bits().to_le_bytes().to_vec(),
        vec![32],
        PhotometricInterpretation::BlackIsZero,
        vec![SampleFormat::Float],
        vec![],
        Endian::Little,
    )
    .unwrap();
    let img = raster.into_image(tone_map).unwrap();
    assert_eq!(img.kind, ImageKind::Luma8);
    assert_eq!(img.data, SampleData::Bytes(vec![0]));
}

#[test]
fn tone_map_upper_calibration_bound_is_white() {
    // Samples at or above the upper calibration constant map to 255.
    let mut buffer = 0.03628f32.to_bits().to_le_bytes().to_vec();
    buffer.extend_from_slice(&5.0f32.to_bits().to_le_bytes());
    let raster = Raster::new(
        (2, 1),
        buffer,
        vec![32],
        PhotometricInterpretation::BlackIsZero,
        vec![SampleFormat::Float],
        vec![],
        Endian::Little,
    )
    .unwrap();
    let img = raster.into_image(tone_map).unwrap();
    assert_eq!(img.data, SampleData::Bytes(vec![255, 255]));
}
