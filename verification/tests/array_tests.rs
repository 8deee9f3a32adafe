use raster_codec::{
    Complex32Bits, Endian, PhotometricInterpretation, Raster, SampleFormat,
};

fn new_raster(
    dims: (u32, u32),
    buffer: Vec<u8>,
    bits: Vec<u16>,
    formats: Vec<SampleFormat>,
    endian: Endian,
) -> Raster {
    Raster::new(
        dims,
        buffer,
        bits,
        PhotometricInterpretation::BlackIsZero,
        formats,
        vec![],
        endian,
    )
    .unwrap()
}

fn le_bytes_of_f32(values: &[f32]) -> Vec<u8> {
    let mut out = Vec::new();
    for v in values {
        out.extend_from_slice(&v.to_bits().to_le_bytes());
    }
    out
}

#[test]
fn bool_array_returns_bytes() {
    let r = new_raster(
        (2, 2),
        vec![9, 8, 7, 6],
        vec![8],
        vec![SampleFormat::Unsigned],
        Endian::Little,
    );
    assert_eq!(r.to_bool_array().unwrap(), vec![9, 8, 7, 6]);
}

#[test]
fn bool_array_rejects_other_layouts() {
    let r = new_raster(
        (1, 1),
        vec![0, 0],
        vec![16],
        vec![SampleFormat::Unsigned],
        Endian::Little,
    );
    let e = r.to_bool_array().unwrap_err();
    assert!(e.contains("Unsupported"));
}

#[test]
fn f32_bits_little_endian() {
    let values = [1.5f32, -2.25f32];
    let r = new_raster(
        (2, 1),
        le_bytes_of_f32(&values),
        vec![32],
        vec![SampleFormat::Float],
        Endian::Little,
    );
    let bits = r.to_f32_bits_array().unwrap();
    assert_eq!(bits, vec![1.5f32.to_bits(), (-2.25f32).to_bits()]);
    assert_eq!(f32::from_bits(bits[0]), 1.5);
}

#[test]
fn f32_bits_big_endian() {
    let mut buffer = Vec::new();
    buffer.extend_from_slice(&3.75f32.to_bits().to_be_bytes());
    let r = new_raster(
        (1, 1),
        buffer,
        vec![32],
        vec![SampleFormat::Float],
        Endian::Big,
    );
    assert_eq!(r.to_f32_bits_array().unwrap(), vec![3.75f32.to_bits()]);
}

#[test]
fn f32_shape_mismatch_fails() {
    // An 8-bit raster offers no 32-bit float view.
    let r = new_raster(
        (2, 1),
        vec![1, 2],
        vec![8],
        vec![SampleFormat::Unsigned],
        Endian::Little,
    );
    let e = r.to_f32_bits_array().unwrap_err();
    assert!(e.contains("Unsupported bits_per_sample"));
}

#[test]
fn f64_bits_round_through() {
    let mut buffer = Vec::new();
    buffer.extend_from_slice(&0.125f64.to_bits().to_le_bytes());
    buffer.extend_from_slice(&(-8.5f64).to_bits().to_le_bytes());
    let r = new_raster(
        (1, 2),
        buffer,
        vec![64],
        vec![SampleFormat::Float],
        Endian::Little,
    );
    let bits = r.to_f64_bits_array().unwrap();
    assert_eq!(bits, vec![0.125f64.to_bits(), (-8.5f64).to_bits()]);
}

#[test]
fn f64_shape_mismatch_fails() {
    let r = new_raster(
        (1, 1),
        le_bytes_of_f32(&[1.0]),
        vec![32],
        vec![SampleFormat::Float],
        Endian::Little,
    );
    let e = r.to_f64_bits_array().unwrap_err();
    assert!(e.contains("f64"));
}

#[test]
fn complex_pairs_real_then_imaginary() {
    // Two pixels of two 32-bit floats each: (1.0 + 2.0i), (3.0 + 4.0i).
    let r = new_raster(
        (2, 1),
        le_bytes_of_f32(&[1.0, 2.0, 3.0, 4.0]),
        vec![64],
        vec![SampleFormat::ComplexFloat],
        Endian::Little,
    );
    let pairs = r.to_complex32_bits_array().unwrap();
    assert_eq!(
        pairs,
        vec![
            Complex32Bits { re: 1.0f32.to_bits(), im: 2.0f32.to_bits() },
            Complex32Bits { re: 3.0f32.to_bits(), im: 4.0f32.to_bits() },
        ]
    );
}

#[test]
fn complex_requires_complex_format() {
    // The 64-bit layout alone is not enough: the band must be tagged
    // complex float.
    let r = new_raster(
        (1, 1),
        vec![0u8; 8],
        vec![64],
        vec![SampleFormat::Float],
        Endian::Little,
    );
    let e = r.to_complex32_bits_array().unwrap_err();
    assert!(e.contains("complex"));
}

#[test]
fn complex_requires_64_bit_pixels() {
    let r = new_raster(
        (1, 1),
        vec![0u8; 4],
        vec![32],
        vec![SampleFormat::ComplexFloat],
        Endian::Little,
    );
    assert!(r.to_complex32_bits_array().is_err());
}
