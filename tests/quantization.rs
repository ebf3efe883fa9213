use block_codec::error::CodecError;
use block_codec::quantization::QuantizationCalculator;

const BASE_FIRST_ROW: [u64; 8] = [16, 11, 10, 16, 24, 40, 51, 61];

#[test]
fn invalid_levels_are_rejected() {
    assert!(matches!(QuantizationCalculator::new(0), Err(CodecError::InvalidQualityLevel)));
    assert!(matches!(QuantizationCalculator::new(101), Err(CodecError::InvalidQualityLevel)));
    let mut calc = QuantizationCalculator::new(50).unwrap();
    assert!(matches!(calc.get_quantization_matrix(0), Err(CodecError::InvalidQualityLevel)));
    assert!(matches!(calc.quantization_table(200, 8), Err(CodecError::InvalidQualityLevel)));
    assert!(matches!(calc.dequantization_table(0, 8), Err(CodecError::InvalidQualityLevel)));
}

#[test]
fn level_fifty_is_the_base_table() {
    let mut calc = QuantizationCalculator::new(50).unwrap();
    let t = calc.get_quantization_matrix(50).unwrap();
    assert_eq!(t.size, 8);
    assert_eq!(t.denominator, 1);
    assert_eq!(&t.numerators[0..8], &BASE_FIRST_ROW);
    assert_eq!(t.numerators[63], 99);
    assert_eq!(t.numerators[6 * 8 + 5], 121);
}

#[test]
fn high_levels_scale_down() {
    let mut calc = QuantizationCalculator::new(75).unwrap();
    let t = calc.get_quantization_matrix(75).unwrap();
    // (100 - 75) / 50 = 25 / 50
    assert_eq!(t.denominator, 50);
    assert_eq!(t.numerators[0], 16 * 25);
    assert_eq!(t.numerators[63], 99 * 25);
}

#[test]
fn low_levels_scale_up() {
    let mut calc = QuantizationCalculator::new(25).unwrap();
    let t = calc.get_quantization_matrix(25).unwrap();
    // 50 / 25
    assert_eq!(t.denominator, 25);
    assert_eq!(t.numerators[1], 11 * 50);
    let t1 = calc.get_quantization_matrix(1).unwrap();
    assert_eq!(t1.denominator, 1);
    assert_eq!(t1.numerators[1], 11 * 50);
}

#[test]
fn narrow_blocks_use_top_left_of_table() {
    let mut calc = QuantizationCalculator::new(50).unwrap();
    let q = calc.quantization_table(50, 5).unwrap();
    assert_eq!(q.size, 5);
    assert_eq!(q.numerators.len(), 25);
    assert_eq!(&q.numerators[0..5], &BASE_FIRST_ROW[0..5]);
    assert_eq!(&q.numerators[5..10], &[12, 12, 14, 19, 26]);
    let d = calc.dequantization_table(50, 3).unwrap();
    assert_eq!(d.numerators, vec![16, 11, 10, 12, 12, 14, 14, 13, 16]);
}

#[test]
fn quantize_and_dequantize_use_the_same_table() {
    let mut calc = QuantizationCalculator::new(60).unwrap();
    let q = calc.quantization_table(60, 8).unwrap();
    let d = calc.dequantization_table(60, 8).unwrap();
    assert_eq!(q.numerators, d.numerators);
    assert_eq!(q.denominator, d.denominator);
}

#[test]
fn wide_blocks_are_a_dimension_mismatch() {
    let mut calc = QuantizationCalculator::new(50).unwrap();
    assert!(matches!(calc.quantization_table(50, 9), Err(CodecError::DimensionMismatch)));
    assert!(matches!(calc.dequantization_table(50, 9), Err(CodecError::DimensionMismatch)));
}

#[test]
fn level_hundred_table_is_singular() {
    let mut calc = QuantizationCalculator::new(100).unwrap();
    assert!(matches!(calc.quantization_table(100, 8), Err(CodecError::SingularTable)));
    assert!(matches!(calc.quantization_table(100, 5), Err(CodecError::SingularTable)));
    let d = calc.dequantization_table(100, 8).unwrap();
    assert!(d.numerators.iter().all(|&v| v == 0));
}
