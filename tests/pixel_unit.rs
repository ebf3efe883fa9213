use block_codec::pixel_unit::{convert_to_rgb, convert_to_ycbcr_f32, PixelUnit};

#[test]
#[allow(non_snake_case)]
fn RGB_to_YCbCrF32_and_back() {
    let black: PixelUnit = PixelUnit::Rgb(0, 0, 0);
    let black_ycbcr = convert_to_ycbcr_f32(&black);
    let black_converted_back = convert_to_rgb(&black_ycbcr);
    assert_eq!(black, black_converted_back);

    let red: PixelUnit = PixelUnit::Rgb(255, 0, 0);
    let red_ycbcr = convert_to_ycbcr_f32(&red);
    let red_converted_back = convert_to_rgb(&red_ycbcr);
    assert_eq!(red, red_converted_back);

    let green: PixelUnit = PixelUnit::Rgb(0, 255, 0);
    let green_ycbcr = convert_to_ycbcr_f32(&green);
    let green_converted_back = convert_to_rgb(&green_ycbcr);
    assert_eq!(green, green_converted_back);

    let blue: PixelUnit = PixelUnit::Rgb(0, 0, 255);
    let blue_ycbcr = convert_to_ycbcr_f32(&blue);
    let blue_converted_back = convert_to_rgb(&blue_ycbcr);
    assert_eq!(blue, blue_converted_back);

    let white: PixelUnit = PixelUnit::Rgb(0, 0, 0);
    let white_ycbcr = convert_to_ycbcr_f32(&white);
    let white_converted_back = convert_to_rgb(&white_ycbcr);
    assert_eq!(white, white_converted_back);
}

#[test]
fn full_white_round_trips() {
    let white = PixelUnit::Rgb(255, 255, 255);
    let converted = convert_to_ycbcr_f32(&white);
    assert_eq!(converted, PixelUnit::YCbCrMilli(255000, 128000, 128000));
    assert_eq!(convert_to_rgb(&converted), white);
}

#[test]
fn red_converts_to_exact_thousandths() {
    let red = PixelUnit::Rgb(255, 0, 0);
    assert_eq!(convert_to_ycbcr_f32(&red), PixelUnit::YCbCrMilli(76245, 84905, 255500));
}

#[test]
fn luma_chroma_input_is_kept() {
    let p = PixelUnit::YCbCrMilli(1, 2, 3);
    assert_eq!(convert_to_ycbcr_f32(&p), p);
    let q = PixelUnit::Rgb(1, 2, 3);
    assert_eq!(convert_to_rgb(&q), q);
}

#[test]
fn rgb_output_is_truncated_and_clamped() {
    // Y = 100.9, no chroma: truncated to 100 on every channel.
    assert_eq!(
        convert_to_rgb(&PixelUnit::YCbCrMilli(100900, 128000, 128000)),
        PixelUnit::Rgb(100, 100, 100)
    );
    // Far above and below the range.
    assert_eq!(
        convert_to_rgb(&PixelUnit::YCbCrMilli(400000, 128000, 128000)),
        PixelUnit::Rgb(255, 255, 255)
    );
    assert_eq!(
        convert_to_rgb(&PixelUnit::YCbCrMilli(-5000, 128000, 128000)),
        PixelUnit::Rgb(0, 0, 0)
    );
}
