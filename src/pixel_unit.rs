use vstd::prelude::*;

verus! {

/// A pixel, either as 8-bit red, green and blue, or as luma and the two
/// chroma differences. The luma/chroma form is held exactly, in thousandths:
/// the conversion coefficients have three decimals, so an 8-bit color maps to
/// it without rounding. The chroma values carry the offset of 128.
#[derive(Debug, Clone, Copy, PartialEq, Eq, Structural)]
pub enum PixelUnit {
    Rgb(u8, u8, u8),
    YCbCrMilli(i32, i32, i32),
}

/// Luma, in thousandths: 0.299 R + 0.587 G + 0.114 B.
pub open spec fn luma_milli(r: int, g: int, b: int) -> int {
    299 * r + 587 * g + 114 * b
}

/// Blue-difference chroma, in thousandths: -0.169 R - 0.331 G + 0.5 B + 128.
pub open spec fn cb_milli(r: int, g: int, b: int) -> int {
    -169 * r - 331 * g + 500 * b + 128000
}

/// Red-difference chroma, in thousandths: 0.5 R - 0.419 G - 0.081 B + 128.
pub open spec fn cr_milli(r: int, g: int, b: int) -> int {
    500 * r - 419 * g - 81 * b + 128000
}

/// Red, in millionths: Y + 1.403 (Cr - 128).
pub open spec fn red_micro(y: int, cb: int, cr: int) -> int {
    1000 * y + 1403 * (cr - 128000)
}

/// Green, in millionths: Y - 0.344 (Cb - 128) - 0.714 (Cr - 128).
pub open spec fn green_micro(y: int, cb: int, cr: int) -> int {
    1000 * y - 344 * (cb - 128000) - 714 * (cr - 128000)
}

/// Blue, in millionths: Y + 1.773 (Cb - 128).
pub open spec fn blue_micro(y: int, cb: int, cr: int) -> int {
    1000 * y + 1773 * (cb - 128000)
}

/// A value in millionths truncated toward zero to a whole number, then clamped
/// to 0..=255.
pub open spec fn channel_of(v: int) -> int {
    if v <= 0 {
        0
    } else if v >= 255_000_000 {
        255
    } else {
        v / 1_000_000
    }
}

fn channel_from_micro(v: i64) -> (c: u8)
    ensures
        c as int == channel_of(v as int),
{
    if v <= 0 {
        0
    } else if v >= 255_000_000 {
        255
    } else {
        (v / 1_000_000) as u8
    }
}

/// Converts an RGB pixel to luma/chroma; a luma/chroma pixel is returned as it
/// is.
pub fn convert_to_ycbcr_f32(pix: &PixelUnit) -> (out: PixelUnit)
    ensures
        match *pix {
            PixelUnit::Rgb(r, g, b) => out is YCbCrMilli && out->YCbCrMilli_0 == luma_milli(r as int, g as int, b as int)
                && out->YCbCrMilli_1 == cb_milli(r as int, g as int, b as int)
                && out->YCbCrMilli_2 == cr_milli(r as int, g as int, b as int),
            PixelUnit::YCbCrMilli(_, _, _) => out == *pix,
        },
{
    match *pix {
        PixelUnit::Rgb(r, g, b) => {
            let (r, g, b) = (r as i32, g as i32, b as i32);
            PixelUnit::YCbCrMilli(
                299 * r + 587 * g + 114 * b,
                128000 + 500 * b - 169 * r - 331 * g,
                128000 + 500 * r - 419 * g - 81 * b,
            )
        },
        PixelUnit::YCbCrMilli(y, cb, cr) => PixelUnit::YCbCrMilli(y, cb, cr),
    }
}

/// Converts a luma/chroma pixel to RGB, each channel truncated toward zero and
/// clamped to 0..=255; an RGB pixel is returned as it is.
pub fn convert_to_rgb(pix: &PixelUnit) -> (out: PixelUnit)
    ensures
        match *pix {
            PixelUnit::YCbCrMilli(y, cb, cr) => out is Rgb && out->Rgb_0 == channel_of(
                red_micro(y as int, cb as int, cr as int),
            ) && out->Rgb_1 == channel_of(green_micro(y as int, cb as int, cr as int))
                && out->Rgb_2 == channel_of(blue_micro(y as int, cb as int, cr as int)),
            PixelUnit::Rgb(_, _, _) => out == *pix,
        },
{
    match *pix {
        PixelUnit::Rgb(r, g, b) => PixelUnit::Rgb(r, g, b),
        PixelUnit::YCbCrMilli(y, cb, cr) => {
            let (y, cb, cr) = (y as i64, cb as i64, cr as i64);
            PixelUnit::Rgb(
                channel_from_micro(1000 * y + 1403 * (cr - 128000)),
                channel_from_micro(1000 * y - 344 * (cb - 128000) - 714 * (cr - 128000)),
                channel_from_micro(1000 * y + 1773 * (cb - 128000)),
            )
        },
    }
}

} // verus!
