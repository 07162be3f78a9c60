//! Accent-colour validation for org branding: a colour must be written
//! `#RRGGBB` and give at least WCAG AA contrast (4.5:1) against white.
//!
//! The contrast test is carried out in exact integer arithmetic. `LIN[c]` is
//! the sRGB linearisation of channel value `c`, scaled by 10^8 and rounded;
//! with the WCAG weights scaled by 10^4 the relative luminance is known to
//! 10^-12, and a 4.5:1 ratio against white is a luminance of at most 11/60.
//! `extras/luminance_table.py` derives the table and checks, colour by colour,
//! that this test agrees with the double-precision WCAG formula.

use vstd::prelude::*;

verus! {

/// sRGB channel linearisation, `round(lin(c) * 10^8)`.
pub const LIN: [u64; 256] = [
    0, 30353, 60705, 91058, 121411, 151763, 182116, 212469,
    242822, 273174, 303527, 334654, 367651, 402472, 439144, 477695,
    518152, 560539, 604883, 651209, 699541, 749903, 802319, 856813,
    913406, 972122, 1032982, 1096009, 1161225, 1228649, 1298303, 1370208,
    1444384, 1520851, 1599629, 1680738, 1764195, 1850022, 1938236, 2028856,
    2121901, 2217388, 2315337, 2415763, 2518686, 2624122, 2732089, 2842604,
    2955683, 3071344, 3189603, 3310477, 3433981, 3560131, 3688945, 3820437,
    3954624, 4091520, 4231141, 4373503, 4518620, 4666509, 4817182, 4970657,
    5126946, 5286065, 5448028, 5612849, 5780543, 5951124, 6124605, 6301002,
    6480327, 6662594, 6847817, 7036010, 7227185, 7421357, 7618538, 7818742,
    8021982, 8228271, 8437621, 8650046, 8865559, 9084171, 9305896, 9530747,
    9758735, 9989873, 10224173, 10461648, 10702310, 10946171, 11193243, 11443537,
    11697067, 11953843, 12213877, 12477182, 12743768, 13013648, 13286832, 13563333,
    13843162, 14126329, 14412847, 14702727, 14995979, 15292615, 15592646, 15896084,
    16202938, 16513219, 16826940, 17144110, 17464740, 17788842, 18116424, 18447499,
    18782077, 19120168, 19461783, 19806932, 20155625, 20507874, 20863687, 21223076,
    21586050, 21952620, 22322796, 22696587, 23074005, 23455058, 23839757, 24228112,
    24620133, 25015828, 25415209, 25818285, 26225066, 26635560, 27049779, 27467731,
    27889426, 28314874, 28744084, 29177065, 29613827, 30054379, 30498731, 30946892,
    31398871, 31854678, 32314321, 32777810, 33245154, 33716362, 34191442, 34670406,
    35153260, 35640014, 36130678, 36625260, 37123768, 37626212, 38132601, 38642943,
    39157248, 39675523, 40197778, 40724021, 41254261, 41788507, 42326767, 42869050,
    43415364, 43965717, 44520119, 45078578, 45641102, 46207700, 46778380, 47353150,
    47932018, 48514994, 49102085, 49693300, 50288646, 50888132, 51491767, 52099557,
    52711513, 53327640, 53947949, 54572446, 55201140, 55834039, 56471151, 57112483,
    57758044, 58407842, 59061884, 59720179, 60382734, 61049557, 61720656, 62396039,
    63075714, 63759687, 64447968, 65140564, 65837482, 66538730, 67244316, 67954247,
    68668531, 69387176, 70110189, 70837578, 71569350, 72305513, 73046074, 73791041,
    74540421, 75294222, 76052450, 76815115, 77582222, 78353779, 79129794, 79910274,
    80695226, 81484657, 82278575, 83076988, 83879901, 84687323, 85499261, 86315721,
    87136712, 87962240, 88792312, 89626935, 90466117, 91309865, 92158186, 93011086,
    93868573, 94730654, 95597335, 96468625, 97344529, 98225055, 99110210, 100000000,
];

/// Linearised channel value, scaled by 10^8.
pub open spec fn lin(c: u8) -> int {
    LIN@[c as int] as int
}

/// Relative luminance of an sRGB colour, scaled by 10^12.
pub open spec fn luminance(r: u8, g: u8, b: u8) -> int {
    2126 * lin(r) + 7152 * lin(g) + 722 * lin(b)
}

/// Contrast against white of at least 4.5:1, i.e. luminance at most 11/60.
pub open spec fn meets_wcag_aa(r: u8, g: u8, b: u8) -> bool {
    60 * luminance(r, g, b) <= 11_000_000_000_000
}

/// The value of an ASCII hexadecimal digit byte.
pub open spec fn hex_digit(b: u8) -> Option<u8> {
    if 48 <= b <= 57 {
        Some((b - 48) as u8)
    } else if 65 <= b <= 70 {
        Some((b - 55) as u8)
    } else if 97 <= b <= 102 {
        Some((b - 87) as u8)
    } else {
        None
    }
}

/// A channel written as two hexadecimal digits, high digit first.
pub open spec fn hex_pair(hi: u8, lo: u8) -> Option<u8> {
    match (hex_digit(hi), hex_digit(lo)) {
        (Some(h), Some(l)) => Some((16 * h + l) as u8),
        _ => None,
    }
}

/// `#RRGGBB` shape: seven bytes, the first of them `#`.
pub open spec fn rgb_shape(b: Seq<u8>) -> bool {
    b.len() == 7 && b[0] == 35
}

pub open spec fn accent_hex_result(b: Seq<u8>) -> Result<(), &'static str> {
    if !rgb_shape(b) {
        Err("color must be in #RRGGBB format")
    } else {
        match (hex_pair(b[1], b[2]), hex_pair(b[3], b[4]), hex_pair(b[5], b[6])) {
            (Some(r), Some(g), Some(bl)) => if meets_wcag_aa(r, g, bl) {
                Ok(())
            } else {
                Err("accent color must have at least 4.5:1 contrast against white (WCAG AA)")
            },
            _ => Err("invalid hex digits"),
        }
    }
}

fn hex_digit_of(b: u8) -> (r: Option<u8>)
    ensures
        r == hex_digit(b),
{
    if 48 <= b && b <= 57 {
        Some(b - 48)
    } else if 65 <= b && b <= 70 {
        Some(b - 55)
    } else if 97 <= b && b <= 102 {
        Some(b - 87)
    } else {
        None
    }
}

fn hex_pair_of(hi: u8, lo: u8) -> (r: Option<u8>)
    ensures
        r == hex_pair(hi, lo),
{
    match (hex_digit_of(hi), hex_digit_of(lo)) {
        (Some(h), Some(l)) => Some(16 * h + l),
        _ => None,
    }
}

/// Whether `(r, g, b)` has at least 4.5:1 contrast against white.
pub fn contrast_against_white_ok(r: u8, g: u8, b: u8) -> (ok: bool)
    ensures
        ok == meets_wcag_aa(r, g, b),
{
    let lr = LIN[r as usize] as u128;
    let lg = LIN[g as usize] as u128;
    let lb = LIN[b as usize] as u128;
    let l = 2126 * lr + 7152 * lg + 722 * lb;
    60 * l <= 11_000_000_000_000u128
}

/// Validate that `hex` is a `#RRGGBB` colour with WCAG AA contrast against
/// white. Returns the reason on failure; a colour whose channels are not
/// each two ASCII hex digits is refused as `invalid hex digits`.
pub fn validate_accent_hex(hex: &str) -> (res: Result<(), &'static str>)
    ensures
        res == accent_hex_result(vstd::utf8::encode_utf8(hex@)),
{
    let b = hex.as_bytes();
    if b.len() != 7 || b[0] != 35 {
        return Err("color must be in #RRGGBB format");
    }
    let r = hex_pair_of(b[1], b[2]);
    let g = hex_pair_of(b[3], b[4]);
    let bl = hex_pair_of(b[5], b[6]);
    match (r, g, bl) {
        (Some(r), Some(g), Some(bl)) => {
            if contrast_against_white_ok(r, g, bl) {
                Ok(())
            } else {
                Err("accent color must have at least 4.5:1 contrast against white (WCAG AA)")
            }
        },
        _ => Err("invalid hex digits"),
    }
}

} // verus!
