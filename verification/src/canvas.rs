//! Canvas presets, background colours and the blank canvas image.

use image::ImageEncoder;
use vstd::prelude::*;

verus! {

/// The three canvas sizes a lobby can pick.
#[derive(Debug, Clone, Copy, PartialEq, Eq, Structural)]
pub enum CanvasPreset {
    Square,
    Portrait,
    Landscape,
}

/// Width and height of a preset, in pixels.
pub open spec fn preset_dimensions(preset: CanvasPreset) -> (u32, u32) {
    match preset {
        CanvasPreset::Square => (1024, 1024),
        CanvasPreset::Portrait => (1080, 1920),
        CanvasPreset::Landscape => (1920, 1080),
    }
}

/// The name a preset is shown under.
pub open spec fn preset_label(preset: CanvasPreset) -> Seq<char> {
    match preset {
        CanvasPreset::Square => "square"@,
        CanvasPreset::Portrait => "portrait"@,
        CanvasPreset::Landscape => "landscape"@,
    }
}

impl CanvasPreset {
    pub fn dimensions(self) -> (d: (u32, u32))
        ensures
            d == preset_dimensions(self),
    {
        match self {
            CanvasPreset::Square => (1024, 1024),
            CanvasPreset::Portrait => (1080, 1920),
            CanvasPreset::Landscape => (1920, 1080),
        }
    }

    pub fn label(self) -> (l: &'static str)
        ensures
            l@ == preset_label(self),
    {
        match self {
            CanvasPreset::Square => "square",
            CanvasPreset::Portrait => "portrait",
            CanvasPreset::Landscape => "landscape",
        }
    }
}

/// Why a background colour was refused.
#[derive(Debug, Clone, Copy, PartialEq, Eq, Structural)]
pub enum ColorParseError {
    InvalidFormat,
}

impl ColorParseError {
    /// The user-facing text of the error.
    pub fn message(&self) -> (m: &'static str)
        ensures
            m@ == "background color must use #RRGGBB format"@,
    {
        "background color must use #RRGGBB format"
    }
}

/// An 8-bit red, green, blue colour.
#[derive(Debug, Clone, Copy, PartialEq, Eq)]
pub struct Rgb(pub [u8; 3]);

pub open spec fn is_hex_digit(c: char) -> bool {
    ('0' <= c && c <= '9') || ('a' <= c && c <= 'f') || ('A' <= c && c <= 'F')
}

pub open spec fn hex_value(c: char) -> nat {
    if '0' <= c && c <= '9' {
        (c as nat - '0' as nat) as nat
    } else if 'a' <= c && c <= 'f' {
        (c as nat - 'a' as nat + 10) as nat
    } else {
        (c as nat - 'A' as nat + 10) as nat
    }
}

/// `s` is `#` followed by exactly six hexadecimal digits.
pub open spec fn is_hex_color(s: Seq<char>) -> bool {
    &&& s.len() == 7
    &&& s[0] == '#'
    &&& forall|i: int| 1 <= i < 7 ==> is_hex_digit(#[trigger] s[i])
}

/// The byte written by the two hex digits at `i` and `i + 1`.
pub open spec fn hex_byte(s: Seq<char>, i: int) -> nat {
    hex_value(s[i]) * 16 + hex_value(s[i + 1])
}

pub open spec fn parsed_color(s: Seq<char>) -> Rgb {
    Rgb([hex_byte(s, 1) as u8, hex_byte(s, 3) as u8, hex_byte(s, 5) as u8])
}

fn hex_digit_value(c: char) -> (r: Option<u8>)
    ensures
        r is Some <==> is_hex_digit(c),
        r matches Some(v) ==> v as nat == hex_value(c) && v < 16,
{
    if '0' <= c && c <= '9' {
        Some(((c as u32) - ('0' as u32)) as u8)
    } else if 'a' <= c && c <= 'f' {
        Some(((c as u32) - ('a' as u32) + 10) as u8)
    } else if 'A' <= c && c <= 'F' {
        Some(((c as u32) - ('A' as u32) + 10) as u8)
    } else {
        None
    }
}

/// Parses a `#RRGGBB` colour; digits may be upper or lower case.
pub fn parse_hex_color(hex: &str) -> (r: Result<Rgb, ColorParseError>)
    ensures
        is_hex_color(hex@) ==> r == Ok::<Rgb, ColorParseError>(parsed_color(hex@)),
        !is_hex_color(hex@) ==> r == Err::<Rgb, ColorParseError>(ColorParseError::InvalidFormat),
{
    let chars = crate::text::chars_of(hex);
    if chars.len() != 7 || chars[0] != '#' {
        return Err(ColorParseError::InvalidFormat);
    }
    let mut values: Vec<u8> = Vec::new();
    let mut i: usize = 1;
    while i < 7
        invariant
            1 <= i <= 7,
            chars@ == hex@,
            chars@.len() == 7,
            values@.len() == i - 1,
            forall|j: int| 1 <= j < i ==> is_hex_digit(#[trigger] chars@[j]),
            forall|k: int|
                0 <= k < i - 1 ==> #[trigger] values@[k] as nat == hex_value(chars@[k + 1])
                    && values@[k] < 16,
        decreases 7 - i,
    {
        match hex_digit_value(chars[i]) {
            Some(v) => values.push(v),
            None => {
                return Err(ColorParseError::InvalidFormat);
            },
        }
        i += 1;
    }
    assert(values@[0] as nat == hex_value(chars@[1]));
    assert(values@[1] as nat == hex_value(chars@[2]));
    assert(values@[2] as nat == hex_value(chars@[3]));
    assert(values@[3] as nat == hex_value(chars@[4]));
    assert(values@[4] as nat == hex_value(chars@[5]));
    assert(values@[5] as nat == hex_value(chars@[6]));
    let red = values[0] * 16 + values[1];
    let green = values[2] * 16 + values[3];
    let blue = values[4] * 16 + values[5];
    Ok(Rgb([red, green, blue]))
}

/// What can go wrong while drawing the blank canvas.
#[derive(Debug, Clone, Copy, PartialEq, Eq, Structural)]
pub enum CanvasError {
    /// The PNG encoder reported a failure.
    EncodingFailed,
}

/// `image::ImageError`, only carried from the encoder to the caller, unread.
#[verifier::external_type_specification]
#[verifier::external_body]
pub struct ExImageError(image::ImageError);

/// The bytes of the PNG file that the `image` crate's PNG encoder writes for
/// an 8-bit RGB image of the given size and raw pixel rows.
pub uninterp spec fn png_rgb8_encoding(width: u32, height: u32, pixels: Seq<u8>) -> Seq<u8>;

/// Trusted: `image::codecs::png::PngEncoder::write_image` with `ExtendedColorType::Rgb8`,
/// writing into a fresh `Vec<u8>`. It panics unless the buffer holds exactly
/// three bytes per pixel, so that is required. The `png` encoder under it
/// refuses a zero width or a zero height when it writes the header, and has no
/// other way to fail here: the colour type is valid, the row data has the
/// length it checks for, and writing into a `Vec<u8>` does not fail. So the
/// call succeeds exactly when both sides are non-zero, and the bytes are then
/// the encoder's output for these arguments; nothing is claimed of the error.
#[verifier::external_body]
fn encode_png_rgb8(pixels: &[u8], width: u32, height: u32) -> (r: Result<Vec<u8>, image::ImageError>)
    requires
        pixels@.len() == width as int * height as int * 3,
    ensures
        r is Ok <==> (width > 0 && height > 0),
        r matches Ok(bytes) ==> bytes@ == png_rgb8_encoding(width, height, pixels@),
{
    let mut bytes = Vec::new();
    image::codecs::png::PngEncoder::new(&mut bytes).write_image(
        pixels,
        width,
        height,
        image::ExtendedColorType::Rgb8,
    ).map(|_| bytes)
}

/// Raw RGB rows of `count` pixels that all have the colour `rgb`.
pub open spec fn solid_pixels(count: nat, rgb: Rgb) -> Seq<u8> {
    Seq::new(count * 3, |i: int| rgb.0[i % 3])
}

fn fill_pixels(count: usize, rgb: Rgb) -> (v: Vec<u8>)
    requires
        count * 3 <= usize::MAX,
    ensures
        v@ == solid_pixels(count as nat, rgb),
{
    let mut v: Vec<u8> = Vec::new();
    let mut i: usize = 0;
    while i < count
        invariant
            i <= count,
            count * 3 <= usize::MAX,
            v@ == solid_pixels(i as nat, rgb),
        decreases count - i,
    {
        v.push(rgb.0[0]);
        v.push(rgb.0[1]);
        v.push(rgb.0[2]);
        proof {
            let next = solid_pixels((i + 1) as nat, rgb);
            assert forall|j: int| 0 <= j < next.len() implies #[trigger] v@[j] == next[j] by {
                if j < i * 3 {
                    assert(v@[j] == solid_pixels(i as nat, rgb)[j]);
                } else {
                    assert((i * 3 + 0) % 3 == 0) by (nonlinear_arith);
                    assert((i * 3 + 1) % 3 == 1) by (nonlinear_arith);
                    assert((i * 3 + 2) % 3 == 2) by (nonlinear_arith);
                }
            }
            assert(v@ =~= next);
        }
        i += 1;
    }
    v
}

/// A PNG file of the preset's size, filled with the background colour.
pub fn generate_canvas_png(preset: CanvasPreset, background: Rgb) -> (r: Result<Vec<u8>, CanvasError>)
    ensures
        r matches Ok(bytes) ==> bytes@ == png_rgb8_encoding(
            preset_dimensions(preset).0,
            preset_dimensions(preset).1,
            solid_pixels(
                preset_dimensions(preset).0 as nat * preset_dimensions(preset).1 as nat,
                background,
            ),
        ),
        r is Ok,
{
    let (width, height) = preset.dimensions();
    let count = (width as usize) * (height as usize);
    let pixels = fill_pixels(count, background);
    match encode_png_rgb8(pixels.as_slice(), width, height) {
        Ok(bytes) => Ok(bytes),
        Err(_) => Err(CanvasError::EncodingFailed),
    }
}

} // verus!
