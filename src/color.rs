use vstd::prelude::*;

use crate::text::chars_of;

verus! {

/// Why a color string could not be read.
#[derive(Debug, Clone, Copy, PartialEq, Eq, Structural)]
pub enum FormatError {
    /// The string does not start with `#`.
    MissingHash,
    /// The part after `#` is not 3, 6 or 8 characters long.
    BadLength,
    /// A character after `#` is not a hexadecimal digit.
    BadDigit,
}

/// Value of a hexadecimal digit, either case; -1 for any other character.
pub open spec fn hex_val(c: char) -> int {
    if '0' <= c && c <= '9' {
        c as int - '0' as int
    } else if 'a' <= c && c <= 'f' {
        c as int - 'a' as int + 10
    } else if 'A' <= c && c <= 'F' {
        c as int - 'A' as int + 10
    } else {
        -1
    }
}

pub open spec fn is_hex(c: char) -> bool {
    hex_val(c) >= 0
}

pub open spec fn all_hex(b: Seq<char>) -> bool {
    forall|i: int| 0 <= i < b.len() ==> is_hex(#[trigger] b[i])
}

/// The byte written by the two digits `hi`, `lo`.
pub open spec fn hex_byte(hi: char, lo: char) -> u8 {
    (16 * hex_val(hi) + hex_val(lo)) as u8
}

/// What a color string stands for, as (red, green, blue, alpha): `#` followed by
/// 3 digits (each doubled, alpha 255), 6 digits (alpha 255) or 8 digits (alpha last).
pub open spec fn parse_spec(s: Seq<char>) -> Result<(u8, u8, u8, u8), FormatError> {
    if s.len() == 0 || s[0] != '#' {
        Err(FormatError::MissingHash)
    } else {
        let b = s.subrange(1, s.len() as int);
        if b.len() != 3 && b.len() != 6 && b.len() != 8 {
            Err(FormatError::BadLength)
        } else if !all_hex(b) {
            Err(FormatError::BadDigit)
        } else if b.len() == 3 {
            Ok((hex_byte(b[0], b[0]), hex_byte(b[1], b[1]), hex_byte(b[2], b[2]), 255))
        } else if b.len() == 6 {
            Ok((hex_byte(b[0], b[1]), hex_byte(b[2], b[3]), hex_byte(b[4], b[5]), 255))
        } else {
            Ok((hex_byte(b[0], b[1]), hex_byte(b[2], b[3]), hex_byte(b[4], b[5]), hex_byte(b[6], b[7])))
        }
    }
}

/// Perceived brightness scaled by 1000: `299 R + 587 G + 114 B`.
pub open spec fn brightness_milli(r: u8, g: u8, b: u8) -> int {
    299 * r + 587 * g + 114 * b
}

/// A color is dark when it reads and its brightness is below 128; a string that
/// does not read counts as light.
pub open spec fn is_dark_spec(s: Seq<char>) -> bool {
    match parse_spec(s) {
        Ok((r, g, b, _)) => brightness_milli(r, g, b) < 128 * 1000,
        Err(_) => false,
    }
}

/// One channel of `f` laid with opacity `a / 255` over `b`, rounded to the
/// nearest integer (a tie cannot occur, since 255 is odd).
pub open spec fn blend(a: u8, f: u8, b: u8) -> int {
    (a * f + (255 - a) * b + 127) / 255
}

/// The digit for a value below 16, in lower case.
pub open spec fn hex_digit(d: int) -> char {
    if d < 10 {
        (d + '0' as int) as char
    } else {
        (d - 10 + 'a' as int) as char
    }
}

/// Two lower-case digits for a byte.
pub open spec fn hex2(v: int) -> Seq<char> {
    seq![hex_digit(v / 16), hex_digit(v % 16)]
}

/// `#rrggbb` in lower case.
pub open spec fn hex6(r: int, g: int, b: int) -> Seq<char> {
    seq!['#'] + hex2(r) + hex2(g) + hex2(b)
}

/// `fg` composited over `bg`, as `#rrggbb`; an error of `fg` comes first.
pub open spec fn composite_spec(fg: Seq<char>, bg: Seq<char>) -> Result<Seq<char>, FormatError> {
    match parse_spec(fg) {
        Err(e) => Err(e),
        Ok((fr, fg_, fb, fa)) => match parse_spec(bg) {
            Err(e) => Err(e),
            Ok((br, bg_, bb, _)) => Ok(hex6(blend(fa, fr, br), blend(fa, fg_, bg_), blend(fa, fb, bb))),
        },
    }
}

fn digit_value(c: char) -> (r: Option<u8>)
    ensures
        r.is_some() == is_hex(c),
        r.is_some() ==> r.unwrap() as int == hex_val(c),
{
    if '0' <= c && c <= '9' {
        Some(((c as u32) - ('0' as u32)) as u8)
    } else if 'a' <= c && c <= 'f' {
        Some(((c as u32) - ('a' as u32) + 10) as u8)
    } else if 'A' <= c && c <= 'F' {
        Some(((c as u32) - ('A' as u32) + 10) as u8)
    } else {
        None
    }
}

fn byte_value(hi: char, lo: char) -> (r: Option<u8>)
    ensures
        r.is_some() == (is_hex(hi) && is_hex(lo)),
        r.is_some() ==> r.unwrap() == hex_byte(hi, lo),
{
    match (digit_value(hi), digit_value(lo)) {
        (Some(h), Some(l)) => Some(h * 16 + l),
        _ => None,
    }
}

/// Reads a color string: `#` and then 3, 6 or 8 hexadecimal digits.
pub fn parse_color(color: &str) -> (r: Result<(u8, u8, u8, u8), FormatError>)
    ensures
        r == parse_spec(color@),
{
    let cs = chars_of(color);
    if cs.len() == 0 || cs[0] != '#' {
        return Err(FormatError::MissingHash);
    }
    let ghost b = color@.subrange(1, color@.len() as int);
    assert(forall|i: int| 0 <= i < b.len() ==> b[i] == cs@[i + 1]);
    let n = cs.len() - 1;
    if n != 3 && n != 6 && n != 8 {
        return Err(FormatError::BadLength);
    }
    if n == 3 {
        let r = byte_value(cs[1], cs[1]);
        let g = byte_value(cs[2], cs[2]);
        let bl = byte_value(cs[3], cs[3]);
        match (r, g, bl) {
            (Some(r), Some(g), Some(bl)) => {
                assert(all_hex(b));
                Ok((r, g, bl, 255))
            },
            _ => {
                assert(!all_hex(b)) by {
                    if !is_hex(b[0]) {
                    } else if !is_hex(b[1]) {
                    } else {
                        assert(!is_hex(b[2]));
                    }
                }
                Err(FormatError::BadDigit)
            },
        }
    } else {
        let r = byte_value(cs[1], cs[2]);
        let g = byte_value(cs[3], cs[4]);
        let bl = byte_value(cs[5], cs[6]);
        let a = if n == 8 {
            byte_value(cs[7], cs[8])
        } else {
            Some(255u8)
        };
        match (r, g, bl, a) {
            (Some(r), Some(g), Some(bl), Some(a)) => {
                assert(all_hex(b));
                Ok((r, g, bl, a))
            },
            _ => {
                assert(!all_hex(b)) by {
                    if !is_hex(b[0]) {
                    } else if !is_hex(b[1]) {
                    } else if !is_hex(b[2]) {
                    } else if !is_hex(b[3]) {
                    } else if !is_hex(b[4]) {
                    } else if !is_hex(b[5]) {
                    } else if !is_hex(b[6]) {
                    } else {
                        assert(!is_hex(b[7]));
                    }
                }
                Err(FormatError::BadDigit)
            },
        }
    }
}

/// Whether a color reads as dark: brightness `0.299 R + 0.587 G + 0.114 B`
/// below 128. A string that is not a color counts as light.
pub fn is_dark_color(color: &str) -> (r: bool)
    ensures
        r == is_dark_spec(color@),
{
    match parse_color(color) {
        Ok((r, g, b, _)) => (299 * (r as u32) + 587 * (g as u32) + 114 * (b as u32)) < 128000,
        Err(_) => false,
    }
}

fn blend_channel(a: u8, f: u8, b: u8) -> (r: u8)
    ensures
        r as int == blend(a, f, b),
{
    proof {
        lemma_blend_bounds(a, f, b);
    }
    ((a as u32 * f as u32 + (255 - a as u32) * b as u32 + 127) / 255) as u8
}

pub(crate) fn digit_text(d: u8) -> (r: &'static str)
    requires
        d < 16,
    ensures
        r@ == seq![hex_digit(d as int)],
{
    let digits = "0123456789abcdef";
    proof {
        reveal_strlit("0123456789abcdef");
    }
    digits.substring_char(d as usize, d as usize + 1)
}

fn push_hex2(out: &mut String, v: u8)
    ensures
        final(out)@ == old(out)@ + hex2(v as int),
{
    out.append(digit_text(v / 16));
    out.append(digit_text(v % 16));
    assert(final(out)@ =~= old(out)@ + hex2(v as int));
}

/// Lays `fg` over `bg` using `fg`'s alpha, and writes the result as
/// `#rrggbb` (the alpha is dropped). With `fg == bg` this checks a color and
/// strips its alpha.
pub fn normalize_color(fg: &str, bg: &str) -> (r: Result<String, FormatError>)
    ensures
        match r {
            Ok(s) => composite_spec(fg@, bg@) == Ok::<Seq<char>, FormatError>(s@),
            Err(e) => composite_spec(fg@, bg@) == Err::<Seq<char>, FormatError>(e),
        },
{
    let (fr, fgn, fb, fa) = match parse_color(fg) {
        Ok(c) => c,
        Err(e) => return Err(e),
    };
    let (br, bgn, bb, _) = match parse_color(bg) {
        Ok(c) => c,
        Err(e) => return Err(e),
    };
    let r = blend_channel(fa, fr, br);
    let g = blend_channel(fa, fgn, bgn);
    let b = blend_channel(fa, fb, bb);
    let mut out = String::new();
    out.append("#");
    proof {
        reveal_strlit("#");
    }
    push_hex2(&mut out, r);
    push_hex2(&mut out, g);
    push_hex2(&mut out, b);
    assert(out@ =~= hex6(r as int, g as int, b as int));
    Ok(out)
}

/// A blended channel is a byte, and is the nearest integer to the exact mix
/// `(a f + (255 - a) b) / 255`.
pub proof fn lemma_blend_bounds(a: u8, f: u8, b: u8)
    ensures
        0 <= blend(a, f, b) <= 255,
        255 * blend(a, f, b) - 127 <= a * f + (255 - a) * b <= 255 * blend(a, f, b) + 127,
{
    assert(0 <= a * f <= a * 255) by (nonlinear_arith);
    assert(0 <= (255 - a) * b <= (255 - a) * 255) by (nonlinear_arith)
        requires a <= 255, b <= 255;
    assert(a * 255 + (255 - a) * 255 == 255 * 255) by (nonlinear_arith);
}

/// A `#` and six hexadecimal digits read as the three bytes they write, with
/// alpha 255.
pub proof fn lemma_six_digits_opaque(s: Seq<char>)
    requires
        s.len() == 7,
        s[0] == '#',
        all_hex(s.subrange(1, 7)),
    ensures
        parse_spec(s) == Ok::<(u8, u8, u8, u8), FormatError>(
            (hex_byte(s[1], s[2]), hex_byte(s[3], s[4]), hex_byte(s[5], s[6]), 255),
        ),
{
    let b = s.subrange(1, 7);
    assert(b[0] == s[1] && b[1] == s[2] && b[2] == s[3] && b[3] == s[4] && b[4] == s[5] && b[5]
        == s[6]);
}

/// The short form `#abc` reads exactly as `#aabbcc` does, also when it is not a color.
pub proof fn lemma_short_form_expands(s: Seq<char>)
    requires
        s.len() == 4,
        s[0] == '#',
    ensures
        parse_spec(s) == parse_spec(seq!['#', s[1], s[1], s[2], s[2], s[3], s[3]]),
{
    let t = seq!['#', s[1], s[1], s[2], s[2], s[3], s[3]];
    let b = s.subrange(1, 4);
    let c = t.subrange(1, 7);
    assert(b[0] == s[1] && b[1] == s[2] && b[2] == s[3]);
    assert(c[0] == s[1] && c[1] == s[1] && c[2] == s[2] && c[3] == s[2] && c[4] == s[3] && c[5]
        == s[3]);
    if all_hex(b) {
        assert(all_hex(c)) by {
            assert forall|i: int| 0 <= i < c.len() implies is_hex(#[trigger] c[i]) by {
                assert(c[i] == b[i / 2]);
            }
        }
    } else {
        let i = choose|i: int| 0 <= i < b.len() && !is_hex(#[trigger] b[i]);
        assert(c[2 * i] == b[i]);
    }
}

/// An opaque foreground covers the background: the result is the foreground's own
/// red, green and blue. A fully clear one leaves the background as it is.
pub proof fn lemma_composite_extremes(fg: Seq<char>, bg: Seq<char>)
    requires
        parse_spec(fg) is Ok,
        parse_spec(bg) is Ok,
    ensures
        ({
            let (fr, fgn, fb, fa) = parse_spec(fg)->Ok_0;
            let (br, bgn, bb, _) = parse_spec(bg)->Ok_0;
            &&& fa == 255 ==> composite_spec(fg, bg) == Ok::<Seq<char>, FormatError>(
                hex6(fr as int, fgn as int, fb as int),
            )
            &&& fa == 0 ==> composite_spec(fg, bg) == Ok::<Seq<char>, FormatError>(
                hex6(br as int, bgn as int, bb as int),
            )
        }),
{
    let (fr, fgn, fb, fa) = parse_spec(fg)->Ok_0;
    let (br, bgn, bb, _) = parse_spec(bg)->Ok_0;
    assert forall|f: u8, b: u8| blend(255, f, b) == f && blend(0, f, b) == b by {
        assert((255 * f + 0 * b + 127) / 255 == f) by (nonlinear_arith)
            requires f <= 255;
        assert((0 * f + 255 * b + 127) / 255 == b) by (nonlinear_arith)
            requires b <= 255;
    }
}

} // verus!
