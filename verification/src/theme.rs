//! Color values of the theme schema, with a verified hex codec.
//!
//! A color is four channel bytes; its text form is `#rrggbb`, with the alpha
//! pair appended only when it is not fully opaque. Parsing accepts either
//! length, upper or lower case, and any number of leading hash signs, and
//! rejects everything else instead of failing.

use vstd::prelude::*;

verus! {

/// The alpha channel a color gets when none is given: fully opaque.
pub fn default_alpha() -> (r: u8)
    ensures
        r == 255,
{
    255
}

/// The font family used when a theme names none.
pub fn default_font_family() -> (r: String)
    ensures
        r@ == "monospace"@,
{
    String::from_str("monospace")
}

/// An RGBA color, one byte per channel.
#[derive(Debug, Clone, Copy, PartialEq, Eq, Structural)]
pub struct Color {
    pub r: u8,
    pub g: u8,
    pub b: u8,
    pub a: u8,
}

/// True of a hexadecimal digit in either case.
pub open spec fn is_hex_digit(c: char) -> bool {
    ('0' <= c && c <= '9') || ('a' <= c && c <= 'f') || ('A' <= c && c <= 'F')
}

/// The value of a hexadecimal digit.
pub open spec fn hex_val(c: char) -> int {
    if '0' <= c && c <= '9' {
        c as int - '0' as int
    } else if 'a' <= c && c <= 'f' {
        c as int - 'a' as int + 10
    } else {
        c as int - 'A' as int + 10
    }
}

/// The lower-case character of one hexadecimal digit.
pub open spec fn hex_char(d: int) -> char {
    if d == 0 {
        '0'
    } else if d == 1 {
        '1'
    } else if d == 2 {
        '2'
    } else if d == 3 {
        '3'
    } else if d == 4 {
        '4'
    } else if d == 5 {
        '5'
    } else if d == 6 {
        '6'
    } else if d == 7 {
        '7'
    } else if d == 8 {
        '8'
    } else if d == 9 {
        '9'
    } else if d == 10 {
        'a'
    } else if d == 11 {
        'b'
    } else if d == 12 {
        'c'
    } else if d == 13 {
        'd'
    } else if d == 14 {
        'e'
    } else {
        'f'
    }
}

/// The two lower-case digits of one byte.
pub open spec fn byte_hex(b: int) -> Seq<char> {
    seq![hex_char(b / 16), hex_char(b % 16)]
}

/// The text left after the leading hash signs.
pub open spec fn strip_hashes(s: Seq<char>) -> Seq<char>
    decreases s.len(),
{
    if s.len() > 0 && s[0] == '#' {
        strip_hashes(s.drop_first())
    } else {
        s
    }
}

/// True when every character is a hexadecimal digit.
pub open spec fn all_hex(s: Seq<char>) -> bool {
    forall|i: int| 0 <= i < s.len() ==> is_hex_digit(#[trigger] s[i])
}

/// The color a hex text denotes: six digits for an opaque color, eight with
/// an alpha pair, after any leading hash signs; anything else denotes none.
pub open spec fn color_of_hex(s: Seq<char>) -> Option<Color> {
    let t = strip_hashes(s);
    if t.len() == 6 && all_hex(t) {
        Some(
            Color {
                r: (hex_val(t[0]) * 16 + hex_val(t[1])) as u8,
                g: (hex_val(t[2]) * 16 + hex_val(t[3])) as u8,
                b: (hex_val(t[4]) * 16 + hex_val(t[5])) as u8,
                a: 255,
            },
        )
    } else if t.len() == 8 && all_hex(t) {
        Some(
            Color {
                r: (hex_val(t[0]) * 16 + hex_val(t[1])) as u8,
                g: (hex_val(t[2]) * 16 + hex_val(t[3])) as u8,
                b: (hex_val(t[4]) * 16 + hex_val(t[5])) as u8,
                a: (hex_val(t[6]) * 16 + hex_val(t[7])) as u8,
            },
        )
    } else {
        None
    }
}

/// The hex text of a color: the alpha pair appears only when not fully
/// opaque.
pub open spec fn hex_of_color(c: Color) -> Seq<char> {
    if c.a == 255 {
        seq!['#'] + byte_hex(c.r as int) + byte_hex(c.g as int) + byte_hex(c.b as int)
    } else {
        seq!['#'] + byte_hex(c.r as int) + byte_hex(c.g as int) + byte_hex(c.b as int) + byte_hex(
            c.a as int,
        )
    }
}

/// The value of one hexadecimal digit character, `None` for any other
/// character.
fn hex_digit_val(c: char) -> (r: Option<u8>)
    ensures
        r is Some <==> is_hex_digit(c),
        (r matches Some(v) ==> v == hex_val(c) && v < 16),
{
    let code = c as u32;
    if c >= '0' && c <= '9' {
        Some((code - 48) as u8)
    } else if c >= 'a' && c <= 'f' {
        Some((code - 97 + 10) as u8)
    } else if c >= 'A' && c <= 'F' {
        Some((code - 65 + 10) as u8)
    } else {
        None
    }
}

/// One nibble as a string slice.
fn nibble_str(d: u8) -> (r: &'static str)
    requires
        d < 16,
    ensures
        r@ =~= seq![hex_char(d as int)],
{
    proof {
        reveal_strlit("0");
        reveal_strlit("1");
        reveal_strlit("2");
        reveal_strlit("3");
        reveal_strlit("4");
        reveal_strlit("5");
        reveal_strlit("6");
        reveal_strlit("7");
        reveal_strlit("8");
        reveal_strlit("9");
        reveal_strlit("a");
        reveal_strlit("b");
        reveal_strlit("c");
        reveal_strlit("d");
        reveal_strlit("e");
        reveal_strlit("f");
    }
    if d == 0 {
        "0"
    } else if d == 1 {
        "1"
    } else if d == 2 {
        "2"
    } else if d == 3 {
        "3"
    } else if d == 4 {
        "4"
    } else if d == 5 {
        "5"
    } else if d == 6 {
        "6"
    } else if d == 7 {
        "7"
    } else if d == 8 {
        "8"
    } else if d == 9 {
        "9"
    } else if d == 10 {
        "a"
    } else if d == 11 {
        "b"
    } else if d == 12 {
        "c"
    } else if d == 13 {
        "d"
    } else if d == 14 {
        "e"
    } else {
        "f"
    }
}

impl Color {
    /// An opaque color from its three channels.
    pub fn rgb(r: u8, g: u8, b: u8) -> (c: Color)
        ensures
            c == (Color { r, g, b, a: 255 }),
    {
        Color { r, g, b, a: 255 }
    }

    /// A color from all four channels.
    pub fn rgba(r: u8, g: u8, b: u8, a: u8) -> (c: Color)
        ensures
            c == (Color { r, g, b, a }),
    {
        Color { r, g, b, a }
    }

    /// Parse a hex color text; anything that is not one is `None`.
    pub fn from_hex(hex: &str) -> (r: Option<Color>)
        ensures
            r == color_of_hex(hex@),
    {
        let n = hex.unicode_len();
        // Skip the leading hash signs.
        let mut start: usize = 0;
        proof {
            assert(hex@.skip(0) =~= hex@);
        }
        while start < n && hex.get_char(start) == '#'
            invariant
                start <= n,
                n == hex@.len(),
                forall|i: int| 0 <= i < start ==> hex@[i] == '#',
                strip_hashes(hex@) == strip_hashes(hex@.skip(start as int)),
            decreases n - start,
        {
            proof {
                assert(hex@.skip(start as int).drop_first() =~= hex@.skip(start + 1));
            }
            start = start + 1;
        }
        proof {
            assert(strip_hashes(hex@.skip(start as int)) == hex@.skip(start as int));
            assert(strip_hashes(hex@) == hex@.skip(start as int));
        }
        let len = n - start;
        if len != 6 && len != 8 {
            return None;
        }
        let mut vals: Vec<u8> = Vec::new();
        let mut i: usize = 0;
        while i < len
            invariant
                n == hex@.len(),
                start + len == n,
                len == 6 || len == 8,
                strip_hashes(hex@) == hex@.skip(start as int),
                i <= len,
                vals@.len() == i,
                all_hex(hex@.skip(start as int).take(i as int)),
                forall|j: int|
                    0 <= j < i ==> vals@[j] == hex_val(hex@[start + j]) && #[trigger] vals@[j] < 16,
            decreases len - i,
        {
            match hex_digit_val(hex.get_char(start + i)) {
                Some(v) => {
                    vals.push(v);
                    proof {
                        assert forall|j: int|
                            0 <= j < i + 1 implies is_hex_digit(
                            #[trigger] hex@.skip(start as int).take(i + 1)[j],
                        ) by {
                            assert(hex@.skip(start as int).take(i + 1)[j] == hex@[start + j]);
                        }
                    }
                },
                None => {
                    proof {
                        let t = hex@.skip(start as int);
                        assert(t[i as int] == hex@[start + i]);
                        assert(!all_hex(t));
                    }
                    return None;
                },
            }
            i = i + 1;
        }
        proof {
            let t = hex@.skip(start as int);
            assert(t.take(len as int) =~= t);
            assert forall|j: int| 0 <= j < len implies t[j] == hex@[start + j] by {}
        }
        let r = vals[0] * 16 + vals[1];
        let g = vals[2] * 16 + vals[3];
        let b = vals[4] * 16 + vals[5];
        let a = if len == 8 {
            vals[6] * 16 + vals[7]
        } else {
            255
        };
        Some(Color { r, g, b, a })
    }

    /// The hex text of this color.
    pub fn to_hex(&self) -> (r: String)
        ensures
            r@ == hex_of_color(*self),
    {
        proof {
            reveal_strlit("#");
        }
        let mut s = String::from_str("#");
        s.append(nibble_str(self.r / 16));
        s.append(nibble_str(self.r % 16));
        s.append(nibble_str(self.g / 16));
        s.append(nibble_str(self.g % 16));
        s.append(nibble_str(self.b / 16));
        s.append(nibble_str(self.b % 16));
        if self.a != 255 {
            s.append(nibble_str(self.a / 16));
            s.append(nibble_str(self.a % 16));
        }
        proof {
            assert(s@ =~= hex_of_color(*self));
        }
        s
    }
}

/// Rendering a color to hex text and parsing it back gives the same color.
pub proof fn lemma_hex_round_trip(c: Color)
    ensures
        color_of_hex(hex_of_color(c)) == Some(c),
{
    let t = hex_of_color(c);
    assert(t[0] == '#');
    lemma_hex_char_val(c.r as int / 16);
    lemma_hex_char_val(c.r as int % 16);
    lemma_hex_char_val(c.g as int / 16);
    lemma_hex_char_val(c.g as int % 16);
    lemma_hex_char_val(c.b as int / 16);
    lemma_hex_char_val(c.b as int % 16);
    lemma_hex_char_val(c.a as int / 16);
    lemma_hex_char_val(c.a as int % 16);
    assert(t.drop_first()[0] != '#');
    assert(strip_hashes(t.drop_first()) == t.drop_first());
    assert(strip_hashes(t) == t.drop_first());
    assert(strip_hashes(t) =~= t.skip(1));
    let u = strip_hashes(t);
    assert forall|i: int| 0 <= i < u.len() implies is_hex_digit(#[trigger] u[i]) by {
        assert(u[i] == t[i + 1]);
    }
    assert(hex_val(u[0]) * 16 + hex_val(u[1]) == c.r as int);
    assert(hex_val(u[2]) * 16 + hex_val(u[3]) == c.g as int);
    assert(hex_val(u[4]) * 16 + hex_val(u[5]) == c.b as int);
    if c.a != 255 {
        assert(hex_val(u[6]) * 16 + hex_val(u[7]) == c.a as int);
    }
}

/// A hex digit character denotes its digit, and is never a hash sign.
proof fn lemma_hex_char_val(d: int)
    requires
        0 <= d < 16,
    ensures
        is_hex_digit(hex_char(d)),
        hex_val(hex_char(d)) == d,
        hex_char(d) != '#',
{
}

/// The named colors of a theme: backgrounds, text, interface elements, block
/// states and the sixteen terminal colors.
#[derive(Debug, Clone, Copy, PartialEq, Eq, Structural)]
pub struct ColorScheme {
    pub background: Color,
    pub background_secondary: Color,
    pub background_tertiary: Color,
    pub text_primary: Color,
    pub text_secondary: Color,
    pub text_disabled: Color,
    pub border: Color,
    pub selection: Color,
    pub cursor: Color,
    pub highlight: Color,
    pub block_running: Color,
    pub block_success: Color,
    pub block_error: Color,
    pub block_editing: Color,
    pub ansi_black: Color,
    pub ansi_red: Color,
    pub ansi_green: Color,
    pub ansi_yellow: Color,
    pub ansi_blue: Color,
    pub ansi_magenta: Color,
    pub ansi_cyan: Color,
    pub ansi_white: Color,
    pub ansi_bright_black: Color,
    pub ansi_bright_red: Color,
    pub ansi_bright_green: Color,
    pub ansi_bright_yellow: Color,
    pub ansi_bright_blue: Color,
    pub ansi_bright_magenta: Color,
    pub ansi_bright_cyan: Color,
    pub ansi_bright_white: Color,
}

/// The colors used when rendering highlighted source text.
#[derive(Debug, Clone, Copy, PartialEq, Eq, Structural)]
pub struct SyntaxColors {
    pub keyword: Color,
    pub string: Color,
    pub comment: Color,
    pub function: Color,
    pub variable: Color,
    pub number: Color,
    pub operator: Color,
    pub types: Color,
}

} // verus!
