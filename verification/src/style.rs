//! Colors and text styles, and their compilation to ANSI numeric codes.

use vstd::prelude::*;

use crate::error::Error;
use crate::strutil::append_dec;
use crate::strutil::dec_seq;
use crate::strutil::hex_val;
use crate::strutil::hex_val_of;
use crate::strutil::is_hex_digit;
use crate::strutil::is_hex_digit_char;
use crate::strutil::str_eq;

verus! {

/// A terminal color: one of eight named colors, the terminal default, or a
/// 24-bit RGB triple.
#[derive(Clone, Copy, Debug, PartialEq, Eq, Structural)]
pub enum Color {
    Default,
    Red,
    Green,
    Yellow,
    Blue,
    Magenta,
    Cyan,
    White,
    Black,
    Hex(u8, u8, u8),
}

/// The numeric foreground code of a named color; `Hex` has none.
pub open spec fn spec_ansi_code(c: Color) -> u8 {
    match c {
        Color::Default => 39,
        Color::Red => 31,
        Color::Green => 32,
        Color::Yellow => 33,
        Color::Blue => 34,
        Color::Magenta => 35,
        Color::Cyan => 36,
        Color::White => 37,
        Color::Black => 30,
        Color::Hex(_, _, _) => 0,
    }
}

/// The codes a color contributes to the foreground channel: none for the
/// default, an extended-color marker plus the triple for RGB, and the fixed
/// numeric code otherwise.
pub open spec fn fg_codes(c: Color) -> Seq<u8> {
    match c {
        Color::Default => Seq::empty(),
        Color::Hex(r, g, b) => seq![38u8, r, g, b],
        _ => seq![spec_ansi_code(c)],
    }
}

/// The codes a color contributes to the background channel: as the
/// foreground, but named codes are offset by 10 and RGB uses marker 48.
pub open spec fn bg_codes(c: Color) -> Seq<u8> {
    match c {
        Color::Default => Seq::empty(),
        Color::Hex(r, g, b) => seq![48u8, r, g, b],
        _ => seq![(spec_ansi_code(c) + 10) as u8],
    }
}

impl Color {
    /// The fixed numeric foreground code of a named color.
    pub fn ansi_code(&self) -> (r: u8)
        requires
            !(self matches Color::Hex(_, _, _)),
        ensures
            r == spec_ansi_code(*self),
    {
        match self {
            Color::Default => 39,
            Color::Red => 31,
            Color::Green => 32,
            Color::Yellow => 33,
            Color::Blue => 34,
            Color::Magenta => 35,
            Color::Cyan => 36,
            Color::White => 37,
            Color::Black => 30,
            Color::Hex(_, _, _) => 0,
        }
    }

    /// Appends this color's foreground codes onto `vec`.
    pub fn append_foreground(self, vec: &mut Vec<u8>)
        ensures
            final(vec)@ == old(vec)@ + fg_codes(self),
    {
        match self {
            Color::Default => {
                assert(old(vec)@ + fg_codes(self) =~= old(vec)@);
            }
            Color::Hex(r, g, b) => {
                vec.push(38);
                vec.push(r);
                vec.push(g);
                vec.push(b);
                assert(final(vec)@ =~= old(vec)@ + fg_codes(self));
            }
            _ => {
                let c = self.ansi_code();
                vec.push(c);
                assert(final(vec)@ =~= old(vec)@ + fg_codes(self));
            }
        }
    }

    /// Appends this color's background codes onto `vec`.
    pub fn append_background(self, vec: &mut Vec<u8>)
        ensures
            final(vec)@ == old(vec)@ + bg_codes(self),
    {
        match self {
            Color::Default => {
                assert(old(vec)@ + bg_codes(self) =~= old(vec)@);
            }
            Color::Hex(r, g, b) => {
                vec.push(48);
                vec.push(r);
                vec.push(g);
                vec.push(b);
                assert(final(vec)@ =~= old(vec)@ + bg_codes(self));
            }
            _ => {
                let c = self.ansi_code();
                vec.push(c + 10);
                assert(final(vec)@ =~= old(vec)@ + bg_codes(self));
            }
        }
    }
}

/// A visual style: independent foreground and background colors and three
/// boolean attributes.
#[derive(Clone, Copy, Debug, PartialEq, Eq, Structural)]
pub struct Style {
    pub fg: Color,
    pub bg: Color,
    pub bold: bool,
    pub italic: bool,
    pub dim: bool,
}

/// The full code sequence a style compiles to: foreground, background, then
/// bold (1), italic (3) and dim (2), in that fixed order.
pub open spec fn style_codes(s: Style) -> Seq<u8> {
    fg_codes(s.fg) + bg_codes(s.bg) + (if s.bold {
        seq![1u8]
    } else {
        Seq::empty()
    }) + (if s.italic {
        seq![3u8]
    } else {
        Seq::empty()
    }) + (if s.dim {
        seq![2u8]
    } else {
        Seq::empty()
    })
}

impl Style {
    /// Compiles the style to its sequence of numeric codes.
    pub fn codes(self) -> (r: Vec<u8>)
        ensures
            r@ == style_codes(self),
    {
        let mut codes: Vec<u8> = Vec::new();
        self.fg.append_foreground(&mut codes);
        self.bg.append_background(&mut codes);
        if self.bold {
            codes.push(1);
        }
        if self.italic {
            codes.push(3);
        }
        if self.dim {
            codes.push(2);
        }
        assert(codes@ =~= style_codes(self));
        codes
    }

    /// The opening escape sequence of the style: `ESC [` followed by every
    /// code with a `;` after it, closed by `m`.
    pub fn format_start(self) -> (r: String)
        ensures
            r@ == start_seq(self),
    {
        let codes = self.codes();
        proof {
            reveal_strlit("\u{1b}[");
            assert("\u{1b}["@ =~= seq!['\u{1b}', '[']);
        }
        let mut r = String::from_str("\u{1b}[");
        let mut i: usize = 0;
        assert(r@ =~= seq!['\u{1b}', '['] + codes_upto(codes@, 0));
        while i < codes.len()
            invariant
                i <= codes.len(),
                codes@ == style_codes(self),
                r@ == seq!['\u{1b}', '['] + codes_upto(codes@, i as int),
            decreases codes.len() - i,
        {
            append_dec(&mut r, codes[i]);
            proof {
                reveal_strlit(";");
                assert(";"@ =~= seq![';']);
            }
            r.append(";");
            i = i + 1;
            assert(r@ =~= seq!['\u{1b}', '['] + codes_upto(codes@, i as int));
        }
        proof {
            reveal_strlit("m");
            assert("m"@ =~= seq!['m']);
        }
        r.append("m");
        assert(r@ =~= start_seq(self));
        r
    }

    /// Wraps `text` between the style's opening sequence and the full reset,
    /// so a styled fragment never bleeds into what follows it.
    pub fn format(self, text: &str) -> (r: String)
        ensures
            r@ == wrap_seq(self, text@),
    {
        let mut r = self.format_start();
        r.append(text);
        proof {
            reveal_strlit("\u{1b}[0m");
            assert("\u{1b}[0m"@ =~= reset_seq());
        }
        r.append("\u{1b}[0m");
        assert(r@ =~= wrap_seq(self, text@));
        r
    }
}

/// The codes of `cs` before position `i`, each rendered in decimal with a
/// `;` after it.
pub open spec fn codes_upto(cs: Seq<u8>, i: int) -> Seq<char>
    decreases i,
{
    if i <= 0 {
        Seq::empty()
    } else {
        codes_upto(cs, i - 1) + dec_seq(cs[i - 1]) + seq![';']
    }
}

/// The rendered code list of a whole code sequence.
pub open spec fn codes_str(cs: Seq<u8>) -> Seq<char> {
    codes_upto(cs, cs.len() as int)
}

/// The opening escape sequence of a style.
pub open spec fn start_seq(s: Style) -> Seq<char> {
    seq!['\u{1b}', '['] + codes_str(style_codes(s)) + seq!['m']
}

/// The full reset sequence, emitted after every styled span.
pub open spec fn reset_seq() -> Seq<char> {
    seq!['\u{1b}', '[', '0', 'm']
}

/// `text` wrapped by a style's opening sequence and the reset.
pub open spec fn wrap_seq(s: Style, text: Seq<char>) -> Seq<char> {
    start_seq(s) + text + reset_seq()
}

/// `text` wrapped by the style if one is given, else `text` itself.
pub open spec fn opt_wrap(s: Option<Style>, text: Seq<char>) -> Seq<char> {
    match s {
        Some(st) => wrap_seq(st, text),
        None => text,
    }
}

/// The opening escape sequence of the style if one is given, else nothing.
pub open spec fn opt_start(s: Option<Style>) -> Seq<char> {
    match s {
        Some(st) => start_seq(st),
        None => Seq::empty(),
    }
}

/// Wraps `text` in `style` if one is given; otherwise returns it untouched.
pub fn option_format(style: Option<Style>, text: &str) -> (r: String)
    ensures
        r@ == opt_wrap(style, text@),
{
    match style {
        Some(st) => st.format(text),
        None => text.to_owned(),
    }
}

/// Color compilation is a pure function of the style value, and the default
/// color contributes no code to either channel: a style of default colors
/// and no attributes compiles to the empty code sequence.
pub proof fn lemma_default_contributes_nothing(s: Style)
    ensures
        fg_codes(Color::Default) == Seq::<u8>::empty(),
        bg_codes(Color::Default) == Seq::<u8>::empty(),
        s.fg is Default && s.bg is Default && !s.bold && !s.italic && !s.dim ==> style_codes(s)
            == Seq::<u8>::empty(),
{
    if s.fg is Default && s.bg is Default && !s.bold && !s.italic && !s.dim {
        assert(style_codes(s) =~= Seq::<u8>::empty());
    }
}

/// Whether a token has the `#` lead of an RGB color.
pub open spec fn starts_hash(v: Seq<char>) -> bool {
    v.len() > 0 && v[0] == '#'
}

/// The value of the hexadecimal pair at position `i`.
pub open spec fn pair_val(v: Seq<char>, i: int) -> u8 {
    (hex_val(v[i]) * 16 + hex_val(v[i + 1])) as u8
}

/// Whether the two characters at position `i` are hexadecimal digits.
pub open spec fn pair_ok(v: Seq<char>, i: int) -> bool {
    is_hex_digit(v[i]) && is_hex_digit(v[i + 1])
}

/// The color a well-formed name token denotes.
pub open spec fn name_color(v: Seq<char>) -> Option<Color> {
    if v == "default"@ {
        Some(Color::Default)
    } else if v == "red"@ {
        Some(Color::Red)
    } else if v == "green"@ {
        Some(Color::Green)
    } else if v == "yellow"@ {
        Some(Color::Yellow)
    } else if v == "blue"@ {
        Some(Color::Blue)
    } else if v == "magenta"@ {
        Some(Color::Magenta)
    } else if v == "cyan"@ {
        Some(Color::Cyan)
    } else if v == "white"@ {
        Some(Color::White)
    } else if v == "black"@ {
        Some(Color::Black)
    } else {
        None
    }
}

/// The color a token denotes, if any: a `#RRGGBB` token whose three pairs
/// are hexadecimal, or one of the nine names.
pub open spec fn spec_color_of(v: Seq<char>) -> Option<Color> {
    if starts_hash(v) {
        if v.len() == 7 && pair_ok(v, 1) && pair_ok(v, 3) && pair_ok(v, 5) {
            Some(Color::Hex(pair_val(v, 1), pair_val(v, 3), pair_val(v, 5)))
        } else {
            None
        }
    } else {
        name_color(v)
    }
}

/// The substring a rejected `#`-led token is blamed on: the first pair that
/// is not hexadecimal, or the whole token when its length is wrong.
pub open spec fn offending_part(v: Seq<char>) -> Seq<char> {
    if v.len() != 7 {
        v
    } else if !pair_ok(v, 1) {
        v.subrange(1, 3)
    } else if !pair_ok(v, 3) {
        v.subrange(3, 5)
    } else {
        v.subrange(5, 7)
    }
}

/// Reads the hexadecimal pair at position `i`.
fn read_pair(s: &str, i: usize) -> (r: u8)
    requires
        i + 2 <= s@.len() <= usize::MAX,
        pair_ok(s@, i as int),
    ensures
        r == pair_val(s@, i as int),
{
    let hi = hex_val_of(s.get_char(i));
    let lo = hex_val_of(s.get_char(i + 1));
    hi * 16 + lo
}

/// Parses a color token: `#RRGGBB` tokens as 24-bit RGB triples of
/// hexadecimal pairs, anything else as a color name. Rejects exactly the
/// tokens that denote no color, with `InvalidColor` blaming the offending
/// part of a `#`-led token and `UnknownColor` naming an unknown name.
pub fn parse_color(s: &str) -> (r: Result<Color, Error>)
    ensures
        match r {
            Ok(c) => spec_color_of(s@) == Some(c),
            Err(e) => spec_color_of(s@) is None && match e {
                Error::InvalidColor { token } => starts_hash(s@) && token@ == offending_part(s@),
                Error::UnknownColor { name } => !starts_hash(s@) && name@ == s@,
                _ => false,
            },
        },
{
    let len = s.unicode_len();
    if len > 0 && s.get_char(0) == '#' {
        if len != 7 {
            return Err(Error::InvalidColor { token: s.to_owned() });
        }
        if !(is_hex_digit_char(s.get_char(1)) && is_hex_digit_char(s.get_char(2))) {
            return Err(Error::InvalidColor { token: s.substring_char(1, 3).to_owned() });
        }
        if !(is_hex_digit_char(s.get_char(3)) && is_hex_digit_char(s.get_char(4))) {
            return Err(Error::InvalidColor { token: s.substring_char(3, 5).to_owned() });
        }
        if !(is_hex_digit_char(s.get_char(5)) && is_hex_digit_char(s.get_char(6))) {
            return Err(Error::InvalidColor { token: s.substring_char(5, 7).to_owned() });
        }
        Ok(Color::Hex(read_pair(s, 1), read_pair(s, 3), read_pair(s, 5)))
    } else if str_eq(s, "default") {
        Ok(Color::Default)
    } else if str_eq(s, "red") {
        Ok(Color::Red)
    } else if str_eq(s, "green") {
        Ok(Color::Green)
    } else if str_eq(s, "yellow") {
        Ok(Color::Yellow)
    } else if str_eq(s, "blue") {
        Ok(Color::Blue)
    } else if str_eq(s, "magenta") {
        Ok(Color::Magenta)
    } else if str_eq(s, "cyan") {
        Ok(Color::Cyan)
    } else if str_eq(s, "white") {
        Ok(Color::White)
    } else if str_eq(s, "black") {
        Ok(Color::Black)
    } else {
        Err(Error::UnknownColor { name: s.to_owned() })
    }
}

/// No character of `s` is the escape character or the letter that closes an
/// escape sequence.
pub open spec fn no_esc_m(s: Seq<char>) -> bool {
    forall|i: int| 0 <= i < s.len() ==> s[i] != 'm' && s[i] != '\u{1b}'
}

/// Decimal renderings contain digits only.
pub proof fn lemma_dec_no_esc_m(n: u8)
    ensures
        no_esc_m(dec_seq(n)),
{
}

/// A rendered code list contains digits and semicolons only.
pub proof fn lemma_codes_upto_no_esc_m(cs: Seq<u8>, i: int)
    ensures
        no_esc_m(codes_upto(cs, i)),
    decreases i,
{
    if i > 0 {
        lemma_codes_upto_no_esc_m(cs, i - 1);
        lemma_dec_no_esc_m(cs[i - 1]);
    }
}

} // verus!
