use dyn_fetch::error::Error;
use dyn_fetch::style::parse_color;
use dyn_fetch::style::Color;
use dyn_fetch::style::Style;

fn plain_style() -> Style {
    Style { fg: Color::Default, bg: Color::Default, bold: false, italic: false, dim: false }
}

#[test]
fn default_style_compiles_to_no_codes() {
    let codes = plain_style().codes();
    assert_eq!(codes, Vec::<u8>::new());
}

#[test]
fn named_foreground_codes() {
    let mut style = plain_style();
    style.fg = Color::Red;
    assert_eq!(style.codes(), vec![31]);
    style.fg = Color::Black;
    assert_eq!(style.codes(), vec![30]);
}

#[test]
fn background_is_offset_by_ten() {
    let mut style = plain_style();
    style.bg = Color::Cyan;
    assert_eq!(style.codes(), vec![46]);
}

#[test]
fn hex_colors_use_extended_markers() {
    let mut style = plain_style();
    style.fg = Color::Hex(1, 2, 3);
    style.bg = Color::Hex(9, 8, 7);
    assert_eq!(style.codes(), vec![38, 1, 2, 3, 48, 9, 8, 7]);
}

#[test]
fn attribute_codes_in_fixed_order() {
    let style = Style { fg: Color::Green, bg: Color::Default, bold: true, italic: true, dim: true };
    assert_eq!(style.codes(), vec![32, 1, 3, 2]);
}

#[test]
fn compilation_is_deterministic() {
    let style = Style { fg: Color::Yellow, bg: Color::Blue, bold: true, italic: false, dim: false };
    assert_eq!(style.codes(), style.codes());
    assert_eq!(style.codes(), vec![33, 44, 1]);
}

#[test]
fn format_start_emits_open_sequence_only() {
    let mut style = plain_style();
    style.fg = Color::Red;
    style.bold = true;
    assert_eq!(style.format_start(), "\u{1b}[31;1;m");
}

#[test]
fn format_wraps_and_always_resets() {
    let mut style = plain_style();
    style.fg = Color::Magenta;
    assert_eq!(style.format("hey"), "\u{1b}[35;mhey\u{1b}[0m");
    assert_eq!(plain_style().format("x"), "\u{1b}[mx\u{1b}[0m");
}

#[test]
fn option_format_without_style_is_identity() {
    assert_eq!(dyn_fetch::style::option_format(None, "bare"), "bare");
    let mut style = plain_style();
    style.dim = true;
    assert_eq!(dyn_fetch::style::option_format(Some(style), "d"), "\u{1b}[2;md\u{1b}[0m");
}

#[test]
fn ansi_codes_of_named_colors() {
    assert_eq!(Color::Default.ansi_code(), 39);
    assert_eq!(Color::Red.ansi_code(), 31);
    assert_eq!(Color::Green.ansi_code(), 32);
    assert_eq!(Color::Yellow.ansi_code(), 33);
    assert_eq!(Color::Blue.ansi_code(), 34);
    assert_eq!(Color::Magenta.ansi_code(), 35);
    assert_eq!(Color::Cyan.ansi_code(), 36);
    assert_eq!(Color::White.ansi_code(), 37);
    assert_eq!(Color::Black.ansi_code(), 30);
}

#[test]
fn append_channel_helpers() {
    let mut codes: Vec<u8> = vec![7];
    Color::White.append_foreground(&mut codes);
    Color::White.append_background(&mut codes);
    Color::Default.append_foreground(&mut codes);
    Color::Default.append_background(&mut codes);
    assert_eq!(codes, vec![7, 37, 47]);
}

#[test]
fn parse_named_colors() {
    assert_eq!(parse_color("default").unwrap(), Color::Default);
    assert_eq!(parse_color("red").unwrap(), Color::Red);
    assert_eq!(parse_color("green").unwrap(), Color::Green);
    assert_eq!(parse_color("yellow").unwrap(), Color::Yellow);
    assert_eq!(parse_color("blue").unwrap(), Color::Blue);
    assert_eq!(parse_color("magenta").unwrap(), Color::Magenta);
    assert_eq!(parse_color("cyan").unwrap(), Color::Cyan);
    assert_eq!(parse_color("white").unwrap(), Color::White);
    assert_eq!(parse_color("black").unwrap(), Color::Black);
}

#[test]
fn parse_rgb_pairs_as_hexadecimal() {
    assert_eq!(parse_color("#ff0000").unwrap(), Color::Hex(255, 0, 0));
    assert_eq!(parse_color("#112233").unwrap(), Color::Hex(0x11, 0x22, 0x33));
    assert_eq!(parse_color("#310203").unwrap(), Color::Hex(0x31, 2, 3));
    assert_eq!(parse_color("#AbCdEf").unwrap(), Color::Hex(0xab, 0xcd, 0xef));
}

#[test]
fn parse_rejects_malformed_rgb() {
    match parse_color("#ff00zz") {
        Err(Error::InvalidColor { token }) => assert_eq!(token, "zz"),
        other => panic!("expected InvalidColor, got {:?}", other),
    }
    match parse_color("#11x233") {
        Err(Error::InvalidColor { token }) => assert_eq!(token, "x2"),
        other => panic!("expected InvalidColor, got {:?}", other),
    }
    match parse_color("#12") {
        Err(Error::InvalidColor { token }) => assert_eq!(token, "#12"),
        other => panic!("expected InvalidColor, got {:?}", other),
    }
}

#[test]
fn parse_rejects_unknown_names() {
    match parse_color("chartreuse") {
        Err(Error::UnknownColor { name }) => assert_eq!(name, "chartreuse"),
        other => panic!("expected UnknownColor, got {:?}", other),
    }
}

#[test]
fn error_messages_name_the_offender() {
    let e = Error::InvalidColor { token: String::from("zz") };
    assert_eq!(e.message(), "Invalid color `zz`.");
    let e = Error::EnvNotFound { name: String::from("HOME") };
    assert_eq!(e.message(), "Environment variable `HOME` was not found.");
    let e = Error::InvalidUtf8 { source: String::from("hostname") };
    assert_eq!(e.message(), "Invalid UTF8 was outputted by `hostname`.");
    let e = Error::UnknownColor { name: String::from("mauve") };
    assert!(e.message().starts_with("Unknown color `mauve`"));
    assert!(e.message().contains("`red`"));
    assert!(e.message().contains("`default`"));
}
