use dyn_fetch::layout::display_rectangle;
use dyn_fetch::layout::display_table;
use dyn_fetch::layout::Layout;
use dyn_fetch::layout::ResolvedRow;
use dyn_fetch::style::Color;
use dyn_fetch::style::Style;
use dyn_fetch::text::Text;

fn row(label: &str, value: &str) -> ResolvedRow {
    ResolvedRow {
        label: Text::Unstyled(String::from(label)),
        value: Some(Text::Unstyled(String::from(value))),
    }
}

fn separator() -> ResolvedRow {
    ResolvedRow { label: Text::Unstyled(String::new()), value: None }
}

#[test]
fn rectangle_pads_to_the_widest_line() {
    let rows = vec![row("A", "1"), separator(), row("BB", "22")];
    let out = display_rectangle(&rows, false, None);
    let expected = "┌──────┐\u{1b}[0m\n│ A1   │\n├──────┤\u{1b}[0m\n│ BB22 │\n└──────┘\u{1b}[0m\n";
    assert_eq!(out, expected);
}

#[test]
fn rectangle_rounded_corners() {
    let rows = vec![row("", "hi")];
    let out = display_rectangle(&rows, true, None);
    assert_eq!(out, "╭────╮\u{1b}[0m\n│ hi │\n╰────╯\u{1b}[0m\n");
}

#[test]
fn rectangle_with_no_rows_draws_a_degenerate_box() {
    let rows: Vec<ResolvedRow> = vec![];
    let out = display_rectangle(&rows, false, None);
    assert_eq!(out, "┌──┐\u{1b}[0m\n└──┘\u{1b}[0m\n");
}

#[test]
fn rectangle_consecutive_separators_each_draw_a_divider() {
    let rows = vec![separator(), separator()];
    let out = display_rectangle(&rows, false, None);
    assert_eq!(out, "┌──┐\u{1b}[0m\n├──┤\u{1b}[0m\n├──┤\u{1b}[0m\n└──┘\u{1b}[0m\n");
}

#[test]
fn rectangle_padding_ignores_escape_codes() {
    let styled = Style { fg: Color::Red, bg: Color::Default, bold: false, italic: false, dim: false };
    let rows = vec![
        ResolvedRow {
            label: Text::Unstyled(String::new()),
            value: Some(Text::Styled { text: String::from("ab"), style: styled }),
        },
        row("", "xyz"),
    ];
    let out = display_rectangle(&rows, false, None);
    let expected = "┌─────┐\u{1b}[0m\n│ \u{1b}[31;mab\u{1b}[0m  │\n│ xyz │\n└─────┘\u{1b}[0m\n";
    assert_eq!(out, expected);
}

#[test]
fn rectangle_border_style_colors_the_frame() {
    let bs = Style { fg: Color::Blue, bg: Color::Default, bold: false, italic: false, dim: false };
    let rows = vec![row("", "z")];
    let out = display_rectangle(&rows, false, Some(bs));
    let expected = "\u{1b}[34;m┌───┐\u{1b}[0m\n\u{1b}[34;m│\u{1b}[0m z \u{1b}[34;m│\u{1b}[0m\n\u{1b}[34;m└───┘\u{1b}[0m\n";
    assert_eq!(out, expected);
}

#[test]
fn table_computes_column_widths_independently() {
    let rows = vec![row("A", "1"), separator(), row("BB", "22")];
    let out = display_table(&rows, false, None);
    let expected = "┌────┬────┐\u{1b}[0m\n│ A  │ 1  │\n├────┼────┤\u{1b}[0m\n│ BB │ 22 │\n└────┴────┘\u{1b}[0m\n";
    assert_eq!(out, expected);
}

#[test]
fn table_separator_spans_both_columns() {
    let rows = vec![separator()];
    let out = display_table(&rows, false, None);
    assert_eq!(out, "┌──┬──┐\u{1b}[0m\n├──┼──┤\u{1b}[0m\n└──┴──┘\u{1b}[0m\n");
    assert!(!out.contains("│ "), "a separator must never become a content row");
}

#[test]
fn table_rounded_corners() {
    let rows = vec![row("k", "v")];
    let out = display_table(&rows, true, None);
    assert_eq!(out, "╭───┬───╮\u{1b}[0m\n│ k │ v │\n╰───┴───╯\u{1b}[0m\n");
}

#[test]
fn layout_display_dispatches() {
    let rows = vec![row("A", "1")];
    let rect = Layout::Rectangle { round_corners: false, border_style: None };
    assert_eq!(rect.display(&rows), display_rectangle(&rows, false, None));
    let rows2 = vec![row("A", "1")];
    let table = Layout::Table { round_corners: false, border_style: None };
    assert_eq!(table.display(&rows2), display_table(&rows2, false, None));
}
