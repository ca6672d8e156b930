use dyn_fetch::style::Color;
use dyn_fetch::style::Style;
use dyn_fetch::text::Text;

fn red() -> Style {
    Style { fg: Color::Red, bg: Color::Default, bold: false, italic: false, dim: false }
}

fn strip_escapes(s: &str) -> String {
    let mut out = String::new();
    let mut in_esc = false;
    for c in s.chars() {
        if in_esc {
            if c == 'm' {
                in_esc = false;
            }
        } else if c == '\u{1b}' {
            in_esc = true;
        } else {
            out.push(c);
        }
    }
    out
}

fn sample() -> Text {
    Text::Combine(vec![
        Text::Unstyled(String::from("ab")),
        Text::Styled { text: String::from("cde"), style: red() },
        Text::Combine(vec![Text::Empty, Text::Unstyled(String::from("f"))]),
    ])
}

#[test]
fn measure_counts_printable_characters_only() {
    assert_eq!(Text::Empty.len(), 0);
    assert_eq!(Text::Unstyled(String::from("héllo")).len(), 5);
    assert_eq!(Text::Styled { text: String::from("ab"), style: red() }.len(), 2);
    assert_eq!(sample().len(), 6);
}

#[test]
fn flatten_unstyled_is_identity() {
    assert_eq!(Text::Unstyled(String::from("plain")).flatten(), "plain");
    assert_eq!(Text::Empty.flatten(), "");
}

#[test]
fn flatten_styled_wraps_with_escape_codes() {
    let t = Text::Styled { text: String::from("hi"), style: red() };
    assert_eq!(t.flatten(), "\u{1b}[31;mhi\u{1b}[0m");
}

#[test]
fn measure_equals_stripped_flatten_length() {
    let cases = vec![
        Text::Empty,
        Text::Unstyled(String::from("")),
        Text::Unstyled(String::from("some words")),
        Text::Styled { text: String::from("styled"), style: red() },
        sample(),
    ];
    for t in cases {
        let n = t.len();
        let flat = t.flatten();
        assert_eq!(n, strip_escapes(&flat).chars().count());
    }
}

#[test]
fn append_empty_is_a_noop_for_flatten_and_measure() {
    let mut t = sample();
    let before_len = t.len();
    let before_flat = sample().flatten();
    t.append(Text::Empty);
    assert_eq!(t.len(), before_len);
    assert_eq!(t.flatten(), before_flat);
}

#[test]
fn flatten_distributes_over_append() {
    let mut a = Text::Unstyled(String::from("left"));
    let b = Text::Styled { text: String::from("right"), style: red() };
    let expected = format!(
        "{}{}",
        Text::Unstyled(String::from("left")).flatten(),
        Text::Styled { text: String::from("right"), style: red() }.flatten()
    );
    a.append(b);
    assert_eq!(a.flatten(), expected);
    assert_eq!(a.len(), 9);
}

#[test]
fn append_normalizes_combinations() {
    let mut t = Text::Unstyled(String::from("x"));
    t.append(Text::Combine(vec![
        Text::Unstyled(String::from("y")),
        Text::Unstyled(String::from("z")),
    ]));
    match t {
        Text::Combine(parts) => {
            assert_eq!(parts.len(), 3);
            for p in &parts {
                assert!(matches!(p, Text::Unstyled(_)));
            }
        }
        other => panic!("expected a combination, got {:?}", other),
    }
}

#[test]
fn append_empty_onto_combine_keeps_the_list() {
    let mut t = Text::Combine(vec![Text::Unstyled(String::from("a"))]);
    t.append(Text::Empty);
    match t {
        Text::Combine(parts) => assert_eq!(parts.len(), 1),
        other => panic!("expected a combination, got {:?}", other),
    }
}

#[test]
fn default_text_is_empty_unstyled() {
    let t = Text::default();
    match &t {
        Text::Unstyled(s) => assert_eq!(s, ""),
        other => panic!("expected unstyled, got {:?}", other),
    }
    assert_eq!(t.len(), 0);
    assert_eq!(t.flatten(), "");
}
