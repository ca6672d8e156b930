use dyn_fetch::config::default_art_path;
use dyn_fetch::config::ArtPosition;
use dyn_fetch::config::Config;
use dyn_fetch::config::Info;
use dyn_fetch::config::Value;
use dyn_fetch::layout::Layout;
use dyn_fetch::layout::ResolvedRow;
use dyn_fetch::resolve::Fetched;
use dyn_fetch::text::Text;

#[test]
fn the_default_art_path_is_fixed() {
    assert_eq!(default_art_path(), "art.txt");
}

#[test]
fn art_defaults_to_off() {
    assert!(matches!(ArtPosition::default(), ArtPosition::Off));
}

#[test]
fn a_config_renders_end_to_end_without_outside_work() {
    let config = Config {
        art_layout: ArtPosition::Off,
        art_path: default_art_path(),
        layout: Layout::Rectangle { round_corners: false, border_style: None },
        info: vec![
            Info {
                label: Text::Unstyled(String::from("OS: ")),
                value: Value::Const { text: Text::Unstyled(String::from("linux")) },
            },
            Info { label: Text::default(), value: Value::Separator },
        ],
    };
    let mut rows: Vec<ResolvedRow> = Vec::new();
    for info in config.info {
        let value = info.value.resolve(Fetched::Nothing).unwrap();
        rows.push(ResolvedRow { label: info.label, value });
    }
    let out = config.layout.display(&rows);
    let expected = "┌───────────┐\u{1b}[0m\n│ OS: linux │\n├───────────┤\u{1b}[0m\n└───────────┘\u{1b}[0m\n";
    assert_eq!(out, expected);
}
