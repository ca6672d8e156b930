use dyn_fetch::compose::compose_side_by_side;
use dyn_fetch::compose::compose_stacked;
use dyn_fetch::compose::split_lines;
use dyn_fetch::compose::text_lines;

fn strings(v: &[&str]) -> Vec<String> {
    v.iter().map(|s| String::from(*s)).collect()
}

#[test]
fn split_keeps_a_final_empty_piece() {
    assert_eq!(split_lines("a\nb\n"), strings(&["a", "b", ""]));
    assert_eq!(split_lines("a\nb"), strings(&["a", "b"]));
    assert_eq!(split_lines(""), strings(&[""]));
    assert_eq!(split_lines("\n"), strings(&["", ""]));
}

#[test]
fn text_lines_drop_the_final_empty_piece_and_carriage_returns() {
    assert_eq!(text_lines("a\nb\n"), strings(&["a", "b"]));
    assert_eq!(text_lines("a\r\nb"), strings(&["a", "b"]));
    assert_eq!(text_lines(""), Vec::<String>::new());
    assert_eq!(text_lines("a\n\n"), strings(&["a", ""]));
}

#[test]
fn text_lines_keep_a_carriage_return_no_newline_closed() {
    assert_eq!(text_lines("art\r"), strings(&["art\r"]));
    assert_eq!(text_lines("a\r\n\r"), strings(&["a", "\r"]));
    assert_eq!(text_lines("a\r\nb\r\n"), strings(&["a", "b"]));
}

#[test]
fn short_art_is_padded_with_blank_margins() {
    let art = strings(&["AA", "B"]);
    let fetch = strings(&["1", "2", "3", "4"]);
    let out = compose_side_by_side(&art, &fetch);
    assert_eq!(out, "AA 1\nB  2\n   3\n   4\n");
}

#[test]
fn leftover_art_lines_are_emitted_bare() {
    let art = strings(&["one", "two", "three"]);
    let fetch = strings(&["x"]);
    let out = compose_side_by_side(&art, &fetch);
    assert_eq!(out, "one   x\ntwo\nthree\n");
}

#[test]
fn equal_blocks_interleave_line_by_line() {
    let art = strings(&["ab", "c"]);
    let fetch = strings(&["L", "R"]);
    let out = compose_side_by_side(&art, &fetch);
    assert_eq!(out, "ab L\nc  R\n");
}

#[test]
fn empty_art_leaves_a_one_space_margin() {
    let art: Vec<String> = vec![];
    let fetch = strings(&["only"]);
    let out = compose_side_by_side(&art, &fetch);
    assert_eq!(out, " only\n");
}

#[test]
fn stacked_places_art_above_the_output() {
    assert_eq!(compose_stacked("ART", "┌──┐\n└──┘\n"), "ART\n┌──┐\n└──┘\n");
}
