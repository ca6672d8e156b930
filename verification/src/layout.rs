//! The layout renderer: draws resolved rows as a bordered rectangle or a
//! two-column bordered table, with Unicode box-drawing borders, optional
//! border styling, and a divider line for every separator row.

use vstd::prelude::*;

use crate::strutil::push_repeat;
use crate::strutil::repeat_seq;
use crate::style::Style;
use crate::style::opt_start;
use crate::style::opt_wrap;
use crate::style::option_format;
use crate::style::reset_seq;
use crate::text::Text;
use crate::text::esc_free;
use crate::text::flat;
use crate::text::lemma_no_esc_repeat;
use crate::text::lemma_strip_opt_start;
use crate::text::lemma_strip_flat;
use crate::text::lemma_strip_opt_wrap;
use crate::text::lemma_strip_plain;
use crate::text::measure;
use crate::text::strip_rec;

verus! {

/// One row after value resolution: its label and its resolved content, or
/// `None` where a separator asks for a divider line.
pub struct ResolvedRow {
    pub label: Text,
    pub value: Option<Text>,
}

/// The one display line of a present row: its label's flattening followed by
/// its value's, as if the value had been appended onto the label.
pub open spec fn row_flat(r: ResolvedRow) -> Seq<char> {
    match r.value {
        Some(v) => flat(r.label) + flat(v),
        None => Seq::empty(),
    }
}

/// The printable width of a present row's display line.
pub open spec fn row_measure(r: ResolvedRow) -> nat {
    match r.value {
        Some(v) => measure(r.label) + measure(v),
        None => 0,
    }
}

/// The widest display line among the first `i` rows; separator rows do not
/// take part.
pub open spec fn rect_max_upto(rows: Seq<ResolvedRow>, i: int) -> nat
    decreases i,
{
    if i <= 0 {
        0
    } else {
        let m = rect_max_upto(rows, i - 1);
        let cur = if rows[i - 1].value is Some {
            row_measure(rows[i - 1])
        } else {
            0
        };
        if cur > m {
            cur
        } else {
            m
        }
    }
}

/// The widest display line of the whole row sequence.
pub open spec fn rect_max(rows: Seq<ResolvedRow>) -> nat {
    rect_max_upto(rows, rows.len() as int)
}

/// The widest label among present rows, for the table's first column.
pub open spec fn table_max0_upto(rows: Seq<ResolvedRow>, i: int) -> nat
    decreases i,
{
    if i <= 0 {
        0
    } else {
        let m = table_max0_upto(rows, i - 1);
        let cur = if rows[i - 1].value is Some {
            measure(rows[i - 1].label)
        } else {
            0
        };
        if cur > m {
            cur
        } else {
            m
        }
    }
}

/// The widest value among present rows, for the table's second column.
pub open spec fn table_max1_upto(rows: Seq<ResolvedRow>, i: int) -> nat
    decreases i,
{
    if i <= 0 {
        0
    } else {
        let m = table_max1_upto(rows, i - 1);
        let cur = match rows[i - 1].value {
            Some(v) => measure(v),
            None => 0,
        };
        if cur > m {
            cur
        } else {
            m
        }
    }
}

/// The top-left corner glyph, by the rounded-corners flag.
pub open spec fn corner_tl(round: bool) -> char {
    if round {
        '╭'
    } else {
        '┌'
    }
}

/// The top-right corner glyph.
pub open spec fn corner_tr(round: bool) -> char {
    if round {
        '╮'
    } else {
        '┐'
    }
}

/// The bottom-left corner glyph.
pub open spec fn corner_bl(round: bool) -> char {
    if round {
        '╰'
    } else {
        '└'
    }
}

/// The bottom-right corner glyph.
pub open spec fn corner_br(round: bool) -> char {
    if round {
        '╯'
    } else {
        '┘'
    }
}

/// A run of `n` horizontal border glyphs.
pub open spec fn dashes(n: nat) -> Seq<char> {
    repeat_seq(seq!['─'], n)
}

/// A run of `n` padding spaces.
pub open spec fn spaces(n: nat) -> Seq<char> {
    repeat_seq(seq![' '], n)
}

/// The rectangle's top border line.
pub open spec fn rect_top(maxn: nat, round: bool, bs: Option<Style>) -> Seq<char> {
    opt_start(bs) + seq![corner_tl(round)] + dashes(maxn + 2) + seq![corner_tr(round)]
        + reset_seq() + seq!['\n']
}

/// The rectangle's bottom border line.
pub open spec fn rect_bottom(maxn: nat, round: bool, bs: Option<Style>) -> Seq<char> {
    opt_start(bs) + seq![corner_bl(round)] + dashes(maxn + 2) + seq![corner_br(round)]
        + reset_seq() + seq!['\n']
}

/// A full-width divider line of the rectangle.
pub open spec fn rect_divider(maxn: nat, bs: Option<Style>) -> Seq<char> {
    opt_start(bs) + seq!['├'] + dashes(maxn + 2) + seq!['┤'] + reset_seq() + seq!['\n']
}

/// One content line of the rectangle: the row's display line between border
/// glyphs, right-padded to the widest line by its printable width, so escape
/// codes never push the border out of column.
pub open spec fn rect_content(r: ResolvedRow, maxn: nat, bs: Option<Style>) -> Seq<char> {
    opt_wrap(bs, seq!['│']) + seq![' '] + row_flat(r) + spaces((maxn - row_measure(r)) as nat)
        + seq![' '] + opt_wrap(bs, seq!['│']) + seq!['\n']
}

/// The line a row contributes to the rectangle: content if present, a
/// divider if it is a separator.
pub open spec fn rect_row_out(r: ResolvedRow, maxn: nat, bs: Option<Style>) -> Seq<char> {
    if r.value is Some {
        rect_content(r, maxn, bs)
    } else {
        rect_divider(maxn, bs)
    }
}

/// The rectangle's lines for the first `i` rows, in order.
pub open spec fn rect_rows_upto(rows: Seq<ResolvedRow>, i: int, maxn: nat, bs: Option<Style>) -> Seq<
    char,
>
    decreases i,
{
    if i <= 0 {
        Seq::empty()
    } else {
        rect_rows_upto(rows, i - 1, maxn, bs) + rect_row_out(rows[i - 1], maxn, bs)
    }
}

/// The rectangle layout's whole output.
pub open spec fn rect_output(rows: Seq<ResolvedRow>, round: bool, bs: Option<Style>) -> Seq<char> {
    let maxn = rect_max(rows);
    rect_top(maxn, round, bs) + rect_rows_upto(rows, rows.len() as int, maxn, bs) + rect_bottom(
        maxn,
        round,
        bs,
    )
}

/// The table's top border line, with the column junction.
pub open spec fn table_top(m0: nat, m1: nat, round: bool, bs: Option<Style>) -> Seq<char> {
    opt_start(bs) + seq![corner_tl(round)] + dashes(m0 + 2) + seq!['┬'] + dashes(m1 + 2)
        + seq![corner_tr(round)] + reset_seq() + seq!['\n']
}

/// The table's bottom border line, with the column junction.
pub open spec fn table_bottom(m0: nat, m1: nat, round: bool, bs: Option<Style>) -> Seq<char> {
    opt_start(bs) + seq![corner_bl(round)] + dashes(m0 + 2) + seq!['┴'] + dashes(m1 + 2)
        + seq![corner_br(round)] + reset_seq() + seq!['\n']
}

/// A divider line spanning both table columns, joined at the column
/// boundary.
pub open spec fn table_divider(m0: nat, m1: nat, bs: Option<Style>) -> Seq<char> {
    opt_start(bs) + seq!['├'] + dashes(m0 + 2) + seq!['┼'] + dashes(m1 + 2) + seq!['┤']
        + reset_seq() + seq!['\n']
}

/// One content line of the table: label cell and value cell, each padded to
/// its own column's width.
pub open spec fn table_content(r: ResolvedRow, m0: nat, m1: nat, bs: Option<Style>) -> Seq<char> {
    match r.value {
        Some(v) => opt_wrap(bs, seq!['│']) + seq![' '] + flat(r.label) + spaces(
            (m0 - measure(r.label)) as nat,
        ) + seq![' '] + opt_wrap(bs, seq!['│']) + seq![' '] + flat(v) + spaces(
            (m1 - measure(v)) as nat,
        ) + seq![' '] + opt_wrap(bs, seq!['│']) + seq!['\n'],
        None => Seq::empty(),
    }
}

/// The line a row contributes to the table.
pub open spec fn table_row_out(r: ResolvedRow, m0: nat, m1: nat, bs: Option<Style>) -> Seq<char> {
    if r.value is Some {
        table_content(r, m0, m1, bs)
    } else {
        table_divider(m0, m1, bs)
    }
}

/// The table's lines for the first `i` rows, in order.
pub open spec fn table_rows_upto(
    rows: Seq<ResolvedRow>,
    i: int,
    m0: nat,
    m1: nat,
    bs: Option<Style>,
) -> Seq<char>
    decreases i,
{
    if i <= 0 {
        Seq::empty()
    } else {
        table_rows_upto(rows, i - 1, m0, m1, bs) + table_row_out(rows[i - 1], m0, m1, bs)
    }
}

/// The table layout's whole output.
pub open spec fn table_output(rows: Seq<ResolvedRow>, round: bool, bs: Option<Style>) -> Seq<char> {
    let m0 = table_max0_upto(rows, rows.len() as int);
    let m1 = table_max1_upto(rows, rows.len() as int);
    table_top(m0, m1, round, bs) + table_rows_upto(rows, rows.len() as int, m0, m1, bs)
        + table_bottom(m0, m1, round, bs)
}

/// Every row's display line fits the machine: widths stay computable.
pub open spec fn rows_fit(rows: Seq<ResolvedRow>) -> bool {
    forall|i: int| 0 <= i < rows.len() ==> row_measure(#[trigger] rows[i]) <= usize::MAX - 2
}

/// No row is wider than the computed maximum.
proof fn lemma_rect_max_ge(rows: Seq<ResolvedRow>, i: int, j: int)
    requires
        0 <= j < i <= rows.len(),
        rows[j].value is Some,
    ensures
        row_measure(rows[j]) <= rect_max_upto(rows, i),
    decreases i,
{
    if j < i - 1 {
        lemma_rect_max_ge(rows, i - 1, j);
    }
}

/// The computed maximum is one of the row widths, so it obeys their bound.
proof fn lemma_rect_max_le(rows: Seq<ResolvedRow>, i: int, bound: nat)
    requires
        0 <= i <= rows.len(),
        forall|k: int| 0 <= k < rows.len() ==> row_measure(#[trigger] rows[k]) <= bound,
    ensures
        rect_max_upto(rows, i) <= bound,
    decreases i,
{
    if i > 0 {
        lemma_rect_max_le(rows, i - 1, bound);
    }
}

/// No label is wider than the first column.
proof fn lemma_table_max0_ge(rows: Seq<ResolvedRow>, i: int, j: int)
    requires
        0 <= j < i <= rows.len(),
        rows[j].value is Some,
    ensures
        measure(rows[j].label) <= table_max0_upto(rows, i),
    decreases i,
{
    if j < i - 1 {
        lemma_table_max0_ge(rows, i - 1, j);
    }
}

/// The first column's width obeys the rows' bound.
proof fn lemma_table_max0_le(rows: Seq<ResolvedRow>, i: int, bound: nat)
    requires
        0 <= i <= rows.len(),
        forall|k: int| 0 <= k < rows.len() ==> row_measure(#[trigger] rows[k]) <= bound,
    ensures
        table_max0_upto(rows, i) <= bound,
    decreases i,
{
    if i > 0 {
        lemma_table_max0_le(rows, i - 1, bound);
    }
}

/// No value is wider than the second column.
proof fn lemma_table_max1_ge(rows: Seq<ResolvedRow>, i: int, j: int)
    requires
        0 <= j < i <= rows.len(),
        rows[j].value is Some,
    ensures
        match rows[j].value {
            Some(v) => measure(v) <= table_max1_upto(rows, i),
            None => true,
        },
    decreases i,
{
    if j < i - 1 {
        lemma_table_max1_ge(rows, i - 1, j);
    }
}

/// The second column's width obeys the rows' bound.
proof fn lemma_table_max1_le(rows: Seq<ResolvedRow>, i: int, bound: nat)
    requires
        0 <= i <= rows.len(),
        forall|k: int| 0 <= k < rows.len() ==> row_measure(#[trigger] rows[k]) <= bound,
    ensures
        table_max1_upto(rows, i) <= bound,
    decreases i,
{
    if i > 0 {
        lemma_table_max1_le(rows, i - 1, bound);
    }
}

/// The alignment guarantee of the rectangle: a content line's printable
/// width never depends on the row or its styling. Stripped of escape
/// sequences, every content line holds the two border glyphs, the two
/// framing spaces, the row's printable characters with their padding — a
/// fixed total of the widest width plus four — and the newline.
pub proof fn lemma_rect_line_aligned(r: ResolvedRow, maxn: nat, bs: Option<Style>)
    requires
        r.value is Some,
        esc_free(r.label),
        (match r.value {
            Some(v) => esc_free(v),
            None => false,
        }),
        row_measure(r) <= maxn,
    ensures
        crate::text::strip_escapes(rect_content(r, maxn, bs)).len() == maxn + 5,
{
    let v = r.value->0;
    let bar = seq!['│'];
    let pad = spaces((maxn - row_measure(r)) as nat);
    let tail1 = seq![' '] + row_flat(r) + pad + seq![' '] + opt_wrap(bs, bar) + seq!['\n'];
    assert(rect_content(r, maxn, bs) =~= opt_wrap(bs, bar) + tail1);
    lemma_strip_opt_wrap(bs, bar, tail1);
    let tail2 = flat(r.label) + (flat(v) + (pad + seq![' '] + opt_wrap(bs, bar) + seq!['\n']));
    assert(tail1 =~= seq![' '] + tail2);
    lemma_strip_plain(seq![' '], tail2);
    let tail3 = flat(v) + (pad + seq![' '] + opt_wrap(bs, bar) + seq!['\n']);
    lemma_strip_flat(r.label, tail3);
    let tail4 = pad + seq![' '] + opt_wrap(bs, bar) + seq!['\n'];
    lemma_strip_flat(v, tail4);
    let tail5 = opt_wrap(bs, bar) + seq!['\n'];
    assert(tail4 =~= (pad + seq![' ']) + tail5);
    lemma_no_esc_repeat(seq![' '], (maxn - row_measure(r)) as nat);
    lemma_strip_plain(pad + seq![' '], tail5);
    lemma_strip_opt_wrap(bs, bar, seq!['\n']);
    lemma_strip_plain(seq!['\n'], Seq::empty());
    assert(seq!['\n'] + Seq::<char>::empty() =~= seq!['\n']);
    assert(strip_rec(Seq::<char>::empty(), false) == Seq::<char>::empty());
    assert(seq!['\n'] + strip_rec(Seq::<char>::empty(), false) =~= seq!['\n']);
    crate::text::lemma_measure_printable(r.label);
    crate::text::lemma_measure_printable(v);
    crate::strutil::lemma_repeat_one_len(' ', (maxn - row_measure(r)) as nat);
}

/// A border-shaped line — something plain between an optional opening
/// sequence and the reset — strips back to the plain middle and its newline.
proof fn lemma_strip_border(bs: Option<Style>, mid: Seq<char>)
    requires
        crate::text::no_esc(mid),
    ensures
        crate::text::strip_escapes(opt_start(bs) + mid + reset_seq() + seq!['\n']) == mid
            + seq!['\n'],
{
    let line = opt_start(bs) + mid + reset_seq() + seq!['\n'];
    assert(line =~= opt_start(bs) + (mid + (reset_seq() + seq!['\n'])));
    lemma_strip_opt_start(bs, mid + (reset_seq() + seq!['\n']));
    lemma_strip_plain(mid, reset_seq() + seq!['\n']);
    crate::text::lemma_strip_reset(seq!['\n']);
    lemma_strip_plain(seq!['\n'], Seq::empty());
    assert(seq!['\n'] + Seq::<char>::empty() =~= seq!['\n']);
    assert(strip_rec(Seq::<char>::empty(), false) == Seq::<char>::empty());
    assert(seq!['\n'] + strip_rec(Seq::<char>::empty(), false) =~= seq!['\n']);
    assert(mid + (seq!['\n'] + Seq::<char>::empty()) =~= mid + seq!['\n']);
}

/// The alignment guarantee of the rectangle's frame: its top border, bottom
/// border and divider lines all strip to the same printable width as every
/// content line — the widest row plus four glyphs — and the newline.
pub proof fn lemma_rect_border_aligned(maxn: nat, round: bool, bs: Option<Style>)
    ensures
        crate::text::strip_escapes(rect_top(maxn, round, bs)).len() == maxn + 5,
        crate::text::strip_escapes(rect_bottom(maxn, round, bs)).len() == maxn + 5,
        crate::text::strip_escapes(rect_divider(maxn, bs)).len() == maxn + 5,
{
    lemma_no_esc_repeat(seq!['─'], maxn + 2);
    crate::strutil::lemma_repeat_one_len('─', maxn + 2);
    assert(corner_tl(round) != '\u{1b}' && corner_tr(round) != '\u{1b}');
    assert(corner_bl(round) != '\u{1b}' && corner_br(round) != '\u{1b}');
    let top_mid = seq![corner_tl(round)] + dashes(maxn + 2) + seq![corner_tr(round)];
    assert(rect_top(maxn, round, bs) =~= opt_start(bs) + top_mid + reset_seq() + seq!['\n']);
    lemma_strip_border(bs, top_mid);
    let bot_mid = seq![corner_bl(round)] + dashes(maxn + 2) + seq![corner_br(round)];
    assert(rect_bottom(maxn, round, bs) =~= opt_start(bs) + bot_mid + reset_seq() + seq!['\n']);
    lemma_strip_border(bs, bot_mid);
    let div_mid = seq!['├'] + dashes(maxn + 2) + seq!['┤'];
    assert(rect_divider(maxn, bs) =~= opt_start(bs) + div_mid + reset_seq() + seq!['\n']);
    lemma_strip_border(bs, div_mid);
}

/// The alignment guarantee of the table's frame: its top border, bottom
/// border and divider lines all strip to the two column widths plus seven
/// glyphs, and the newline.
#[verifier::rlimit(80)]
pub proof fn lemma_table_border_aligned(m0: nat, m1: nat, round: bool, bs: Option<Style>)
    ensures
        crate::text::strip_escapes(table_top(m0, m1, round, bs)).len() == m0 + m1 + 8,
        crate::text::strip_escapes(table_bottom(m0, m1, round, bs)).len() == m0 + m1 + 8,
        crate::text::strip_escapes(table_divider(m0, m1, bs)).len() == m0 + m1 + 8,
{
    lemma_no_esc_repeat(seq!['─'], m0 + 2);
    lemma_no_esc_repeat(seq!['─'], m1 + 2);
    crate::strutil::lemma_repeat_one_len('─', m0 + 2);
    crate::strutil::lemma_repeat_one_len('─', m1 + 2);
    assert(corner_tl(round) != '\u{1b}' && corner_tr(round) != '\u{1b}');
    assert(corner_bl(round) != '\u{1b}' && corner_br(round) != '\u{1b}');
    let top_mid = seq![corner_tl(round)] + dashes(m0 + 2) + seq!['┬'] + dashes(m1 + 2)
        + seq![corner_tr(round)];
    lemma_no_esc_five(seq![corner_tl(round)], dashes(m0 + 2), seq!['┬'], dashes(m1 + 2), seq![corner_tr(round)]);
    assert(crate::text::no_esc(top_mid));
    assert(top_mid.len() == m0 + m1 + 7);
    assert(table_top(m0, m1, round, bs) =~= opt_start(bs) + top_mid + reset_seq() + seq!['\n']);
    lemma_strip_border(bs, top_mid);
    assert(crate::text::strip_escapes(table_top(m0, m1, round, bs)) == top_mid + seq!['\n']);
    let bot_mid = seq![corner_bl(round)] + dashes(m0 + 2) + seq!['┴'] + dashes(m1 + 2)
        + seq![corner_br(round)];
    lemma_no_esc_five(seq![corner_bl(round)], dashes(m0 + 2), seq!['┴'], dashes(m1 + 2), seq![corner_br(round)]);
    assert(crate::text::no_esc(bot_mid));
    assert(bot_mid.len() == m0 + m1 + 7);
    assert(table_bottom(m0, m1, round, bs) =~= opt_start(bs) + bot_mid + reset_seq() + seq!['\n']);
    lemma_strip_border(bs, bot_mid);
    assert(crate::text::strip_escapes(table_bottom(m0, m1, round, bs)) == bot_mid + seq!['\n']);
    let div_mid = seq!['├'] + dashes(m0 + 2) + seq!['┼'] + dashes(m1 + 2) + seq!['┤'];
    assert(table_divider(m0, m1, bs) =~= opt_start(bs) + div_mid + reset_seq() + seq!['\n']);
    lemma_strip_border(bs, div_mid);
}

/// A five-part concatenation of escape-free spans is escape-free.
proof fn lemma_no_esc_five(a: Seq<char>, b: Seq<char>, c: Seq<char>, d: Seq<char>, e: Seq<char>)
    requires
        crate::text::no_esc(a),
        crate::text::no_esc(b),
        crate::text::no_esc(c),
        crate::text::no_esc(d),
        crate::text::no_esc(e),
    ensures
        crate::text::no_esc(a + b + c + d + e),
{
    crate::text::lemma_no_esc_concat(a, b);
    crate::text::lemma_no_esc_concat(a + b, c);
    crate::text::lemma_no_esc_concat(a + b + c, d);
    crate::text::lemma_no_esc_concat(a + b + c + d, e);
}

/// The alignment guarantee of the table's content lines: stripped of escape
/// sequences, every one holds the three border glyphs, the four framing
/// spaces, and both cells padded to their column widths — the two widths
/// plus seven — and the newline, whatever the row and its styling.
#[verifier::rlimit(80)]
pub proof fn lemma_table_line_aligned(r: ResolvedRow, m0: nat, m1: nat, bs: Option<Style>)
    requires
        r.value is Some,
        esc_free(r.label),
        (match r.value {
            Some(v) => esc_free(v),
            None => false,
        }),
        measure(r.label) <= m0,
        (match r.value {
            Some(v) => measure(v) <= m1,
            None => false,
        }),
    ensures
        crate::text::strip_escapes(table_content(r, m0, m1, bs)).len() == m0 + m1 + 8,
{
    let v = r.value->0;
    let bar = seq!['│'];
    let pad0 = spaces((m0 - measure(r.label)) as nat);
    let pad1 = spaces((m1 - measure(v)) as nat);
    let tail1 = seq![' '] + flat(r.label) + pad0 + seq![' '] + opt_wrap(bs, bar) + seq![' ']
        + flat(v) + pad1 + seq![' '] + opt_wrap(bs, bar) + seq!['\n'];
    assert(table_content(r, m0, m1, bs) =~= opt_wrap(bs, bar) + tail1);
    lemma_strip_opt_wrap(bs, bar, tail1);
    let tail2 = flat(r.label) + (pad0 + seq![' '] + opt_wrap(bs, bar) + seq![' '] + flat(v) + pad1
        + seq![' '] + opt_wrap(bs, bar) + seq!['\n']);
    assert(tail1 =~= seq![' '] + tail2);
    lemma_strip_plain(seq![' '], tail2);
    let tail3 = pad0 + seq![' '] + opt_wrap(bs, bar) + seq![' '] + flat(v) + pad1 + seq![' ']
        + opt_wrap(bs, bar) + seq!['\n'];
    lemma_strip_flat(r.label, tail3);
    let tail4 = opt_wrap(bs, bar) + (seq![' '] + flat(v) + pad1 + seq![' '] + opt_wrap(bs, bar)
        + seq!['\n']);
    assert(tail3 =~= (pad0 + seq![' ']) + tail4);
    lemma_no_esc_repeat(seq![' '], (m0 - measure(r.label)) as nat);
    lemma_strip_plain(pad0 + seq![' '], tail4);
    let tail5 = seq![' '] + flat(v) + pad1 + seq![' '] + opt_wrap(bs, bar) + seq!['\n'];
    lemma_strip_opt_wrap(bs, bar, tail5);
    let tail6 = flat(v) + (pad1 + seq![' '] + opt_wrap(bs, bar) + seq!['\n']);
    assert(tail5 =~= seq![' '] + tail6);
    lemma_strip_plain(seq![' '], tail6);
    let tail7 = pad1 + seq![' '] + opt_wrap(bs, bar) + seq!['\n'];
    lemma_strip_flat(v, tail7);
    let tail8 = opt_wrap(bs, bar) + seq!['\n'];
    assert(tail7 =~= (pad1 + seq![' ']) + tail8);
    lemma_no_esc_repeat(seq![' '], (m1 - measure(v)) as nat);
    lemma_strip_plain(pad1 + seq![' '], tail8);
    lemma_strip_opt_wrap(bs, bar, seq!['\n']);
    lemma_strip_plain(seq!['\n'], Seq::empty());
    assert(seq!['\n'] + Seq::<char>::empty() =~= seq!['\n']);
    assert(strip_rec(Seq::<char>::empty(), false) == Seq::<char>::empty());
    assert(seq!['\n'] + strip_rec(Seq::<char>::empty(), false) =~= seq!['\n']);
    crate::text::lemma_measure_printable(r.label);
    crate::text::lemma_measure_printable(v);
    crate::strutil::lemma_repeat_one_len(' ', (m0 - measure(r.label)) as nat);
    crate::strutil::lemma_repeat_one_len(' ', (m1 - measure(v)) as nat);
}

/// The views of the glyph and escape literals the renderer writes.
proof fn glyph_views()
    ensures
        "│"@ == seq!['│'],
        "─"@ == seq!['─'],
        "├"@ == seq!['├'],
        "┤"@ == seq!['┤'],
        "┌"@ == seq!['┌'],
        "┐"@ == seq!['┐'],
        "└"@ == seq!['└'],
        "┘"@ == seq!['┘'],
        "╭"@ == seq!['╭'],
        "╮"@ == seq!['╮'],
        "╰"@ == seq!['╰'],
        "╯"@ == seq!['╯'],
        "┬"@ == seq!['┬'],
        "┼"@ == seq!['┼'],
        "┴"@ == seq!['┴'],
        " "@ == seq![' '],
        "\n"@ == seq!['\n'],
        "\u{1b}[0m"@ == reset_seq(),
{
    reveal_strlit("│");
    reveal_strlit("─");
    reveal_strlit("├");
    reveal_strlit("┤");
    reveal_strlit("┌");
    reveal_strlit("┐");
    reveal_strlit("└");
    reveal_strlit("┘");
    reveal_strlit("╭");
    reveal_strlit("╮");
    reveal_strlit("╰");
    reveal_strlit("╯");
    reveal_strlit("┬");
    reveal_strlit("┼");
    reveal_strlit("┴");
    reveal_strlit(" ");
    reveal_strlit("\n");
    reveal_strlit("\u{1b}[0m");
    assert("│"@ =~= seq!['│']);
    assert("─"@ =~= seq!['─']);
    assert("├"@ =~= seq!['├']);
    assert("┤"@ =~= seq!['┤']);
    assert("┌"@ =~= seq!['┌']);
    assert("┐"@ =~= seq!['┐']);
    assert("└"@ =~= seq!['└']);
    assert("┘"@ =~= seq!['┘']);
    assert("╭"@ =~= seq!['╭']);
    assert("╮"@ =~= seq!['╮']);
    assert("╰"@ =~= seq!['╰']);
    assert("╯"@ =~= seq!['╯']);
    assert("┬"@ =~= seq!['┬']);
    assert("┼"@ =~= seq!['┼']);
    assert("┴"@ =~= seq!['┴']);
    assert(" "@ =~= seq![' ']);
    assert("\n"@ =~= seq!['\n']);
    assert("\u{1b}[0m"@ =~= reset_seq());
}
/// Appends the border style's opening sequence, if a style is given.
fn push_open(out: &mut String, bs: Option<Style>)
    ensures
        final(out)@ == old(out)@ + opt_start(bs),
{
    match bs {
        Some(st) => {
            let s = st.format_start();
            out.append(s.as_str());
        }
        None => {
            assert(old(out)@ + opt_start(bs) =~= old(out)@);
        }
    }
}

/// Appends a vertical border glyph, wrapped in the border style if given.
fn push_bar(out: &mut String, bs: Option<Style>)
    ensures
        final(out)@ == old(out)@ + opt_wrap(bs, seq!['│']),
{
    proof {
        glyph_views();
    }
    let s = option_format(bs, "│");
    out.append(s.as_str());
}

/// Appends the reset sequence and a newline, closing a border line.
fn push_reset_nl(out: &mut String)
    ensures
        final(out)@ == old(out)@ + reset_seq() + seq!['\n'],
{
    proof {
        glyph_views();
    }
    out.append("\u{1b}[0m");
    out.append("\n");
    assert(final(out)@ =~= old(out)@ + reset_seq() + seq!['\n']);
}

/// Appends the rectangle's top border line.
fn push_rect_top(out: &mut String, maxn: usize, round: bool, bs: Option<Style>)
    requires
        maxn <= usize::MAX - 2,
    ensures
        final(out)@ == old(out)@ + rect_top(maxn as nat, round, bs),
{
    proof {
        glyph_views();
    }
    push_open(out, bs);
    if round {
        out.append("╭");
    } else {
        out.append("┌");
    }
    push_repeat(out, "─", maxn + 2);
    if round {
        out.append("╮");
    } else {
        out.append("┐");
    }
    push_reset_nl(out);
    assert(final(out)@ =~= old(out)@ + rect_top(maxn as nat, round, bs));
}

/// Appends the rectangle's bottom border line.
fn push_rect_bottom(out: &mut String, maxn: usize, round: bool, bs: Option<Style>)
    requires
        maxn <= usize::MAX - 2,
    ensures
        final(out)@ == old(out)@ + rect_bottom(maxn as nat, round, bs),
{
    proof {
        glyph_views();
    }
    push_open(out, bs);
    if round {
        out.append("╰");
    } else {
        out.append("└");
    }
    push_repeat(out, "─", maxn + 2);
    if round {
        out.append("╯");
    } else {
        out.append("┘");
    }
    push_reset_nl(out);
    assert(final(out)@ =~= old(out)@ + rect_bottom(maxn as nat, round, bs));
}

/// Appends a full-width divider line of the rectangle.
fn push_rect_divider(out: &mut String, maxn: usize, bs: Option<Style>)
    requires
        maxn <= usize::MAX - 2,
    ensures
        final(out)@ == old(out)@ + rect_divider(maxn as nat, bs),
{
    proof {
        glyph_views();
    }
    push_open(out, bs);
    out.append("├");
    push_repeat(out, "─", maxn + 2);
    out.append("┤");
    push_reset_nl(out);
    assert(final(out)@ =~= old(out)@ + rect_divider(maxn as nat, bs));
}

/// Appends one content line of the rectangle.
fn push_rect_content(out: &mut String, row: &ResolvedRow, maxn: usize, bs: Option<Style>)
    requires
        row.value is Some,
        row_measure(*row) <= maxn <= usize::MAX - 2,
    ensures
        final(out)@ == old(out)@ + rect_content(*row, maxn as nat, bs),
{
    proof {
        glyph_views();
    }
    push_bar(out, bs);
    out.append(" ");
    let label_flat = row.label.flatten();
    out.append(label_flat.as_str());
    match &row.value {
        Some(v) => {
            let value_flat = v.flatten();
            out.append(value_flat.as_str());
            let w = row.label.len() + v.len();
            push_repeat(out, " ", maxn - w);
        }
        None => {}
    }
    out.append(" ");
    push_bar(out, bs);
    out.append("\n");
    assert(final(out)@ =~= old(out)@ + rect_content(*row, maxn as nat, bs));
}

/// Draws the rows as a single-column bordered rectangle: a top border, one
/// line per row — content padded to the widest line, or a full-width divider
/// for a separator — and a bottom border.
pub fn display_rectangle(
    rows: &Vec<ResolvedRow>,
    round_corners: bool,
    border_style: Option<Style>,
) -> (r: String)
    requires
        rows_fit(rows@),
    ensures
        r@ == rect_output(rows@, round_corners, border_style),
{
    let mut maxn: usize = 0;
    let mut i: usize = 0;
    while i < rows.len()
        invariant
            i <= rows@.len(),
            rows_fit(rows@),
            maxn == rect_max_upto(rows@, i as int),
        decreases rows@.len() - i,
    {
        let row = &rows[i];
        match &row.value {
            Some(v) => {
                let w = row.label.len() + v.len();
                if w > maxn {
                    maxn = w;
                }
            }
            None => {}
        }
        i = i + 1;
    }
    proof {
        lemma_rect_max_le(rows@, rows@.len() as int, (usize::MAX - 2) as nat);
    }
    let mut out = String::new();
    push_rect_top(&mut out, maxn, round_corners, border_style);
    assert(out@ =~= rect_top(rect_max(rows@), round_corners, border_style));
    let mut j: usize = 0;
    while j < rows.len()
        invariant
            j <= rows@.len(),
            rows_fit(rows@),
            maxn == rect_max(rows@),
            maxn <= usize::MAX - 2,
            out@ == rect_top(rect_max(rows@), round_corners, border_style) + rect_rows_upto(
                rows@,
                j as int,
                rect_max(rows@),
                border_style,
            ),
        decreases rows@.len() - j,
    {
        let row = &rows[j];
        match &row.value {
            Some(v) => {
                proof {
                    lemma_rect_max_ge(rows@, rows@.len() as int, j as int);
                }
                push_rect_content(&mut out, row, maxn, border_style);
            }
            None => {
                push_rect_divider(&mut out, maxn, border_style);
            }
        }
        j = j + 1;
        assert(out@ =~= rect_top(rect_max(rows@), round_corners, border_style) + rect_rows_upto(
            rows@,
            j as int,
            rect_max(rows@),
            border_style,
        ));
    }
    push_rect_bottom(&mut out, maxn, round_corners, border_style);
    assert(out@ =~= rect_output(rows@, round_corners, border_style));
    out
}

/// Appends the table's top border line.
fn push_table_top(out: &mut String, m0: usize, m1: usize, round: bool, bs: Option<Style>)
    requires
        m0 <= usize::MAX - 2,
        m1 <= usize::MAX - 2,
    ensures
        final(out)@ == old(out)@ + table_top(m0 as nat, m1 as nat, round, bs),
{
    proof {
        glyph_views();
    }
    push_open(out, bs);
    if round {
        out.append("╭");
    } else {
        out.append("┌");
    }
    push_repeat(out, "─", m0 + 2);
    out.append("┬");
    push_repeat(out, "─", m1 + 2);
    if round {
        out.append("╮");
    } else {
        out.append("┐");
    }
    push_reset_nl(out);
    assert(final(out)@ =~= old(out)@ + table_top(m0 as nat, m1 as nat, round, bs));
}

/// Appends the table's bottom border line.
fn push_table_bottom(out: &mut String, m0: usize, m1: usize, round: bool, bs: Option<Style>)
    requires
        m0 <= usize::MAX - 2,
        m1 <= usize::MAX - 2,
    ensures
        final(out)@ == old(out)@ + table_bottom(m0 as nat, m1 as nat, round, bs),
{
    proof {
        glyph_views();
    }
    push_open(out, bs);
    if round {
        out.append("╰");
    } else {
        out.append("└");
    }
    push_repeat(out, "─", m0 + 2);
    out.append("┴");
    push_repeat(out, "─", m1 + 2);
    if round {
        out.append("╯");
    } else {
        out.append("┘");
    }
    push_reset_nl(out);
    assert(final(out)@ =~= old(out)@ + table_bottom(m0 as nat, m1 as nat, round, bs));
}

/// Appends a divider line spanning both table columns.
fn push_table_divider(out: &mut String, m0: usize, m1: usize, bs: Option<Style>)
    requires
        m0 <= usize::MAX - 2,
        m1 <= usize::MAX - 2,
    ensures
        final(out)@ == old(out)@ + table_divider(m0 as nat, m1 as nat, bs),
{
    proof {
        glyph_views();
    }
    push_open(out, bs);
    out.append("├");
    push_repeat(out, "─", m0 + 2);
    out.append("┼");
    push_repeat(out, "─", m1 + 2);
    out.append("┤");
    push_reset_nl(out);
    assert(final(out)@ =~= old(out)@ + table_divider(m0 as nat, m1 as nat, bs));
}

/// Appends one content line of the table.
#[verifier::rlimit(60)]
fn push_table_content(out: &mut String, row: &ResolvedRow, m0: usize, m1: usize, bs: Option<Style>)
    requires
        row.value is Some,
        measure(row.label) <= m0 <= usize::MAX - 2,
        (match row.value {
            Some(v) => measure(v) <= m1 <= usize::MAX - 2,
            None => false,
        }),
    ensures
        final(out)@ == old(out)@ + table_content(*row, m0 as nat, m1 as nat, bs),
{
    proof {
        glyph_views();
    }
    push_bar(out, bs);
    out.append(" ");
    let label_flat = row.label.flatten();
    out.append(label_flat.as_str());
    let l0 = row.label.len();
    push_repeat(out, " ", m0 - l0);
    out.append(" ");
    push_bar(out, bs);
    out.append(" ");
    match &row.value {
        Some(v) => {
            let value_flat = v.flatten();
            out.append(value_flat.as_str());
            let l1 = v.len();
            push_repeat(out, " ", m1 - l1);
        }
        None => {}
    }
    out.append(" ");
    push_bar(out, bs);
    out.append("\n");
    assert(final(out)@ =~= old(out)@ + table_content(*row, m0 as nat, m1 as nat, bs));
}

/// Draws the rows as a two-column bordered table: labels in the first
/// column, values in the second, each column padded to its own width, with
/// junction glyphs at the column boundary and full-span dividers for
/// separator rows.
pub fn display_table(
    rows: &Vec<ResolvedRow>,
    round_corners: bool,
    border_style: Option<Style>,
) -> (r: String)
    requires
        rows_fit(rows@),
    ensures
        r@ == table_output(rows@, round_corners, border_style),
{
    let mut m0: usize = 0;
    let mut m1: usize = 0;
    let mut i: usize = 0;
    while i < rows.len()
        invariant
            i <= rows@.len(),
            rows_fit(rows@),
            m0 == table_max0_upto(rows@, i as int),
            m1 == table_max1_upto(rows@, i as int),
        decreases rows@.len() - i,
    {
        let row = &rows[i];
        match &row.value {
            Some(v) => {
                let l0 = row.label.len();
                if l0 > m0 {
                    m0 = l0;
                }
                let l1 = v.len();
                if l1 > m1 {
                    m1 = l1;
                }
            }
            None => {}
        }
        i = i + 1;
    }
    proof {
        lemma_table_max0_le(rows@, rows@.len() as int, (usize::MAX - 2) as nat);
        lemma_table_max1_le(rows@, rows@.len() as int, (usize::MAX - 2) as nat);
    }
    let mut out = String::new();
    push_table_top(&mut out, m0, m1, round_corners, border_style);
    let mut j: usize = 0;
    while j < rows.len()
        invariant
            j <= rows@.len(),
            rows_fit(rows@),
            m0 == table_max0_upto(rows@, rows@.len() as int),
            m1 == table_max1_upto(rows@, rows@.len() as int),
            m0 <= usize::MAX - 2,
            m1 <= usize::MAX - 2,
            out@ == table_top(m0 as nat, m1 as nat, round_corners, border_style)
                + table_rows_upto(rows@, j as int, m0 as nat, m1 as nat, border_style),
        decreases rows@.len() - j,
    {
        let row = &rows[j];
        match &row.value {
            Some(v) => {
                proof {
                    lemma_table_max0_ge(rows@, rows@.len() as int, j as int);
                    lemma_table_max1_ge(rows@, rows@.len() as int, j as int);
                }
                push_table_content(&mut out, row, m0, m1, border_style);
            }
            None => {
                push_table_divider(&mut out, m0, m1, border_style);
            }
        }
        j = j + 1;
        assert(out@ =~= table_top(m0 as nat, m1 as nat, round_corners, border_style)
            + table_rows_upto(rows@, j as int, m0 as nat, m1 as nat, border_style));
    }
    push_table_bottom(&mut out, m0, m1, round_corners, border_style);
    assert(out@ =~= table_output(rows@, round_corners, border_style));
    out
}

/// The two rendering shapes, with their corner flag and optional border
/// style.
pub enum Layout {
    Rectangle { round_corners: bool, border_style: Option<Style> },
    Table { round_corners: bool, border_style: Option<Style> },
}

/// The output of a layout on a row sequence.
pub open spec fn layout_output(l: Layout, rows: Seq<ResolvedRow>) -> Seq<char> {
    match l {
        Layout::Rectangle { round_corners, border_style } => rect_output(
            rows,
            round_corners,
            border_style,
        ),
        Layout::Table { round_corners, border_style } => table_output(
            rows,
            round_corners,
            border_style,
        ),
    }
}

impl Layout {
    /// Renders the resolved rows with the chosen algorithm into one output
    /// buffer.
    pub fn display(self, rows: &Vec<ResolvedRow>) -> (r: String)
        requires
            rows_fit(rows@),
        ensures
            r@ == layout_output(self, rows@),
    {
        match self {
            Layout::Rectangle { round_corners, border_style } => display_rectangle(
                rows,
                round_corners,
                border_style,
            ),
            Layout::Table { round_corners, border_style } => display_table(
                rows,
                round_corners,
                border_style,
            ),
        }
    }
}

} // verus!
