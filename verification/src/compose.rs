//! The side-by-side composer: splits the renderer's buffer into lines and
//! interleaves it with a block of pre-rendered art, padding whichever side
//! runs out of lines first so the columns stay aligned.

use vstd::prelude::*;

use crate::layout::spaces;
use crate::strutil::push_repeat;

verus! {

/// The position of the first line break at or after `from`: the index of
/// the next newline, or the end of `s`.
pub open spec fn line_break(s: Seq<char>, from: int) -> int
    decreases s.len() - from,
{
    if from < 0 || from >= s.len() {
        s.len() as int
    } else if s[from] == '\n' {
        from
    } else {
        line_break(s, from + 1)
    }
}

/// The pieces of `s` from position `from` on, split at every newline: one
/// more piece than there are newlines, so a trailing newline yields a final
/// empty piece.
pub open spec fn split_from(s: Seq<char>, from: int) -> Seq<Seq<char>>
    decreases s.len() - from,
    via split_from_decreases
{
    let j = line_break(s, from);
    if from < 0 || j >= s.len() {
        seq![s.subrange(if from < 0 { 0 } else { from }, s.len() as int)]
    } else {
        seq![s.subrange(from, j)] + split_from(s, j + 1)
    }
}

#[via_fn]
proof fn split_from_decreases(s: Seq<char>, from: int) {
    lemma_line_break_bounds(s, from);
}

/// The first line break lies between `from` and the end of `s`.
proof fn lemma_line_break_bounds(s: Seq<char>, from: int)
    ensures
        line_break(s, from) <= s.len(),
        from <= s.len() ==> from <= line_break(s, from),
    decreases s.len() - from,
{
    if 0 <= from < s.len() && s[from] != '\n' {
        lemma_line_break_bounds(s, from + 1);
    }
}

/// The pieces of `s` split at every newline.
pub open spec fn split_lines_spec(s: Seq<char>) -> Seq<Seq<char>> {
    split_from(s, 0)
}

/// A line with one trailing carriage return removed.
pub open spec fn strip_cr(l: Seq<char>) -> Seq<char> {
    if l.len() > 0 && l[l.len() - 1] == '\r' {
        l.drop_last()
    } else {
        l
    }
}

/// The text lines of `s`: split at newlines, the final piece dropped when a
/// trailing newline left it empty, and the carriage return removed from
/// every line a newline closed. A final line not closed by a newline keeps
/// its characters, a trailing carriage return included.
pub open spec fn lines_spec(s: Seq<char>) -> Seq<Seq<char>> {
    let raw = split_lines_spec(s);
    let ends_closed = raw.len() > 0 && raw[raw.len() - 1].len() == 0;
    let kept = if ends_closed {
        raw.drop_last()
    } else {
        raw
    };
    Seq::new(
        kept.len(),
        |i: int|
            if ends_closed || i < kept.len() - 1 {
                strip_cr(kept[i])
            } else {
                kept[i]
            },
    )
}

/// A scan that stopped at `j` found the first line break.
proof fn lemma_line_break_at(s: Seq<char>, from: int, j: int)
    requires
        0 <= from <= j <= s.len(),
        forall|i: int| from <= i < j ==> s[i] != '\n',
        j < s.len() ==> s[j] == '\n',
    ensures
        line_break(s, from) == j,
    decreases j - from,
{
    if from < j {
        lemma_line_break_at(s, from + 1, j);
    }
}

/// Splits `s` at every newline; `n` newlines give `n + 1` pieces, in order.
pub fn split_lines(s: &str) -> (r: Vec<String>)
    ensures
        r@.len() == split_lines_spec(s@).len(),
        forall|k: int| 0 <= k < r@.len() ==> (#[trigger] r@[k])@ == split_lines_spec(s@)[k],
{
    let len = s.unicode_len();
    let mut out: Vec<String> = Vec::new();
    let ghost total = split_from(s@, 0);
    let ghost mut gdone: Seq<Seq<char>> = Seq::empty();
    let mut p: usize = 0;
    loop
        invariant_except_break
            gdone + split_from(s@, p as int) == total,
        invariant
            p <= len,
            len == s@.len(),
            out@.len() == gdone.len(),
            forall|k: int| 0 <= k < gdone.len() ==> (#[trigger] out@[k])@ == gdone[k],
        ensures
            out@.len() == total.len(),
            forall|k: int| 0 <= k < total.len() ==> (#[trigger] out@[k])@ == total[k],
        decreases len - p,
    {
        let mut j = p;
        while j < len && s.get_char(j) != '\n'
            invariant
                p <= j <= len,
                len == s@.len(),
                forall|i: int| p <= i < j ==> s@[i] != '\n',
            decreases len - j,
        {
            j = j + 1;
        }
        proof {
            lemma_line_break_at(s@, p as int, j as int);
        }
        let piece = s.substring_char(p, j).to_owned();
        out.push(piece);
        proof {
            gdone = gdone.push(s@.subrange(p as int, j as int));
        }
        if j == len {
            proof {
                assert(split_from(s@, p as int) =~= seq![s@.subrange(p as int, len as int)]);
                assert(gdone =~= total);
            }
            break;
        }
        p = j + 1;
        proof {
            assert(gdone + split_from(s@, p as int) =~= total);
        }
    }
    out
}

/// The text lines of `s`, as a line-oriented reader sees them: no final
/// empty piece after a trailing newline, and no carriage return left on a
/// newline-closed line.
pub fn text_lines(s: &str) -> (r: Vec<String>)
    ensures
        r@.len() == lines_spec(s@).len(),
        forall|k: int| 0 <= k < r@.len() ==> (#[trigger] r@[k])@ == lines_spec(s@)[k],
{
    let mut raw = split_lines(s);
    let ghost graw = split_lines_spec(s@);
    let mut ends_closed = false;
    if raw.len() > 0 {
        let last = &raw[raw.len() - 1];
        if last.as_str().unicode_len() == 0 {
            raw.pop();
            ends_closed = true;
        }
    }
    assert(ends_closed == (graw.len() > 0 && graw[graw.len() - 1].len() == 0));
    let ghost kept = if ends_closed {
        graw.drop_last()
    } else {
        graw
    };
    assert(raw@.len() == kept.len());
    assert(forall|k: int| 0 <= k < kept.len() ==> (#[trigger] raw@[k])@ == kept[k]);
    let mut out: Vec<String> = Vec::new();
    let mut i: usize = 0;
    while i < raw.len()
        invariant
            i <= raw@.len(),
            raw@.len() == kept.len(),
            ends_closed == (graw.len() > 0 && graw[graw.len() - 1].len() == 0),
            kept == (if ends_closed {
                graw.drop_last()
            } else {
                graw
            }),
            forall|k: int| 0 <= k < kept.len() ==> (#[trigger] raw@[k])@ == kept[k],
            out@.len() == i,
            forall|k: int|
                0 <= k < i ==> (#[trigger] out@[k])@ == (if ends_closed || k < kept.len() - 1 {
                    strip_cr(kept[k])
                } else {
                    kept[k]
                }),
        decreases raw@.len() - i,
    {
        let line = &raw[i];
        let n = line.as_str().unicode_len();
        let closed = ends_closed || i + 1 < raw.len();
        if closed && n > 0 && line.as_str().get_char(n - 1) == '\r' {
            let cut = line.as_str().substring_char(0, n - 1);
            out.push(cut.to_owned());
        } else {
            out.push(line.clone());
            if closed {
                assert(out@[i as int]@ == strip_cr(kept[i as int]));
            }
        }
        i = i + 1;
    }
    assert(forall|k: int| 0 <= k < kept.len() ==> lines_spec(s@)[k] == (if ends_closed || k
        < kept.len() - 1 {
        strip_cr(kept[k])
    } else {
        kept[k]
    }));
    out
}

/// The width of the widest among the first `i` lines.
pub open spec fn width_upto(lines: Seq<Seq<char>>, i: int) -> nat
    decreases i,
{
    if i <= 0 {
        0
    } else {
        let m = width_upto(lines, i - 1);
        if lines[i - 1].len() > m {
            lines[i - 1].len()
        } else {
            m
        }
    }
}

/// The art block's width: the length of its longest line.
pub open spec fn block_width(lines: Seq<Seq<char>>) -> nat {
    width_upto(lines, lines.len() as int)
}

/// The composed line at position `i`: art padded to the block width beside
/// the output line while both sides last; a bare art line once the output is
/// exhausted; a blank, width-matched margin before the output line once the
/// art is exhausted.
pub open spec fn side_row(art: Seq<Seq<char>>, fetch: Seq<Seq<char>>, w: nat, i: int) -> Seq<char> {
    if i < art.len() && i < fetch.len() {
        art[i] + spaces((w - art[i].len()) as nat) + seq![' '] + fetch[i] + seq!['\n']
    } else if i < art.len() {
        art[i] + seq!['\n']
    } else {
        spaces(w) + seq![' '] + fetch[i] + seq!['\n']
    }
}

/// The first `i` composed lines, in order.
pub open spec fn side_upto(art: Seq<Seq<char>>, fetch: Seq<Seq<char>>, w: nat, i: int) -> Seq<char>
    decreases i,
{
    if i <= 0 {
        Seq::empty()
    } else {
        side_upto(art, fetch, w, i - 1) + side_row(art, fetch, w, i - 1)
    }
}

/// The whole side-by-side composition of an art block and an output block.
pub open spec fn side_output(art: Seq<Seq<char>>, fetch: Seq<Seq<char>>) -> Seq<char> {
    let n = if art.len() > fetch.len() {
        art.len()
    } else {
        fetch.len()
    };
    side_upto(art, fetch, block_width(art), n as int)
}

/// No line is wider than the block.
proof fn lemma_width_ge(lines: Seq<Seq<char>>, i: int, j: int)
    requires
        0 <= j < i <= lines.len(),
    ensures
        lines[j].len() <= width_upto(lines, i),
    decreases i,
{
    if j < i - 1 {
        lemma_width_ge(lines, i - 1, j);
    }
}

/// The deep views of a vector of lines, element by element.
pub open spec fn line_views(lines: Seq<String>) -> Seq<Seq<char>> {
    lines.map_values(|l: String| l@)
}

/// Composes the art block beside the output block: pairs lines while both
/// sides last, then pads the art side with blank width-matched margins, or
/// emits the remaining art lines bare.
pub fn compose_side_by_side(art: &Vec<String>, fetch: &Vec<String>) -> (r: String)
    ensures
        r@ == side_output(line_views(art@), line_views(fetch@)),
{
    let ghost ga = line_views(art@);
    let ghost gf = line_views(fetch@);
    let mut w: usize = 0;
    let mut i: usize = 0;
    while i < art.len()
        invariant
            i <= art@.len(),
            w == width_upto(line_views(art@), i as int),
        decreases art@.len() - i,
    {
        let n = art[i].as_str().unicode_len();
        if n > w {
            w = n;
        }
        i = i + 1;
    }
    assert(w == block_width(ga));
    let count = if art.len() > fetch.len() {
        art.len()
    } else {
        fetch.len()
    };
    let mut out = String::new();
    let mut j: usize = 0;
    proof {
        reveal_strlit(" ");
        reveal_strlit("\n");
        assert(" "@ =~= seq![' ']);
        assert("\n"@ =~= seq!['\n']);
    }
    while j < count
        invariant
            j <= count,
            w == block_width(ga),
            ga == line_views(art@),
            gf == line_views(fetch@),
            count == (if ga.len() > gf.len() {
                ga.len()
            } else {
                gf.len()
            }),
            out@ == side_upto(ga, gf, w as nat, j as int),
        decreases count - j,
    {
        proof {
            reveal_strlit(" ");
            reveal_strlit("\n");
            assert(" "@ =~= seq![' ']);
            assert("\n"@ =~= seq!['\n']);
        }
        if j < art.len() {
            proof {
                lemma_width_ge(ga, ga.len() as int, j as int);
            }
            let line = &art[j];
            out.append(line.as_str());
            if j < fetch.len() {
                let n = line.as_str().unicode_len();
                push_repeat(&mut out, " ", w - n);
                out.append(" ");
                out.append(fetch[j].as_str());
            }
            out.append("\n");
        } else {
            push_repeat(&mut out, " ", w);
            out.append(" ");
            out.append(fetch[j].as_str());
            out.append("\n");
        }
        j = j + 1;
        assert(out@ =~= side_upto(ga, gf, w as nat, j as int));
    }
    out
}

/// Stacks the art block above the output: the art, one line break, then the
/// output untouched.
pub fn compose_stacked(art: &str, fetch: &str) -> (r: String)
    ensures
        r@ == art@ + seq!['\n'] + fetch@,
{
    proof {
        reveal_strlit("\n");
        assert("\n"@ =~= seq!['\n']);
    }
    let mut out = art.to_owned();
    out.append("\n");
    out.append(fetch);
    assert(out@ =~= art@ + seq!['\n'] + fetch@);
    out
}

} // verus!
