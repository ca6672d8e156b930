//! Styled text: a recursive value of plain fragments, styled fragments and
//! ordered combinations, with measurement, normalizing append, and flattening
//! into one escape-coded string.

use vstd::prelude::*;

use crate::style::Style;
use crate::style::codes_str;
use crate::style::lemma_codes_upto_no_esc_m;
use crate::style::no_esc_m;
use crate::style::reset_seq;
use crate::style::start_seq;
use crate::style::style_codes;
use crate::style::wrap_seq;

verus! {

broadcast use vstd::std_specs::vec::group_vec_axioms;

/// A possibly nested, possibly styled text value.
#[derive(Debug)]
pub enum Text {
    Styled { text: String, style: Style },
    Unstyled(String),
    Combine(Vec<Text>),
    Empty,
}

/// The printable character count of a text value: escape codes are
/// zero-width, so a styled fragment counts only its inner characters.
pub open spec fn measure(t: Text) -> nat
    decreases t,
{
    match t {
        Text::Styled { text, style } => text@.len(),
        Text::Unstyled(s) => s@.len(),
        Text::Combine(v) => measure_list(v@),
        Text::Empty => 0,
    }
}

/// The summed measure of a fragment list.
pub open spec fn measure_list(ts: Seq<Text>) -> nat
    decreases ts,
{
    if ts.len() == 0 {
        0
    } else {
        measure(ts[0]) + measure_list(ts.drop_first())
    }
}

/// The flattened form of a text value: its final string, escape sequences
/// included.
pub open spec fn flat(t: Text) -> Seq<char>
    decreases t,
{
    match t {
        Text::Styled { text, style } => wrap_seq(style, text@),
        Text::Unstyled(s) => s@,
        Text::Combine(v) => flat_list(v@),
        Text::Empty => Seq::empty(),
    }
}

/// The concatenated flattened forms of a fragment list.
pub open spec fn flat_list(ts: Seq<Text>) -> Seq<char>
    decreases ts,
{
    if ts.len() == 0 {
        Seq::empty()
    } else {
        flat(ts[0]) + flat_list(ts.drop_first())
    }
}

/// The printable characters of a text value, in order, with no escape codes.
pub open spec fn printable(t: Text) -> Seq<char>
    decreases t,
{
    match t {
        Text::Styled { text, style } => text@,
        Text::Unstyled(s) => s@,
        Text::Combine(v) => printable_list(v@),
        Text::Empty => Seq::empty(),
    }
}

/// The concatenated printable characters of a fragment list.
pub open spec fn printable_list(ts: Seq<Text>) -> Seq<char>
    decreases ts,
{
    if ts.len() == 0 {
        Seq::empty()
    } else {
        printable(ts[0]) + printable_list(ts.drop_first())
    }
}

/// No character of `s` is the escape character.
pub open spec fn no_esc(s: Seq<char>) -> bool {
    forall|i: int| 0 <= i < s.len() ==> s[i] != '\u{1b}'
}

/// No payload string of the text holds the escape character itself.
pub open spec fn esc_free(t: Text) -> bool
    decreases t,
{
    match t {
        Text::Styled { text, style } => no_esc(text@),
        Text::Unstyled(s) => no_esc(s@),
        Text::Combine(v) => esc_free_list(v@),
        Text::Empty => true,
    }
}

/// Every fragment of the list is escape-free.
pub open spec fn esc_free_list(ts: Seq<Text>) -> bool
    decreases ts,
{
    ts.len() == 0 || (esc_free(ts[0]) && esc_free_list(ts.drop_first()))
}

/// The fragment list a text value normalizes to when appended onto: its own
/// list if it is a combination, else itself as a single fragment.
pub open spec fn as_fragments(t: Text) -> Seq<Text> {
    match t {
        Text::Combine(v) => v@,
        _ => seq![t],
    }
}

/// The fragments an appended value contributes: its list if it is a
/// combination, nothing if it is empty, itself otherwise.
pub open spec fn appended_fragments(t: Text) -> Seq<Text> {
    match t {
        Text::Combine(v) => v@,
        Text::Empty => Seq::empty(),
        _ => seq![t],
    }
}

/// Flattening distributes over list concatenation.
pub proof fn lemma_flat_list_concat(a: Seq<Text>, b: Seq<Text>)
    ensures
        flat_list(a + b) == flat_list(a) + flat_list(b),
    decreases a,
{
    if a.len() == 0 {
        assert(a + b =~= b);
        assert(flat_list(a) + flat_list(b) =~= flat_list(b));
    } else {
        assert((a + b).drop_first() =~= a.drop_first() + b);
        lemma_flat_list_concat(a.drop_first(), b);
        assert(flat_list(a + b) =~= flat_list(a) + flat_list(b));
    }
}

/// Measurement distributes over list concatenation.
pub proof fn lemma_measure_list_concat(a: Seq<Text>, b: Seq<Text>)
    ensures
        measure_list(a + b) == measure_list(a) + measure_list(b),
    decreases a,
{
    if a.len() == 0 {
        assert(a + b =~= b);
    } else {
        assert((a + b).drop_first() =~= a.drop_first() + b);
        lemma_measure_list_concat(a.drop_first(), b);
    }
}

/// Escape-freedom distributes over list concatenation.
pub proof fn lemma_esc_free_list_concat(a: Seq<Text>, b: Seq<Text>)
    ensures
        esc_free_list(a + b) == (esc_free_list(a) && esc_free_list(b)),
    decreases a,
{
    if a.len() == 0 {
        assert(a + b =~= b);
    } else {
        assert((a + b).drop_first() =~= a.drop_first() + b);
        lemma_esc_free_list_concat(a.drop_first(), b);
    }
}

/// A singleton fragment list flattens and measures as its one fragment.
pub proof fn lemma_singleton_list(t: Text)
    ensures
        flat_list(seq![t]) == flat(t),
        measure_list(seq![t]) == measure(t),
        esc_free_list(seq![t]) == esc_free(t),
{
    assert(seq![t].drop_first() =~= Seq::<Text>::empty());
    assert(flat_list(Seq::<Text>::empty()) == Seq::<char>::empty());
    assert(measure_list(Seq::<Text>::empty()) == 0);
    assert(esc_free_list(Seq::<Text>::empty()));
    assert(seq![t][0] == t);
    assert(flat(t) + Seq::<char>::empty() =~= flat(t));
}

/// The fragments a text normalizes to keep its flattening, measure and
/// escape-freedom.
pub proof fn lemma_as_fragments(t: Text)
    ensures
        flat_list(as_fragments(t)) == flat(t),
        measure_list(as_fragments(t)) == measure(t),
        esc_free_list(as_fragments(t)) == esc_free(t),
{
    match t {
        Text::Combine(v) => {}
        _ => {
            lemma_singleton_list(t);
        }
    }
}

/// The fragments an appended value contributes keep its flattening, measure
/// and escape-freedom.
pub proof fn lemma_appended_fragments(t: Text)
    ensures
        flat_list(appended_fragments(t)) == flat(t),
        measure_list(appended_fragments(t)) == measure(t),
        esc_free_list(appended_fragments(t)) == esc_free(t),
{
    match t {
        Text::Combine(v) => {}
        Text::Empty => {}
        _ => {
            lemma_singleton_list(t);
        }
    }
}

impl Text {
    /// The printable character count.
    pub fn len(&self) -> (r: usize)
        requires
            measure(*self) <= usize::MAX,
        ensures
            r == measure(*self),
        decreases *self,
    {
        match self {
            Text::Styled { text, style } => text.as_str().unicode_len(),
            Text::Unstyled(s) => s.as_str().unicode_len(),
            Text::Empty => 0,
            Text::Combine(v) => {
                let mut sum: usize = 0;
                let mut i: usize = 0;
                assert(v@.skip(0) =~= v@);
                while i < v.len()
                    invariant
                        i <= v@.len(),
                        *self == Text::Combine(*v),
                        measure(*self) <= usize::MAX,
                        measure_list(v@) <= usize::MAX,
                        sum + measure_list(v@.skip(i as int)) == measure_list(v@),
                    decreases v@.len() - i,
                {
                    proof {
                        assert(v@.skip(i as int).drop_first() =~= v@.skip(i as int + 1));
                        assert(v@.skip(i as int)[0] == v@[i as int]);
                        assert(decreases_to!(*self => *v));
                        assert(decreases_to!(*v => v@[i as int]));
                    }
                    let item = &v[i];
                    sum = sum + item.len();
                    i = i + 1;
                }
                proof {
                    assert(v@.skip(v@.len() as int) =~= Seq::<Text>::empty());
                }
                sum
            }
        }
    }

    /// Flattens to the final string, escape sequences included. A pure
    /// function of the value.
    pub fn flatten(&self) -> (r: String)
        ensures
            r@ == flat(*self),
        decreases *self,
    {
        match self {
            Text::Styled { text, style } => style.format(text.as_str()),
            Text::Unstyled(s) => s.as_str().to_owned(),
            Text::Empty => String::new(),
            Text::Combine(v) => {
                let mut r = String::new();
                let mut i: usize = 0;
                assert(v@.skip(0) =~= v@);
                assert(decreases_to!(*self => *v));
                while i < v.len()
                    invariant
                        i <= v@.len(),
                        decreases_to!(*self => *v),
                        r@ + flat_list(v@.skip(i as int)) == flat_list(v@),
                    decreases v@.len() - i,
                {
                    proof {
                        assert(v@.skip(i as int).drop_first() =~= v@.skip(i as int + 1));
                        assert(v@.skip(i as int)[0] == v@[i as int]);
                        assert(decreases_to!(*v => v@[i as int]));
                    }
                    let item = &v[i];
                    let piece = item.flatten();
                    r.append(piece.as_str());
                    proof {
                        assert(r@ + flat_list(v@.skip(i as int + 1)) =~= flat_list(v@));
                    }
                    i = i + 1;
                }
                proof {
                    assert(v@.skip(v@.len() as int) =~= Seq::<Text>::empty());
                    assert(r@ + flat_list(Seq::<Text>::empty()) =~= r@);
                }
                r
            }
        }
    }

    /// Appends `v` in place, normalizing: the target becomes a combination
    /// whose list is the target's fragments followed by `v`'s contribution —
    /// a combined `v` is spliced in flat, an empty `v` adds nothing. The
    /// flattening of the result is the two flattenings in order, and the
    /// measure is the sum of the two measures.
    pub fn append(&mut self, v: Text)
        ensures
            *final(self) matches Text::Combine(nv) && nv@ == as_fragments(*old(self))
                + appended_fragments(v),
            flat(*final(self)) == flat(*old(self)) + flat(v),
            measure(*final(self)) == measure(*old(self)) + measure(v),
            esc_free(*old(self)) && esc_free(v) ==> esc_free(*final(self)),
    {
        let mut taken = Text::Empty;
        core::mem::swap(self, &mut taken);
        let mut vec: Vec<Text> = match taken {
            Text::Combine(v0) => v0,
            other => {
                let mut w: Vec<Text> = Vec::new();
                w.push(other);
                w
            }
        };
        assert(vec@ =~= as_fragments(*old(self)));
        match v {
            Text::Combine(mut v2) => {
                vec.append(&mut v2);
            }
            Text::Empty => {
                assert(vec@ =~= as_fragments(*old(self)) + appended_fragments(v));
            }
            other => {
                vec.push(other);
                assert(vec@ =~= as_fragments(*old(self)) + appended_fragments(v));
            }
        }
        proof {
            lemma_as_fragments(*old(self));
            lemma_appended_fragments(v);
            lemma_flat_list_concat(as_fragments(*old(self)), appended_fragments(v));
            lemma_measure_list_concat(as_fragments(*old(self)), appended_fragments(v));
            lemma_esc_free_list_concat(as_fragments(*old(self)), appended_fragments(v));
        }
        *self = Text::Combine(vec);
    }
}

impl Default for Text {
    /// The default text is an empty plain fragment.
    fn default() -> (r: Self)
        ensures
            r matches Text::Unstyled(s) && s@ == Seq::<char>::empty(),
            measure(r) == 0,
            flat(r) == Seq::<char>::empty(),
    {
        let r = Text::Unstyled(String::new());
        assert(flat(r) =~= Seq::<char>::empty());
        r
    }
}

/// Strips escape sequences: outside one, an escape character opens one;
/// inside one, every character up to and including the closing `m` is
/// dropped; everything else passes through.
pub open spec fn strip_rec(s: Seq<char>, in_esc: bool) -> Seq<char>
    decreases s.len(),
{
    if s.len() == 0 {
        Seq::empty()
    } else if in_esc {
        strip_rec(s.drop_first(), s[0] != 'm')
    } else if s[0] == '\u{1b}' {
        strip_rec(s.drop_first(), true)
    } else {
        seq![s[0]] + strip_rec(s.drop_first(), false)
    }
}

/// `s` with its escape sequences removed.
pub open spec fn strip_escapes(s: Seq<char>) -> Seq<char> {
    strip_rec(s, false)
}

/// An escape-free prefix passes through stripping untouched.
pub proof fn lemma_strip_plain(a: Seq<char>, b: Seq<char>)
    requires
        no_esc(a),
    ensures
        strip_rec(a + b, false) == a + strip_rec(b, false),
    decreases a.len(),
{
    if a.len() == 0 {
        assert(a + b =~= b);
        assert(a + strip_rec(b, false) =~= strip_rec(b, false));
    } else {
        assert((a + b).drop_first() =~= a.drop_first() + b);
        lemma_strip_plain(a.drop_first(), b);
        assert(seq![a[0]] + (a.drop_first() + strip_rec(b, false)) =~= a + strip_rec(b, false));
    }
}

/// Inside an escape sequence, everything up to the closing `m` is dropped.
proof fn lemma_strip_in_esc(w: Seq<char>, b: Seq<char>)
    requires
        no_esc_m(w),
    ensures
        strip_rec(w + seq!['m'] + b, true) == strip_rec(b, false),
    decreases w.len(),
{
    if w.len() == 0 {
        assert(w + seq!['m'] + b =~= seq!['m'] + b);
        assert((seq!['m'] + b).drop_first() =~= b);
    } else {
        assert((w + seq!['m'] + b).drop_first() =~= w.drop_first() + seq!['m'] + b);
        lemma_strip_in_esc(w.drop_first(), b);
    }
}

/// A style's opening sequence strips to nothing.
proof fn lemma_strip_start(st: Style, b: Seq<char>)
    ensures
        strip_rec(start_seq(st) + b, false) == strip_rec(b, false),
{
    let w = seq!['['] + codes_str(style_codes(st));
    lemma_codes_upto_no_esc_m(style_codes(st), style_codes(st).len() as int);
    assert(no_esc_m(w));
    assert((start_seq(st) + b).drop_first() =~= w + seq!['m'] + b);
    lemma_strip_in_esc(w, b);
}

/// The reset sequence strips to nothing.
pub proof fn lemma_strip_reset(b: Seq<char>)
    ensures
        strip_rec(reset_seq() + b, false) == strip_rec(b, false),
{
    let w = seq!['[', '0'];
    assert(no_esc_m(w));
    assert((reset_seq() + b).drop_first() =~= w + seq!['m'] + b);
    lemma_strip_in_esc(w, b);
}

/// Stripping the flattened form of an escape-free text, followed by
/// anything, yields its printable characters followed by the strip of the
/// rest.
pub proof fn lemma_strip_flat(t: Text, rest: Seq<char>)
    requires
        esc_free(t),
    ensures
        strip_rec(flat(t) + rest, false) == printable(t) + strip_rec(rest, false),
    decreases t,
{
    match t {
        Text::Unstyled(s) => {
            lemma_strip_plain(s@, rest);
        }
        Text::Styled { text, style } => {
            assert(flat(t) + rest =~= start_seq(style) + (text@ + (reset_seq() + rest)));
            lemma_strip_start(style, text@ + (reset_seq() + rest));
            lemma_strip_plain(text@, reset_seq() + rest);
            lemma_strip_reset(rest);
        }
        Text::Empty => {
            assert(flat(t) + rest =~= rest);
            assert(printable(t) + strip_rec(rest, false) =~= strip_rec(rest, false));
        }
        Text::Combine(v) => {
            lemma_strip_flat_list(v@, rest);
        }
    }
}

/// The list form of the previous lemma.
proof fn lemma_strip_flat_list(ts: Seq<Text>, rest: Seq<char>)
    requires
        esc_free_list(ts),
    ensures
        strip_rec(flat_list(ts) + rest, false) == printable_list(ts) + strip_rec(rest, false),
    decreases ts,
{
    if ts.len() == 0 {
        assert(flat_list(ts) + rest =~= rest);
        assert(printable_list(ts) + strip_rec(rest, false) =~= strip_rec(rest, false));
    } else {
        assert(flat_list(ts) + rest =~= flat(ts[0]) + (flat_list(ts.drop_first()) + rest));
        lemma_strip_flat(ts[0], flat_list(ts.drop_first()) + rest);
        lemma_strip_flat_list(ts.drop_first(), rest);
        assert(printable(ts[0]) + (printable_list(ts.drop_first()) + strip_rec(rest, false))
            =~= printable_list(ts) + strip_rec(rest, false));
    }
}

/// A span wrapped in an optional style strips back to the span itself, when
/// the span holds no escape character.
pub proof fn lemma_strip_opt_wrap(bs: Option<Style>, s: Seq<char>, rest: Seq<char>)
    requires
        no_esc(s),
    ensures
        strip_rec(crate::style::opt_wrap(bs, s) + rest, false) == s + strip_rec(rest, false),
{
    match bs {
        None => {
            lemma_strip_plain(s, rest);
        }
        Some(st) => {
            assert(crate::style::opt_wrap(bs, s) + rest =~= start_seq(st) + (s + (reset_seq()
                + rest)));
            lemma_strip_start(st, s + (reset_seq() + rest));
            lemma_strip_plain(s, reset_seq() + rest);
            lemma_strip_reset(rest);
        }
    }
}

/// An optional style's opening sequence strips to nothing.
pub proof fn lemma_strip_opt_start(bs: Option<Style>, rest: Seq<char>)
    ensures
        strip_rec(crate::style::opt_start(bs) + rest, false) == strip_rec(rest, false),
{
    match bs {
        None => {
            assert(crate::style::opt_start(bs) + rest =~= rest);
        }
        Some(st) => {
            lemma_strip_start(st, rest);
        }
    }
}

/// Escape-freedom is preserved by concatenation.
pub proof fn lemma_no_esc_concat(a: Seq<char>, b: Seq<char>)
    requires
        no_esc(a),
        no_esc(b),
    ensures
        no_esc(a + b),
{
    assert forall|i: int| 0 <= i < (a + b).len() implies (a + b)[i] != '\u{1b}' by {
        if i < a.len() {
            assert((a + b)[i] == a[i]);
        } else {
            assert((a + b)[i] == b[i - a.len()]);
        }
    }
}

/// A repetition of escape-free pieces is escape-free.
pub proof fn lemma_no_esc_repeat(p: Seq<char>, n: nat)
    requires
        no_esc(p),
    ensures
        no_esc(crate::strutil::repeat_seq(p, n)),
    decreases n,
{
    if n > 0 {
        lemma_no_esc_repeat(p, (n - 1) as nat);
    }
}

/// The measure of a text is the length of its printable characters.
pub proof fn lemma_measure_printable(t: Text)
    ensures
        measure(t) == printable(t).len(),
    decreases t,
{
    match t {
        Text::Combine(v) => {
            lemma_measure_printable_list(v@);
        }
        _ => {}
    }
}

/// The list form of the previous lemma.
pub proof fn lemma_measure_printable_list(ts: Seq<Text>)
    ensures
        measure_list(ts) == printable_list(ts).len(),
    decreases ts,
{
    if ts.len() > 0 {
        lemma_measure_printable(ts[0]);
        lemma_measure_printable_list(ts.drop_first());
    }
}

/// Measurement and flattening agree: for an escape-free text, the measure is
/// exactly the number of printable characters left when the flattened form
/// has its escape sequences stripped.
pub proof fn lemma_measure_is_stripped_flat(t: Text)
    requires
        esc_free(t),
    ensures
        strip_escapes(flat(t)) == printable(t),
        strip_escapes(flat(t)).len() == measure(t),
{
    lemma_strip_flat(t, Seq::empty());
    assert(flat(t) + Seq::<char>::empty() =~= flat(t));
    assert(printable(t) + strip_rec(Seq::<char>::empty(), false) =~= printable(t));
    lemma_measure_printable(t);
}

/// Appending the empty text is a no-op for flattening and measure: what the
/// empty text contributes to either is nothing.
pub proof fn lemma_append_empty_noop(t: Text)
    ensures
        flat(t) + flat(Text::Empty) == flat(t),
        measure(t) + measure(Text::Empty) == measure(t),
{
    assert(flat(t) + flat(Text::Empty) =~= flat(t));
}

} // verus!
