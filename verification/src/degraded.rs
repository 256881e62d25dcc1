//! The placeholder that is shown in place of a photo that could not be fetched.

use vstd::prelude::*;

use crate::background::{
    allocatable, allocation_error, fill, in_memory, not_allocated, painted, Canvas,
};
use crate::color::{BackgroundMethod, ColorConfig};
use crate::text::{
    char_views, chars_of, decimal, has_prefix, lemma_pieces_nonempty, lemma_pieces_parted,
    lemma_single_piece, only, pieces, split_at_char, split_on, split_words, string_of,
    string_views, white_space, words,
};

verus! {

/// First line of the diagnostic text.
pub const HEADING: &'static str = "Failed to fetch image";

/// A screen without a photo, and the colour to write on it in.
pub struct Placeholder {
    pub canvas: Canvas,
    pub text: ColorConfig,
}

/// The colour of a placeholder's canvas. There is no photo to blur, so a blurred
/// background is white instead.
pub open spec fn canvas_color(background: BackgroundMethod) -> (u8, u8, u8) {
    match background {
        BackgroundMethod::Solid(c) => (c.red, c.green, c.blue),
        BackgroundMethod::Blur => (255, 255, 255),
    }
}

/// A screen-sized canvas in the background's colour, with the inverted colour for
/// the diagnostic text.
pub fn placeholder(width: u32, height: u32, background: &BackgroundMethod) -> (r: Result<
    Placeholder,
    String,
>)
    requires
        in_memory(width, height),
    ensures
        !allocatable(width, height) ==> r is Err && r->Err_0@ == not_allocated(width, height),
        allocatable(width, height) ==> r is Ok && ({
            let (red, green, blue) = canvas_color(*background);
            let p = r->Ok_0;
            &&& p.canvas@.width == width
            &&& p.canvas@.height == height
            &&& painted(p.canvas@, red, green, blue)
            &&& p.text.red == 255 - red
            &&& p.text.green == 255 - green
            &&& p.text.blue == 255 - blue
            &&& p.text.alpha == 255
        }),
{
    let bg = match background {
        BackgroundMethod::Solid(c) => *c,
        BackgroundMethod::Blur => ColorConfig::rgb(255, 255, 255),
    };
    match Canvas::new(width, height) {
        None => Err(allocation_error(width, height)),
        Some(pm) => Ok(Placeholder { canvas: fill(pm, bg.to_rgb()), text: bg.inverted() }),
    }
}

/// `line` with `word` after it.
pub open spec fn joined(line: Seq<char>, word: Seq<char>) -> Seq<char> {
    if line.len() == 0 {
        word
    } else {
        line.push(' ') + word
    }
}

/// The lines that `ws` fill after the words already on `line`: a word goes on the
/// line if the line still fits with it, else on a line of its own.
pub open spec fn filled(
    ws: Seq<Seq<char>>,
    fits: spec_fn(Seq<char>) -> bool,
    line: Seq<char>,
) -> Seq<Seq<char>>
    decreases ws.len(),
{
    if ws.len() == 0 {
        if line.len() == 0 {
            seq![]
        } else {
            seq![line]
        }
    } else if fits(joined(line, ws[0])) {
        filled(ws.skip(1), fits, joined(line, ws[0]))
    } else if line.len() == 0 {
        filled(ws.skip(1), fits, ws[0])
    } else {
        seq![line] + filled(ws.skip(1), fits, ws[0])
    }
}

/// The lines of one paragraph.
pub open spec fn paragraph_lines(p: Seq<char>, fits: spec_fn(Seq<char>) -> bool) -> Seq<Seq<char>> {
    filled(words(p), fits, seq![])
}

/// The lines of the paragraphs `ps`, in order.
pub open spec fn all_lines(ps: Seq<Seq<char>>, fits: spec_fn(Seq<char>) -> bool) -> Seq<Seq<char>>
    decreases ps.len(),
{
    if ps.len() == 0 {
        seq![]
    } else {
        paragraph_lines(ps[0], fits) + all_lines(ps.skip(1), fits)
    }
}

/// The lines of a text, paragraph by paragraph.
pub open spec fn wrapped_lines(text: Seq<char>, fits: spec_fn(Seq<char>) -> bool) -> Seq<Seq<char>> {
    all_lines(split_at_char(text, '\n'), fits)
}

/// Whether `f` answers of each text as `fits` does.
pub open spec fn decided_by<F: Fn(&str) -> bool>(
    f: F,
    fits: spec_fn(Seq<char>) -> bool,
) -> bool {
    forall|t: &str, b: bool| #[trigger] call_ensures(f, (t,), b) ==> b == fits(t@)
}

/// Whether `lines` are those of `text`, whatever `f` decides.
pub open spec fn wraps<F: Fn(&str) -> bool>(f: F, text: Seq<char>, lines: Seq<Seq<char>>) -> bool {
    forall|p: spec_fn(Seq<char>) -> bool| #[trigger]
        decided_by(f, p) ==> lines == wrapped_lines(text, p)
}

/// Greedy word wrap: as many words on a line as fit, where `fits` tells whether a
/// line does. A word that does not fit by itself gets a line of its own. A line
/// break in `text` ends a line.
pub fn wrap<F: Fn(&str) -> bool>(text: &str, fits: F) -> (r: Vec<String>)
    requires
        forall|t: &str| call_requires(fits, (t,)),
    ensures
        wraps(fits, text@, string_views(r@)),
{
    let paragraphs = split_on(&chars_of(text), '\n');
    let ghost ps = char_views(paragraphs@);
    let mut out: Vec<String> = Vec::new();
    let mut k: usize = 0;
    assert(ps.skip(0) =~= ps);
    assert(string_views(out@) =~= Seq::<Seq<char>>::empty());
    assert forall|p: spec_fn(Seq<char>) -> bool| #[trigger] decided_by(fits, p) implies string_views(
        out@,
    ) + all_lines(ps.skip(0), p) == all_lines(ps, p) by {
        assert(string_views(out@) + all_lines(ps.skip(0), p) =~= all_lines(ps, p));
    }
    while k < paragraphs.len()
        invariant
            k <= paragraphs.len(),
            ps == char_views(paragraphs@),
            forall|t: &str| call_requires(fits, (t,)),
            forall|p: spec_fn(Seq<char>) -> bool| #[trigger]
                decided_by(fits, p) ==> string_views(out@) + all_lines(ps.skip(k as int), p)
                    == all_lines(ps, p),
        decreases paragraphs.len() - k,
    {
        let found = split_words(&paragraphs[k]);
        let ghost ws = char_views(found@);
        let ghost rest = ps.skip(k + 1);
        let mut line = String::new();
        let mut i: usize = 0;
        assert(ws.skip(0) =~= ws);
        assert(line@ =~= seq![]);
        assert forall|p: spec_fn(Seq<char>) -> bool| #[trigger] decided_by(fits, p) implies (
        string_views(out@) + filled(ws.skip(0), p, line@)) + all_lines(rest, p) == all_lines(
            ps,
            p,
        ) by {
            assert(ps.skip(k as int)[0] == paragraphs@[k as int]@);
            assert(ps.skip(k as int).skip(1) =~= rest);
            assert((string_views(out@) + filled(ws, p, line@)) + all_lines(rest, p) =~= string_views(
                out@,
            ) + all_lines(ps.skip(k as int), p));
        }
        while i < found.len()
            invariant
                i <= found.len(),
                k < paragraphs.len(),
                ws == char_views(found@),
                forall|t: &str| call_requires(fits, (t,)),
                forall|p: spec_fn(Seq<char>) -> bool| #[trigger]
                    decided_by(fits, p) ==> (string_views(out@) + filled(
                        ws.skip(i as int),
                        p,
                        line@,
                    )) + all_lines(rest, p) == all_lines(ps, p),
            decreases found.len() - i,
        {
            let word = string_of(&found[i]);
            let ghost before = string_views(out@);
            let ghost start = line@;
            let mut candidate = line.clone();
            if candidate.as_str().unicode_len() > 0 {
                candidate.push(' ');
            }
            candidate.append(word.as_str());
            assert(candidate@ =~= joined(line@, word@));
            assert(ws.skip(i as int)[0] == word@);
            assert(ws.skip(i as int).skip(1) =~= ws.skip(i + 1));
            if fits(candidate.as_str()) {
                line = candidate;
            } else {
                if line.as_str().unicode_len() > 0 {
                    out.push(line);
                    assert(string_views(out@) =~= before.push(start));
                }
                line = word;
                assert forall|p: spec_fn(Seq<char>) -> bool| #[trigger] decided_by(
                    fits,
                    p,
                ) implies (string_views(out@) + filled(ws.skip(i + 1), p, line@)) + all_lines(
                    rest,
                    p,
                ) == all_lines(ps, p) by {
                    if start.len() > 0 {
                        assert(before.push(start) + filled(ws.skip(i + 1), p, line@) =~= before + (
                        seq![start] + filled(ws.skip(i + 1), p, line@)));
                    }
                }
            }
            i = i + 1;
        }
        let ghost before = string_views(out@);
        let ghost last = line@;
        if line.as_str().unicode_len() > 0 {
            out.push(line);
            assert(string_views(out@) =~= before + seq![last]);
        } else {
            assert(before + Seq::<Seq<char>>::empty() =~= before);
        }
        k = k + 1;
    }
    assert forall|p: spec_fn(Seq<char>) -> bool| #[trigger] decided_by(fits, p) implies string_views(
        out@,
    ) == wrapped_lines(text@, p) by {
        assert(string_views(out@) + Seq::<Seq<char>>::empty() =~= string_views(out@));
    }
    out
}

/// Whether `w` is the first word of `line`.
pub open spec fn begins_with_word(line: Seq<char>, w: Seq<char>) -> bool {
    line == w || has_prefix(line, w.push(' '))
}

/// Whether a line `line` stands before the line `next` only because the first word
/// of `next`, one of `ws`, does not fit on it.
pub open spec fn broken_by_word(
    line: Seq<char>,
    next: Seq<char>,
    ws: Seq<Seq<char>>,
    fits: spec_fn(Seq<char>) -> bool,
) -> bool {
    exists|k: int|
        0 <= k < ws.len() && begins_with_word(next, #[trigger] ws[k]) && !fits(joined(line, ws[k]))
}

/// The words of the texts `ts`, in order.
pub open spec fn words_of_all(ts: Seq<Seq<char>>) -> Seq<Seq<char>>
    decreases ts.len(),
{
    if ts.len() == 0 {
        seq![]
    } else {
        words(ts[0]) + words_of_all(ts.skip(1))
    }
}

/// Whether `w` could be a word: it is not empty and holds no white space.
spec fn is_word(w: Seq<char>) -> bool {
    w.len() > 0 && forall|i: int| 0 <= i < w.len() ==> !white_space(#[trigger] w[i])
}

/// Whether all of `ws` could be words.
spec fn are_words(ws: Seq<Seq<char>>) -> bool {
    forall|i: int| 0 <= i < ws.len() ==> is_word(#[trigger] ws[i])
}

/// The predicate that holds of white space.
spec fn spaces() -> spec_fn(char) -> bool {
    |c: char| white_space(c)
}

/// The predicate that holds of texts that are not empty.
spec fn filled_texts() -> spec_fn(Seq<char>) -> bool {
    |w: Seq<char>| w.len() > 0
}

proof fn lemma_words_def(s: Seq<char>)
    ensures
        words(s) == pieces(s, spaces()).filter(filled_texts()),
{
    assert(spaces() == (|c: char| white_space(c)));
    assert(filled_texts() == (|w: Seq<char>| w.len() > 0));
}

/// No piece holds white space.
proof fn lemma_pieces_unspaced(s: Seq<char>, k: int, i: int)
    requires
        0 <= k < pieces(s, spaces()).len(),
        0 <= i < pieces(s, spaces())[k].len(),
    ensures
        !white_space(pieces(s, spaces())[k][i]),
    decreases s.len(),
{
    if s.len() > 0 {
        let before = pieces(s.drop_last(), spaces());
        lemma_pieces_nonempty(s.drop_last(), spaces());
        if spaces()(s.last()) {
            if k < before.len() {
                lemma_pieces_unspaced(s.drop_last(), k, i);
            }
        } else if k < before.len() - 1 {
            lemma_pieces_unspaced(s.drop_last(), k, i);
        } else if i < before.last().len() {
            lemma_pieces_unspaced(s.drop_last(), k, i);
        }
    }
}

/// The words of a text could be words.
proof fn lemma_words_are_words(s: Seq<char>)
    ensures
        are_words(words(s)),
{
    broadcast use vstd::seq_lib::group_filter_ensures;

    lemma_words_def(s);
    let ps = pieces(s, spaces());
    let q = filled_texts();
    assert forall|k: int| 0 <= k < words(s).len() implies is_word(#[trigger] words(s)[k]) by {
        let w = ps.filter(q)[k];
        assert(q(w));
        assert(ps.filter(q).contains(w));
        ps.lemma_filter_contains_rev(q, w);
        let j = choose|j: int| 0 <= j < ps.len() && ps[j] == w;
        assert forall|i: int| 0 <= i < w.len() implies !white_space(#[trigger] w[i]) by {
            lemma_pieces_unspaced(s, j, i);
        }
    }
}

/// A word is its only word.
proof fn lemma_word_of_word(w: Seq<char>)
    requires
        is_word(w),
    ensures
        words(w) == seq![w],
{
    lemma_words_def(w);
    lemma_single_piece(w, spaces());
    reveal(Seq::filter);
    assert(seq![w].drop_last() =~= seq![]);
    assert(seq![w].filter(filled_texts()) =~= seq![w]);
}

/// An empty text has no words.
proof fn lemma_no_words()
    ensures
        words(seq![]) == Seq::<Seq<char>>::empty(),
{
    let e = Seq::<char>::empty();
    lemma_words_def(e);
    lemma_single_piece(e, spaces());
    reveal(Seq::filter);
    assert(seq![e].last() == e);
    assert(seq![e].drop_last() =~= Seq::<Seq<char>>::empty());
    assert(Seq::<Seq<char>>::empty().filter(filled_texts()) =~= Seq::<Seq<char>>::empty());
    assert(!filled_texts()(e));
}

/// White space parts the words before it from those after it.
proof fn lemma_words_parted(a: Seq<char>, c: char, b: Seq<char>)
    requires
        white_space(c),
    ensures
        words(a.push(c) + b) == words(a) + words(b),
{
    lemma_words_def(a);
    lemma_words_def(b);
    lemma_words_def(a.push(c) + b);
    lemma_pieces_parted(a, c, b, spaces());
    Seq::filter_distributes_over_add(pieces(a, spaces()), pieces(b, spaces()), filled_texts());
}

/// A word joined to a line is one more word.
proof fn lemma_words_joined(line: Seq<char>, w: Seq<char>)
    requires
        is_word(w),
    ensures
        words(joined(line, w)) == words(line).push(w),
{
    lemma_word_of_word(w);
    if line.len() == 0 {
        assert(line =~= seq![]);
        lemma_no_words();
    } else {
        lemma_words_parted(line, ' ', w);
    }
    assert(words(joined(line, w)) =~= words(line).push(w));
}

/// The words of two lists of texts are those of the first, then those of the second.
proof fn lemma_words_of_all_add(a: Seq<Seq<char>>, b: Seq<Seq<char>>)
    ensures
        words_of_all(a + b) == words_of_all(a) + words_of_all(b),
    decreases a.len(),
{
    if a.len() == 0 {
        assert(a + b =~= b);
        assert(words_of_all(a) + words_of_all(b) =~= words_of_all(b));
    } else {
        assert((a + b).skip(1) =~= a.skip(1) + b);
        lemma_words_of_all_add(a.skip(1), b);
        assert(words_of_all(a + b) =~= words_of_all(a) + words_of_all(b));
    }
}

/// The words of one text in a list.
proof fn lemma_words_of_one(t: Seq<char>)
    ensures
        words_of_all(seq![t]) == words(t),
{
    reveal_with_fuel(words_of_all, 2);
    assert(seq![t].skip(1) =~= seq![]);
    assert(words_of_all(seq![t]) =~= words(t));
}

/// The words of the pieces between line breaks are those of the whole text, whatever
/// follows it on its last line.
proof fn lemma_words_of_paragraphs(t: Seq<char>, e: Seq<char>)
    ensures
        ({
            let ps = split_at_char(t, '\n');
            ps.len() > 0 && words(t + e) == words_of_all(ps.drop_last()) + words(ps.last() + e)
        }),
    decreases t.len(),
{
    let sep = only('\n');
    let ps = pieces(t, sep);
    lemma_pieces_nonempty(t, sep);
    if t.len() == 0 {
        assert(ps.drop_last() =~= seq![]);
        assert(ps.last() + e =~= t + e);
        assert(words_of_all(ps.drop_last()) + words(ps.last() + e) =~= words(t + e));
    } else {
        let v = t.drop_last();
        let c = t.last();
        let before = pieces(v, sep);
        lemma_pieces_nonempty(v, sep);
        if c == '\n' {
            lemma_words_of_paragraphs(v, seq![]);
            assert(v + Seq::<char>::empty() =~= v);
            assert(before.last() + Seq::<char>::empty() =~= before.last());
            lemma_words_parted(v, c, e);
            assert(v.push(c) + e =~= t + e);
            assert(ps.drop_last() =~= before);
            assert(ps.last() + e =~= e);
            assert(before =~= before.drop_last() + seq![before.last()]);
            lemma_words_of_all_add(before.drop_last(), seq![before.last()]);
            lemma_words_of_one(before.last());
        } else {
            let f = seq![c] + e;
            lemma_words_of_paragraphs(v, f);
            assert(v + f =~= t + e);
            assert(ps.drop_last() =~= before.drop_last());
            assert(ps.last() + e =~= before.last() + f);
        }
    }
}

/// What a line's beginning begins with, the line begins with.
proof fn lemma_prefix_of_longer(line: Seq<char>, start: Seq<char>, prefix: Seq<char>)
    requires
        begins_with_word(line, start),
        has_prefix(start, prefix),
    ensures
        has_prefix(line, prefix),
{
    if line != start {
        let longer = start.push(' ');
        let n = prefix.len() as int;
        assert(start.take(n) =~= longer.take(n));
        assert(line.take(n) =~= line.take(longer.len() as int).take(n));
    }
}

/// What is on a line comes first on the lines that it begins.
proof fn lemma_filled(ws: Seq<Seq<char>>, fits: spec_fn(Seq<char>) -> bool, line: Seq<char>)
    requires
        are_words(ws),
    ensures
        words_of_all(filled(ws, fits, line)) == words(line) + ws,
        forall|i: int|
            0 <= i < filled(ws, fits, line).len() ==> (#[trigger] filled(ws, fits, line)[i]).len()
                > 0,
        line.len() > 0 ==> filled(ws, fits, line).len() > 0 && begins_with_word(
            filled(ws, fits, line)[0],
            line,
        ),
    decreases ws.len(),
{
    let out = filled(ws, fits, line);
    if ws.len() == 0 {
        if line.len() > 0 {
            lemma_words_of_one(line);
        } else {
            assert(line =~= seq![]);
            lemma_no_words();
        }
        assert(words_of_all(out) =~= words(line) + ws);
    } else {
        let rest = ws.skip(1);
        let w = ws[0];
        assert(is_word(w));
        assert(are_words(rest)) by {
            assert forall|i: int| 0 <= i < rest.len() implies is_word(#[trigger] rest[i]) by {
                assert(rest[i] == ws[i + 1]);
            }
        }
        let longer = joined(line, w);
        lemma_words_joined(line, w);
        assert(words(line).push(w) + rest =~= words(line) + ws);
        if fits(longer) {
            lemma_filled(rest, fits, longer);
            if line.len() > 0 {
                assert(longer.take(line.push(' ').len() as int) =~= line.push(' '));
                lemma_prefix_of_longer(out[0], longer, line.push(' '));
            }
        } else {
            lemma_filled(rest, fits, w);
            lemma_word_of_word(w);
            assert(seq![w] + rest =~= ws);
            if line.len() == 0 {
                assert(line =~= seq![]);
                lemma_no_words();
                assert(words(line) + ws =~= ws);
            } else {
                let tail = filled(rest, fits, w);
                assert(out == seq![line] + tail);
                lemma_words_of_all_add(seq![line], tail);
                lemma_words_of_one(line);
                assert forall|i: int| 0 <= i < out.len() implies (#[trigger] out[i]).len() > 0 by {
                    if i > 0 {
                        assert(out[i] == tail[i - 1]);
                    }
                }
            }
        }
    }
}

proof fn lemma_filled_fits(
    all: Seq<Seq<char>>,
    from: int,
    fits: spec_fn(Seq<char>) -> bool,
    line: Seq<char>,
    i: int,
)
    requires
        are_words(all),
        0 <= from <= all.len(),
        line.len() == 0 || fits(line) || all.contains(line),
        0 <= i < filled(all.skip(from), fits, line).len(),
    ensures
        fits(filled(all.skip(from), fits, line)[i]) || all.contains(
            filled(all.skip(from), fits, line)[i],
        ),
        i > 0 ==> broken_by_word(
            filled(all.skip(from), fits, line)[i - 1],
            filled(all.skip(from), fits, line)[i],
            all,
            fits,
        ),
    decreases all.len() - from,
{
    let ws = all.skip(from);
    let out = filled(ws, fits, line);
    if ws.len() > 0 {
        assert(ws.skip(1) =~= all.skip(from + 1));
        assert(ws[0] == all[from]);
        assert(all.contains(ws[0]));
        let rest = ws.skip(1);
        if fits(joined(line, ws[0])) {
            lemma_filled_fits(all, from + 1, fits, joined(line, ws[0]), i);
        } else if line.len() == 0 {
            lemma_filled_fits(all, from + 1, fits, ws[0], i);
        } else {
            let tail = filled(rest, fits, ws[0]);
            assert(out == seq![line] + tail);
            if i > 0 {
                lemma_filled_fits(all, from + 1, fits, ws[0], i - 1);
                assert(out[i] == tail[i - 1]);
                if i > 1 {
                    assert(out[i - 1] == tail[i - 2]);
                } else {
                    assert(are_words(rest)) by {
                        assert forall|j: int| 0 <= j < rest.len() implies is_word(
                            #[trigger] rest[j],
                        ) by {
                            assert(rest[j] == all[from + 1 + j]);
                        }
                    }
                    assert(is_word(all[from]));
                    lemma_filled(rest, fits, ws[0]);
                    assert(begins_with_word(out[1], all[from]));
                }
            }
        }
    }
}

/// The words of the lines of paragraphs are those of the paragraphs, and no line is
/// empty.
proof fn lemma_all_lines(ps: Seq<Seq<char>>, fits: spec_fn(Seq<char>) -> bool)
    ensures
        words_of_all(all_lines(ps, fits)) == words_of_all(ps),
        forall|i: int|
            0 <= i < all_lines(ps, fits).len() ==> (#[trigger] all_lines(ps, fits)[i]).len() > 0,
    decreases ps.len(),
{
    if ps.len() > 0 {
        let first = paragraph_lines(ps[0], fits);
        let others = all_lines(ps.skip(1), fits);
        lemma_words_are_words(ps[0]);
        lemma_filled(words(ps[0]), fits, seq![]);
        lemma_no_words();
        assert(words_of_all(first) =~= words(ps[0]));
        lemma_all_lines(ps.skip(1), fits);
        lemma_words_of_all_add(first, others);
        assert forall|i: int| 0 <= i < (first + others).len() implies (#[trigger] (first
            + others)[i]).len() > 0 by {
            if i < first.len() {
                assert((first + others)[i] == first[i]);
            } else {
                assert((first + others)[i] == others[i - first.len()]);
            }
        }
    }
}

/// Wrapping loses no word and changes no order: the words of the lines are the words
/// of the text. No line is empty.
pub proof fn law_wrap_keeps_words(text: Seq<char>, fits: spec_fn(Seq<char>) -> bool)
    ensures
        words_of_all(wrapped_lines(text, fits)) == words(text),
        forall|i: int|
            0 <= i < wrapped_lines(text, fits).len() ==> (#[trigger] wrapped_lines(
                text,
                fits,
            )[i]).len() > 0,
{
    let ps = split_at_char(text, '\n');
    lemma_all_lines(ps, fits);
    lemma_words_of_paragraphs(text, seq![]);
    assert(text + Seq::<char>::empty() =~= text);
    assert(ps.last() + Seq::<char>::empty() =~= ps.last());
    assert(ps =~= ps.drop_last() + seq![ps.last()]);
    lemma_words_of_all_add(ps.drop_last(), seq![ps.last()]);
    lemma_words_of_one(ps.last());
}

/// Every line of a wrapped paragraph fits, but for a line of a single word.
pub proof fn law_lines_fit(p: Seq<char>, fits: spec_fn(Seq<char>) -> bool, i: int)
    requires
        0 <= i < paragraph_lines(p, fits).len(),
    ensures
        fits(paragraph_lines(p, fits)[i]) || words(p).contains(paragraph_lines(p, fits)[i]),
{
    lemma_words_are_words(p);
    assert(words(p).skip(0) =~= words(p));
    lemma_filled_fits(words(p), 0, fits, seq![], i);
}

/// Wrapping is greedy: a line ends only where the next word does not fit on it.
pub proof fn law_wrap_is_greedy(p: Seq<char>, fits: spec_fn(Seq<char>) -> bool, i: int)
    requires
        0 < i < paragraph_lines(p, fits).len(),
    ensures
        broken_by_word(
            paragraph_lines(p, fits)[i - 1],
            paragraph_lines(p, fits)[i],
            words(p),
            fits,
        ),
{
    lemma_words_are_words(p);
    assert(words(p).skip(0) =~= words(p));
    lemma_filled_fits(words(p), 0, fits, seq![], i);
}

/// The diagnostic text differs from its background in every channel.
pub proof fn law_text_is_visible(background: BackgroundMethod, text: ColorConfig)
    requires
        text.red == 255 - canvas_color(background).0,
        text.green == 255 - canvas_color(background).1,
        text.blue == 255 - canvas_color(background).2,
    ensures
        text.red != canvas_color(background).0,
        text.green != canvas_color(background).1,
        text.blue != canvas_color(background).2,
{
}

/// A placeholder has the size that is asked for and the colour of a solid background, or
/// white for a blurred one, and its text has the inverse colour; there is none only where
/// there can be no canvas.
pub proof fn law_placeholder_is_blank(
    width: u32,
    height: u32,
    background: &BackgroundMethod,
    r: Result<Placeholder, String>,
)
    requires
        call_ensures(placeholder, (width, height, background), r),
    ensures
        width > 0 && height > 0 && width * 4 <= i32::MAX && width * height * 4 <= usize::MAX
            ==> r is Ok,
        width == 0 || height == 0 || width * 4 > i32::MAX ==> r is Err && r->Err_0@
            == "failed to allocate "@ + decimal(width as nat) + "x"@ + decimal(height as nat)
            + " pixmap"@,
        r is Ok ==> r->Ok_0.canvas@.width == width && r->Ok_0.canvas@.height == height
            && r->Ok_0.text.alpha == 255,
        r is Ok && background is Blur ==> r->Ok_0.text.red == 0 && r->Ok_0.text.green == 0
            && r->Ok_0.text.blue == 0 && forall|x: int, y: int|
            0 <= x < width && 0 <= y < height ==> #[trigger] r->Ok_0.canvas@.at(x, y) == (
                255u8,
                255u8,
                255u8,
                255u8,
            ),
        background matches BackgroundMethod::Solid(c) ==> (r is Ok ==> c.red + r->Ok_0.text.red
            == 255 && c.green + r->Ok_0.text.green == 255 && c.blue + r->Ok_0.text.blue == 255
            && forall|x: int, y: int|
            0 <= x < width && 0 <= y < height ==> #[trigger] r->Ok_0.canvas@.at(x, y) == (
                c.red,
                c.green,
                c.blue,
                255u8,
            )),
{
    if r is Ok {
        let canvas = r->Ok_0.canvas@;
        let (red, green, blue) = canvas_color(*background);
        assert(painted(canvas, red, green, blue));
        assert forall|x: int, y: int| 0 <= x < width
            && 0 <= y < height implies #[trigger] canvas.at(
            x,
            y,
        ) == (red, green, blue, 255u8) by {
            assert(canvas.has(x, y));
        }
    }
}

/// Whether white space on `line` only parts words, and by one blank.
spec fn neat(line: Seq<char>) -> bool {
    forall|i: int|
        0 <= i < line.len() && white_space(#[trigger] line[i]) ==> line[i] == ' ' && 0 < i
            < line.len() - 1 && !white_space(line[i - 1]) && !white_space(line[i + 1])
}

/// A word joined to a neat line leaves it neat.
proof fn lemma_joined_is_neat(line: Seq<char>, w: Seq<char>)
    requires
        neat(line),
        is_word(w),
    ensures
        neat(joined(line, w)),
{
    let longer = joined(line, w);
    if line.len() > 0 {
        let n = line.len() as int;
        assert(!white_space(line[n - 1]));
        assert forall|i: int| 0 <= i < longer.len() && white_space(#[trigger] longer[i]) implies
            longer[i] == ' ' && 0 < i < longer.len() - 1 && !white_space(longer[i - 1])
            && !white_space(longer[i + 1]) by {
            if i < n {
                assert(longer[i] == line[i]);
                assert(longer[i - 1] == line[i - 1]);
                assert(longer[i + 1] == line[i + 1]);
            } else if i == n {
                assert(longer[n - 1] == line[n - 1]);
                assert(longer[n + 1] == w[0]);
            } else {
                assert(longer[i] == w[i - n - 1]);
            }
        }
    }
}

/// Lines filled with words are neat.
proof fn lemma_filled_is_neat(
    ws: Seq<Seq<char>>,
    fits: spec_fn(Seq<char>) -> bool,
    line: Seq<char>,
    i: int,
)
    requires
        are_words(ws),
        neat(line),
        0 <= i < filled(ws, fits, line).len(),
    ensures
        neat(filled(ws, fits, line)[i]),
    decreases ws.len(),
{
    if ws.len() > 0 {
        let rest = ws.skip(1);
        let w = ws[0];
        assert(is_word(w));
        assert(are_words(rest)) by {
            assert forall|j: int| 0 <= j < rest.len() implies is_word(#[trigger] rest[j]) by {
                assert(rest[j] == ws[j + 1]);
            }
        }
        lemma_joined_is_neat(line, w);
        assert(neat(w));
        if fits(joined(line, w)) {
            lemma_filled_is_neat(rest, fits, joined(line, w), i);
        } else if line.len() == 0 {
            lemma_filled_is_neat(rest, fits, w, i);
        } else if i > 0 {
            let tail = filled(rest, fits, w);
            lemma_filled_is_neat(rest, fits, w, i - 1);
            assert(filled(ws, fits, line)[i] == tail[i - 1]);
        }
    }
}

/// A line of paragraphs is a line of one of them.
proof fn lemma_line_of_paragraph(
    ps: Seq<Seq<char>>,
    fits: spec_fn(Seq<char>) -> bool,
    i: int,
) -> (at: (int, int))
    requires
        0 <= i < all_lines(ps, fits).len(),
    ensures
        0 <= at.0 < ps.len(),
        0 <= at.1 < paragraph_lines(ps[at.0], fits).len(),
        all_lines(ps, fits)[i] == paragraph_lines(ps[at.0], fits)[at.1],
    decreases ps.len(),
{
    let first = paragraph_lines(ps[0], fits);
    if i < first.len() {
        (0, i)
    } else {
        let at = lemma_line_of_paragraph(ps.skip(1), fits, i - first.len());
        assert(ps.skip(1)[at.0] == ps[at.0 + 1]);
        (at.0 + 1, at.1)
    }
}

/// Wrapped text keeps its words, in their order.
pub proof fn law_wrapped_text_keeps_its_words<F: Fn(&str) -> bool>(
    text: &str,
    f: F,
    fits: spec_fn(Seq<char>) -> bool,
    r: Vec<String>,
)
    requires
        call_ensures(wrap::<F>, (text, f), r),
        decided_by(f, fits),
    ensures
        words_of_all(string_views(r@)) == words(text@),
{
    assert(wraps(f, text@, string_views(r@)));
    law_wrap_keeps_words(text@, fits);
}

/// Each line of wrapped text fits, or is a single word; it is not empty, and single
/// blanks part its words.
pub proof fn law_wrapped_lines_fit<F: Fn(&str) -> bool>(
    text: &str,
    f: F,
    fits: spec_fn(Seq<char>) -> bool,
    r: Vec<String>,
    i: int,
)
    requires
        call_ensures(wrap::<F>, (text, f), r),
        decided_by(f, fits),
        0 <= i < r@.len(),
    ensures
        r@[i]@.len() > 0,
        fits(r@[i]@) || forall|k: int| 0 <= k < r@[i]@.len() ==> !white_space(#[trigger] r@[i]@[k]),
        forall|k: int|
            0 <= k < r@[i]@.len() && white_space(#[trigger] r@[i]@[k]) ==> r@[i]@[k] == ' ' && 0 < k
                < r@[i]@.len() - 1 && !white_space(r@[i]@[k - 1]) && !white_space(r@[i]@[k + 1]),
{
    let lines = string_views(r@);
    assert(wraps(f, text@, lines));
    assert(lines.len() == r@.len());
    assert(lines[i] == r@[i]@);
    law_wrap_keeps_words(text@, fits);
    let ps = split_at_char(text@, '\n');
    let at = lemma_line_of_paragraph(ps, fits, i);
    let p = ps[at.0];
    law_lines_fit(p, fits, at.1);
    lemma_words_are_words(p);
    lemma_filled_is_neat(words(p), fits, seq![], at.1);
    if !fits(r@[i]@) {
        let k = choose|k: int| 0 <= k < words(p).len() && words(p)[k] == r@[i]@;
        assert(is_word(words(p)[k]));
    }
    assert(neat(r@[i]@));
}

/// The lines of two lists of paragraphs are those of the first, then those of the
/// second.
proof fn lemma_all_lines_add(
    a: Seq<Seq<char>>,
    b: Seq<Seq<char>>,
    fits: spec_fn(Seq<char>) -> bool,
)
    ensures
        all_lines(a + b, fits) == all_lines(a, fits) + all_lines(b, fits),
    decreases a.len(),
{
    if a.len() == 0 {
        assert(a + b =~= b);
        assert(all_lines(a, fits) + all_lines(b, fits) =~= all_lines(b, fits));
    } else {
        assert((a + b).skip(1) =~= a.skip(1) + b);
        lemma_all_lines_add(a.skip(1), b, fits);
        assert(all_lines(a + b, fits) =~= all_lines(a, fits) + all_lines(b, fits));
    }
}

/// A line break ends a line: what stands before it and what stands after it are wrapped
/// each by itself.
pub proof fn law_line_break_parts_the_lines<F: Fn(&str) -> bool>(
    text: &str,
    before: &str,
    after: &str,
    f: F,
    fits: spec_fn(Seq<char>) -> bool,
    r: Vec<String>,
    a: Vec<String>,
    b: Vec<String>,
)
    requires
        call_ensures(wrap::<F>, (text, f), r),
        call_ensures(wrap::<F>, (before, f), a),
        call_ensures(wrap::<F>, (after, f), b),
        decided_by(f, fits),
        text@ == before@.push('\n') + after@,
    ensures
        string_views(r@) == string_views(a@) + string_views(b@),
{
    assert(wraps(f, text@, string_views(r@)));
    assert(wraps(f, before@, string_views(a@)));
    assert(wraps(f, after@, string_views(b@)));
    lemma_pieces_parted(before@, '\n', after@, only('\n'));
    lemma_all_lines_add(split_at_char(before@, '\n'), split_at_char(after@, '\n'), fits);
}

/// Lines are as long as can be: a line of a text without line breaks is followed by
/// another only where the first word of that one does not fit on it.
pub proof fn law_wrapped_lines_are_filled<F: Fn(&str) -> bool>(
    text: &str,
    f: F,
    fits: spec_fn(Seq<char>) -> bool,
    r: Vec<String>,
    i: int,
)
    requires
        call_ensures(wrap::<F>, (text, f), r),
        decided_by(f, fits),
        forall|k: int| 0 <= k < text@.len() ==> #[trigger] text@[k] != '\n',
        0 < i < r@.len(),
    ensures
        exists|k: int|
            0 <= k < words(text@).len() && (r@[i]@ == #[trigger] words(text@)[k] || has_prefix(
                r@[i]@,
                words(text@)[k].push(' '),
            )) && !fits(r@[i - 1]@.push(' ') + words(text@)[k]),
{
    let lines = string_views(r@);
    assert(wraps(f, text@, lines));
    assert(lines.len() == r@.len());
    assert(lines[i] == r@[i]@ && lines[i - 1] == r@[i - 1]@);
    lemma_single_piece(text@, only('\n'));
    let ps = split_at_char(text@, '\n');
    assert(ps == seq![text@]);
    assert(ps.skip(1) =~= seq![]);
    assert(lines =~= paragraph_lines(text@, fits)) by {
        reveal_with_fuel(all_lines, 2);
    }
    law_wrap_is_greedy(text@, fits, i);
    law_wrap_keeps_words(text@, fits);
    let ws = words(text@);
    let k = choose|k: int|
        0 <= k < ws.len() && begins_with_word(lines[i], #[trigger] ws[k]) && !fits(
            joined(lines[i - 1], ws[k]),
        );
    assert(lines[i - 1].len() > 0);
    assert(ws[k] == words(text@)[k]);
}

/// White space parts the words of a text.
pub proof fn law_white_space_parts_words(
    text: &Vec<char>,
    before: &Vec<char>,
    c: char,
    after: &Vec<char>,
    r: Vec<Vec<char>>,
    a: Vec<Vec<char>>,
    b: Vec<Vec<char>>,
)
    requires
        call_ensures(split_words, (text,), r),
        call_ensures(split_words, (before,), a),
        call_ensures(split_words, (after,), b),
        c == ' ' || c == '\n' || c == '\t' || c == '\r',
        text@ == before@.push(c) + after@,
    ensures
        char_views(r@) == char_views(a@) + char_views(b@),
{
    lemma_words_parted(before@, c, after@);
}

/// A text without white space is its only word, and an empty text has none.
pub proof fn law_text_without_space_is_a_word(text: &Vec<char>, r: Vec<Vec<char>>)
    requires
        call_ensures(split_words, (text,), r),
        forall|i: int| 0 <= i < text@.len() ==> !white_space(#[trigger] text@[i]),
    ensures
        text@.len() > 0 ==> r@.len() == 1 && r@[0]@ == text@,
        text@.len() == 0 ==> r@.len() == 0,
{
    let v = char_views(r@);
    assert(v.len() == r@.len());
    if text@.len() > 0 {
        assert(is_word(text@));
        lemma_word_of_word(text@);
        assert(v[0] == r@[0]@);
    } else {
        assert(text@ =~= seq![]);
        lemma_no_words();
    }
}

} // verus!
