//! Text as sequences of characters: trimming, splitting, joining and decimal
//! numerals.

use vstd::prelude::*;

verus! {

/// `String::push` appends one character.
pub assume_specification[ String::push ](s: &mut String, c: char)
    ensures
        final(s)@ == old(s)@.push(c),
;

/// The characters with the Unicode property `White_Space`.
pub open spec fn white_space(c: char) -> bool {
    let n = c as u32;
    ||| 0x9 <= n <= 0xd
    ||| n == 0x20
    ||| n == 0x85
    ||| n == 0xa0
    ||| n == 0x1680
    ||| 0x2000 <= n <= 0x200a
    ||| n == 0x2028
    ||| n == 0x2029
    ||| n == 0x202f
    ||| n == 0x205f
    ||| n == 0x3000
}

/// Whether `c` is white space.
pub fn is_white_space(c: char) -> (b: bool)
    ensures
        b == white_space(c),
{
    let n: u32 = c as u32;
    (0x9 <= n && n <= 0xd) || n == 0x20 || n == 0x85 || n == 0xa0 || n == 0x1680 || (0x2000 <= n
        && n <= 0x200a) || n == 0x2028 || n == 0x2029 || n == 0x202f || n == 0x205f || n == 0x3000
}

/// `s` without its leading white space.
pub open spec fn trimmed_start(s: Seq<char>) -> Seq<char>
    decreases s.len(),
{
    if s.len() > 0 && white_space(s[0]) {
        trimmed_start(s.skip(1))
    } else {
        s
    }
}

/// `s` without its trailing white space.
pub open spec fn trimmed_end(s: Seq<char>) -> Seq<char>
    decreases s.len(),
{
    if s.len() > 0 && white_space(s.last()) {
        trimmed_end(s.drop_last())
    } else {
        s
    }
}

/// `s` without white space at either end.
pub open spec fn trimmed(s: Seq<char>) -> Seq<char> {
    trimmed_end(trimmed_start(s))
}

/// The pieces of `s` between the characters that `sep` picks out: a separator
/// opens a new piece, any other character extends the last one.
pub open spec fn pieces(s: Seq<char>, sep: spec_fn(char) -> bool) -> Seq<Seq<char>>
    decreases s.len(),
{
    if s.len() == 0 {
        seq![Seq::<char>::empty()]
    } else {
        let before = pieces(s.drop_last(), sep);
        if sep(s.last()) {
            before.push(Seq::<char>::empty())
        } else {
            before.drop_last().push(before.last().push(s.last()))
        }
    }
}

/// The predicate that holds of the character `c` alone.
pub open spec fn only(c: char) -> spec_fn(char) -> bool {
    |d: char| d == c
}

/// The pieces of `s` between occurrences of the character `c`.
pub open spec fn split_at_char(s: Seq<char>, c: char) -> Seq<Seq<char>> {
    pieces(s, only(c))
}

/// The maximal runs of `s` without white space, in order.
pub open spec fn words(s: Seq<char>) -> Seq<Seq<char>> {
    pieces(s, |c: char| white_space(c)).filter(|w: Seq<char>| w.len() > 0)
}

/// Whether `s` begins with `prefix`.
pub open spec fn has_prefix(s: Seq<char>, prefix: Seq<char>) -> bool {
    s.len() >= prefix.len() && s.take(prefix.len() as int) == prefix
}

/// The contents of a vector of character vectors.
pub open spec fn char_views(v: Seq<Vec<char>>) -> Seq<Seq<char>> {
    Seq::new(v.len(), |i: int| v[i]@)
}

/// The contents of a vector of strings.
pub open spec fn string_views(v: Seq<String>) -> Seq<Seq<char>> {
    Seq::new(v.len(), |i: int| v[i]@)
}

/// The contents of an optional string.
pub open spec fn option_view(o: Option<String>) -> Option<Seq<char>> {
    match o {
        Some(s) => Some(s@),
        None => None,
    }
}

/// A result with the contents of its error string.
pub open spec fn error_view<T>(r: Result<T, String>) -> Result<T, Seq<char>> {
    match r {
        Ok(v) => Ok(v),
        Err(e) => Err(e@),
    }
}

/// The decimal digit for a number below ten.
pub open spec fn digit_char(d: nat) -> char {
    (48 + d) as char
}

/// The decimal numeral of `n`, without leading zeros.
pub open spec fn decimal(n: nat) -> Seq<char>
    decreases n,
{
    if n < 10 {
        seq![digit_char(n)]
    } else {
        decimal(n / 10).push(digit_char(n % 10))
    }
}

/// Whether `c` is one of `0` to `9`.
pub open spec fn ascii_digit(c: char) -> bool {
    '0' <= c <= '9'
}

/// The number that a string of decimal digits denotes.
pub open spec fn number(s: Seq<char>) -> nat
    decreases s.len(),
{
    if s.len() == 0 {
        0
    } else {
        number(s.drop_last()) * 10 + (s.last() as nat - 48) as nat
    }
}

/// A decimal numeral denotes the number it was made from, and holds digits only.
pub proof fn lemma_decimal_denotes(n: nat)
    ensures
        number(decimal(n)) == n,
        forall|i: int| 0 <= i < decimal(n).len() ==> ascii_digit(#[trigger] decimal(n)[i]),
        decimal(n).len() > 0,
    decreases n,
{
    reveal_with_fuel(number, 2);
    if n >= 10 {
        lemma_decimal_denotes(n / 10);
        assert(decimal(n).drop_last() =~= decimal(n / 10));
    }
}

/// There is always a piece.
pub(crate) proof fn lemma_pieces_nonempty(s: Seq<char>, sep: spec_fn(char) -> bool)
    ensures
        pieces(s, sep).len() > 0,
    decreases s.len(),
{
    if s.len() > 0 {
        lemma_pieces_nonempty(s.drop_last(), sep);
    }
}

/// A text without separators is one piece.
pub(crate) proof fn lemma_single_piece(w: Seq<char>, sep: spec_fn(char) -> bool)
    requires
        forall|i: int| 0 <= i < w.len() ==> !sep(#[trigger] w[i]),
    ensures
        pieces(w, sep) == seq![w],
    decreases w.len(),
{
    if w.len() > 0 {
        let v = w.drop_last();
        assert forall|i: int| 0 <= i < v.len() implies !sep(#[trigger] v[i]) by {
            assert(v[i] == w[i]);
        }
        lemma_single_piece(v, sep);
        assert(v.push(w.last()) =~= w);
        assert(pieces(w, sep) =~= seq![w]);
    } else {
        assert(w =~= Seq::<char>::empty());
    }
}

/// A separator parts the pieces before it from those after it.
pub(crate) proof fn lemma_pieces_parted(a: Seq<char>, c: char, b: Seq<char>, sep: spec_fn(char) -> bool)
    requires
        sep(c),
    ensures
        pieces(a.push(c) + b, sep) == pieces(a, sep) + pieces(b, sep),
    decreases b.len(),
{
    let s = a.push(c) + b;
    lemma_pieces_nonempty(b, sep);
    if b.len() == 0 {
        assert(s =~= a.push(c));
        assert(a.push(c).drop_last() =~= a);
        assert(pieces(s, sep) =~= pieces(a, sep) + pieces(b, sep));
    } else {
        let v = b.drop_last();
        lemma_pieces_parted(a, c, v, sep);
        lemma_pieces_nonempty(v, sep);
        assert(s.drop_last() =~= a.push(c) + v);
        assert(s.last() == b.last());
        assert(pieces(s, sep) =~= pieces(a, sep) + pieces(b, sep));
    }
}

/// The code point of `c`.
pub fn code_of(c: char) -> (n: u32)
    ensures
        n as int == c as int,
{
    c as u32
}

/// The characters of `s`.
pub fn chars_of(s: &str) -> (r: Vec<char>)
    ensures
        r@ == s@,
{
    let mut out: Vec<char> = Vec::new();
    for c in it: s.chars()
        invariant
            out@ == s@.take(it.index()),
            it.seq() == s@,
    {
        out.push(c);
    }
    out
}

/// The string made of `cs`.
pub fn string_of(cs: &Vec<char>) -> (r: String)
    ensures
        r@ == cs@,
{
    let mut out = String::new();
    let mut i: usize = 0;
    while i < cs.len()
        invariant
            i <= cs.len(),
            out@ == cs@.take(i as int),
        decreases cs.len() - i,
    {
        out.push(cs[i]);
        i = i + 1;
    }
    out
}

/// The characters from `from` up to `to`.
pub fn slice_of(cs: &Vec<char>, from: usize, to: usize) -> (r: Vec<char>)
    requires
        from <= to <= cs.len(),
    ensures
        r@ == cs@.subrange(from as int, to as int),
{
    let mut out: Vec<char> = Vec::new();
    let mut i: usize = from;
    while i < to
        invariant
            from <= i <= to <= cs.len(),
            out@ == cs@.subrange(from as int, i as int),
        decreases to - i,
    {
        out.push(cs[i]);
        i = i + 1;
    }
    out
}

/// Whether two character vectors hold the same characters.
pub fn same_chars(a: &Vec<char>, b: &Vec<char>) -> (r: bool)
    ensures
        r == (a@ == b@),
{
    if a.len() != b.len() {
        return false;
    }
    let mut i: usize = 0;
    while i < a.len()
        invariant
            a.len() == b.len(),
            i <= a.len(),
            forall|j: int| 0 <= j < i ==> a@[j] == b@[j],
        decreases a.len() - i,
    {
        if a[i] != b[i] {
            assert(a@[i as int] != b@[i as int]);
            return false;
        }
        i = i + 1;
    }
    assert(a@ =~= b@);
    true
}

/// `cs` without its leading white space.
pub fn trim_start(cs: &Vec<char>) -> (r: Vec<char>)
    ensures
        r@ == trimmed_start(cs@),
{
    let mut i: usize = 0;
    assert(cs@.skip(0) =~= cs@);
    while i < cs.len() && is_white_space(cs[i])
        invariant
            i <= cs.len(),
            trimmed_start(cs@) == trimmed_start(cs@.skip(i as int)),
        decreases cs.len() - i,
    {
        assert(cs@.skip(i as int).skip(1) =~= cs@.skip(i + 1));
        i = i + 1;
    }
    assert(cs@.skip(i as int) =~= cs@.subrange(i as int, cs@.len() as int));
    slice_of(cs, i, cs.len())
}

/// `cs` without white space at either end.
pub fn trim(cs: &Vec<char>) -> (r: Vec<char>)
    ensures
        r@ == trimmed(cs@),
{
    let t = trim_start(cs);
    let mut j: usize = t.len();
    assert(t@.take(j as int) =~= t@);
    while j > 0 && is_white_space(t[j - 1])
        invariant
            j <= t.len(),
            trimmed_end(t@) == trimmed_end(t@.take(j as int)),
        decreases j,
    {
        assert(t@.take(j as int).drop_last() =~= t@.take(j - 1));
        j = j - 1;
    }
    assert(t@.take(j as int) =~= t@.subrange(0, j as int));
    slice_of(&t, 0, j)
}

/// The pieces of `cs` between occurrences of `sep`.
pub fn split_on(cs: &Vec<char>, sep: char) -> (r: Vec<Vec<char>>)
    ensures
        char_views(r@) == split_at_char(cs@, sep),
{
    let ghost p = only(sep);
    let mut out: Vec<Vec<char>> = Vec::new();
    let mut cur: Vec<char> = Vec::new();
    let mut i: usize = 0;
    assert(char_views(out@).push(cur@) =~= pieces(cs@.take(0), p));
    while i < cs.len()
        invariant
            i <= cs.len(),
            p == only(sep),
            char_views(out@).push(cur@) == pieces(cs@.take(i as int), p),
        decreases cs.len() - i,
    {
        let ghost before = char_views(out@).push(cur@);
        assert(cs@.take(i + 1).drop_last() =~= cs@.take(i as int));
        let c = cs[i];
        if c == sep {
            out.push(cur);
            cur = Vec::new();
            assert(char_views(out@) =~= before);
            assert(char_views(out@).push(cur@) =~= before.push(Seq::<char>::empty()));
        } else {
            cur.push(c);
            assert(char_views(out@).push(cur@) =~= before.drop_last().push(before.last().push(c)));
        }
        i = i + 1;
    }
    assert(cs@.take(cs@.len() as int) =~= cs@);
    let ghost before = char_views(out@).push(cur@);
    out.push(cur);
    assert(char_views(out@) =~= before);
    out
}

/// The words of `cs`.
pub fn split_words(cs: &Vec<char>) -> (r: Vec<Vec<char>>)
    ensures
        char_views(r@) == words(cs@),
{
    let ghost p = |c: char| white_space(c);
    let ghost q = |w: Seq<char>| w.len() > 0;
    let mut out: Vec<Vec<char>> = Vec::new();
    let mut cur: Vec<char> = Vec::new();
    let mut i: usize = 0;
    proof {
        reveal(Seq::filter);
        assert(pieces(cs@.take(0), p).drop_last() =~= Seq::<Seq<char>>::empty());
        assert(char_views(out@) =~= Seq::<Seq<char>>::empty());
    }
    while i < cs.len()
        invariant
            i <= cs.len(),
            p == (|c: char| white_space(c)),
            q == (|w: Seq<char>| w.len() > 0),
            pieces(cs@.take(i as int), p).len() > 0,
            cur@ == pieces(cs@.take(i as int), p).last(),
            char_views(out@) == pieces(cs@.take(i as int), p).drop_last().filter(q),
        decreases cs.len() - i,
    {
        let ghost before = pieces(cs@.take(i as int), p);
        let ghost after = pieces(cs@.take(i + 1), p);
        assert(cs@.take(i + 1).drop_last() =~= cs@.take(i as int));
        let c = cs[i];
        if is_white_space(c) {
            assert(after == before.push(Seq::<char>::empty()));
            assert(after.drop_last() =~= before);
            proof {
                reveal(Seq::filter);
            }
            let ghost old_out = char_views(out@);
            if cur.len() > 0 {
                out.push(cur);
                assert(char_views(out@) =~= old_out.push(before.last()));
            }
            cur = Vec::new();
        } else {
            assert(after == before.drop_last().push(before.last().push(c)));
            assert(after.drop_last() =~= before.drop_last());
            cur.push(c);
        }
        i = i + 1;
    }
    assert(cs@.take(cs@.len() as int) =~= cs@);
    proof {
        reveal(Seq::filter);
    }
    let ghost old_out = char_views(out@);
    if cur.len() > 0 {
        let ghost last = cur@;
        out.push(cur);
        assert(char_views(out@) =~= old_out.push(last));
    }
    out
}

/// Appends the decimal numeral of `n`.
pub fn push_decimal(out: &mut String, n: u64)
    ensures
        final(out)@ == old(out)@ + decimal(n as nat),
    decreases n,
{
    if n >= 10 {
        push_decimal(out, n / 10);
    }
    let d: u8 = (n % 10) as u8;
    out.push((48u8 + d) as char);
    assert(out@ =~= old(out)@ + decimal(n as nat));
}

/// The decimal numeral of `n`.
pub fn decimal_string(n: u64) -> (r: String)
    ensures
        r@ == decimal(n as nat),
{
    let mut out = String::new();
    push_decimal(&mut out, n);
    assert(out@ =~= decimal(n as nat));
    out
}

/// A copy of an optional string.
pub fn clone_option(o: &Option<String>) -> (r: Option<String>)
    ensures
        r == *o,
{
    match o {
        Some(s) => Some(s.clone()),
        None => None,
    }
}

/// `text` and `rest`, with words before and between them.
pub fn quoting(before: &str, text: &str, between: &str, rest: &str) -> (r: String)
    ensures
        r@ == before@ + text@ + between@ + rest@,
{
    let mut m = before.to_owned();
    m.append(text);
    m.append(between);
    m.append(rest);
    m
}

/// What is left of a text when it is trimmed lies between white space alone, and neither
/// begins nor ends with any.
pub proof fn law_trim_removes_outer_white_space(cs: &Vec<char>, r: Vec<char>) -> (at: (int, int))
    requires
        call_ensures(trim, (cs,), r),
    ensures
        0 <= at.0 <= at.1 <= cs@.len(),
        r@ == cs@.subrange(at.0, at.1),
        forall|i: int|
            0 <= i < at.0 || at.1 <= i < cs@.len() ==> white_space(#[trigger] cs@[i]),
        r@.len() > 0 ==> !white_space(r@[0]) && !white_space(r@.last()),
{
    let a = lemma_trimmed_start(cs@);
    let t = trimmed_start(cs@);
    let b = lemma_trimmed_end(t);
    assert(t.subrange(0, b) =~= cs@.subrange(a, a + b));
    assert forall|i: int| 0 <= i < a || a + b <= i < cs@.len() implies white_space(
        #[trigger] cs@[i],
    ) by {
        if i >= a {
            assert(t[i - a] == cs@[i]);
        }
    }
    if r@.len() > 0 {
        assert(r@[0] == t[0]);
    }
    (a, a + b)
}

/// Leading white space is removed, and nothing else.
proof fn lemma_trimmed_start(s: Seq<char>) -> (a: int)
    ensures
        0 <= a <= s.len(),
        trimmed_start(s) == s.subrange(a, s.len() as int),
        forall|i: int| 0 <= i < a ==> white_space(#[trigger] s[i]),
        a < s.len() ==> !white_space(s[a]),
    decreases s.len(),
{
    if s.len() > 0 && white_space(s[0]) {
        let rest = s.skip(1);
        let a = lemma_trimmed_start(rest);
        assert(rest.subrange(a, rest.len() as int) =~= s.subrange(a + 1, s.len() as int));
        assert forall|i: int| 0 <= i < a + 1 implies white_space(#[trigger] s[i]) by {
            if i > 0 {
                assert(rest[i - 1] == s[i]);
            }
        }
        a + 1
    } else {
        assert(s.subrange(0, s.len() as int) =~= s);
        0
    }
}

/// Trailing white space is removed, and nothing else.
proof fn lemma_trimmed_end(s: Seq<char>) -> (b: int)
    ensures
        0 <= b <= s.len(),
        trimmed_end(s) == s.subrange(0, b),
        forall|i: int| b <= i < s.len() ==> white_space(#[trigger] s[i]),
        b > 0 ==> !white_space(s[b - 1]),
    decreases s.len(),
{
    if s.len() > 0 && white_space(s.last()) {
        let rest = s.drop_last();
        let b = lemma_trimmed_end(rest);
        assert(rest.subrange(0, b) =~= s.subrange(0, b));
        assert forall|i: int| b <= i < s.len() implies white_space(#[trigger] s[i]) by {
            if i < s.len() - 1 {
                assert(rest[i] == s[i]);
            }
        }
        b
    } else {
        assert(s.subrange(0, s.len() as int) =~= s);
        s.len() as int
    }
}

/// The characters that are white space.
pub proof fn law_white_space_is_that_of_unicode(c: char, b: bool)
    requires
        call_ensures(is_white_space, (c,), b),
    ensures
        c == ' ' || c == '\t' || c == '\n' || c == '\r' ==> b,
        b && (c as u32) < 0x80 ==> c == ' ' || 9 <= c as u32 <= 13,
        0x20 < (c as u32) < 0x85 || 0x85 < (c as u32) < 0xa0 || 0xa0 < (c as u32) < 0x1680 ==> !b,
        c as u32 > 0x3000 ==> !b,
        b == white_space(c),
{
}

/// A decimal numeral holds digits only, denotes its number, and begins with a zero only
/// if it is that.
pub proof fn law_decimal_numeral_denotes_its_number(n: u64, r: String)
    requires
        call_ensures(decimal_string, (n,), r),
    ensures
        r@.len() > 0,
        forall|i: int| 0 <= i < r@.len() ==> '0' <= #[trigger] r@[i] <= '9',
        number(r@) == n,
        r@[0] == '0' ==> n == 0 && r@.len() == 1,
{
    lemma_decimal_denotes(n as nat);
    lemma_decimal_begins(n as nat);
    assert forall|i: int| 0 <= i < r@.len() implies '0' <= #[trigger] r@[i] <= '9' by {
        assert(ascii_digit(r@[i]));
    }
}

/// A decimal numeral has no leading zero.
proof fn lemma_decimal_begins(n: nat)
    ensures
        decimal(n).len() > 0,
        decimal(n)[0] == '0' ==> n == 0 && decimal(n).len() == 1,
    decreases n,
{
    if n >= 10 {
        lemma_decimal_begins(n / 10);
        assert(decimal(n)[0] == decimal(n / 10)[0]);
    }
}

/// One more digit makes a numeral denote ten times as much and the digit.
pub proof fn law_digits_count_by_tens(s: Seq<char>, c: char)
    requires
        '0' <= c <= '9',
    ensures
        number(seq![]) == 0,
        number(s.push(c)) == 10 * number(s) + (c as int - '0' as int),
{
    assert(s.push(c).drop_last() =~= s);
}

/// The texts `ps` with `c` between them.
pub open spec fn rejoined(ps: Seq<Seq<char>>, c: char) -> Seq<char>
    decreases ps.len(),
{
    if ps.len() == 0 {
        seq![]
    } else if ps.len() == 1 {
        ps[0]
    } else {
        rejoined(ps.drop_last(), c).push(c) + ps.last()
    }
}

/// Pieces make up what they are pieces of.
proof fn lemma_pieces_rejoined(s: Seq<char>, c: char)
    ensures
        pieces(s, only(c)).len() > 0,
        rejoined(pieces(s, only(c)), c) == s,
        forall|k: int, i: int|
            0 <= k < pieces(s, only(c)).len() && 0 <= i < pieces(s, only(c))[k].len()
                ==> #[trigger] pieces(s, only(c))[k][i] != c,
    decreases s.len(),
{
    let ps = pieces(s, only(c));
    if s.len() == 0 {
        assert(s =~= seq![]);
    } else {
        let v = s.drop_last();
        let before = pieces(v, only(c));
        lemma_pieces_rejoined(v, c);
        assert(v.push(s.last()) =~= s);
        if s.last() == c {
            assert(ps.drop_last() =~= before);
            assert(rejoined(ps, c) =~= s);
        } else {
            assert(ps.drop_last() =~= before.drop_last());
            assert(ps.last() == before.last().push(s.last()));
            assert(rejoined(ps, c) =~= s);
            assert forall|k: int, i: int|
                0 <= k < ps.len() && 0 <= i < ps[k].len() implies #[trigger] ps[k][i] != c by {
                if k < ps.len() - 1 {
                    assert(ps[k] == before[k]);
                    assert(before[k][i] != c);
                } else if i < before.last().len() {
                    assert(before[before.len() - 1][i] != c);
                }
            }
        }
    }
}

/// The pieces between occurrences of a character hold no such character, and make up
/// the whole with that character between them.
pub proof fn law_pieces_make_up_the_whole(cs: &Vec<char>, sep: char, r: Vec<Vec<char>>)
    requires
        call_ensures(split_on, (cs, sep), r),
    ensures
        r@.len() > 0,
        rejoined(char_views(r@), sep) == cs@,
        forall|k: int, i: int|
            0 <= k < r@.len() && 0 <= i < r@[k]@.len() ==> #[trigger] r@[k]@[i] != sep,
{
    lemma_pieces_rejoined(cs@, sep);
    let v = char_views(r@);
    assert(v.len() == r@.len());
    assert forall|k: int, i: int|
        0 <= k < r@.len() && 0 <= i < r@[k]@.len() implies #[trigger] r@[k]@[i] != sep by {
        assert(v[k] == r@[k]@);
        assert(v[k][i] != sep);
    }
}

} // verus!
