//! What the helpers for texts promise: lines, pieces, beginnings and ends, the
//! order of names, numbers, and the names of files.

use vstd::prelude::*;

use crate::app::input_state::{extension, file_name, is_image, last_index, name_extension};
use crate::order::{key_less, lex_less, SortKeyView};
use crate::text::{
    after_prefix, before_suffix, decimal, first_chars, first_line, has_part, has_prefix, has_suffix,
    is_space, join, lemma_line_end_is, lines, lowercase, split_on, trim_end, trim_start,
};

verus! {

/// A text is made of its lines: each goes up to a line feed, without a carriage
/// return before that; what is behind the last line feed is a line where it is
/// not empty.
pub proof fn law_lines_end_at_line_feeds(a: Seq<char>, rest: Seq<char>)
    requires
        !a.contains('\n'),
    ensures
        lines(seq![]) == Seq::<Seq<char>>::empty(),
        a.len() > 0 ==> lines(a) == seq![a],
        a.len() == 0 || a.last() != '\r' ==> lines(a + seq!['\n'] + rest) == seq![a] + lines(rest),
        a.len() > 0 && a.last() == '\r' ==> lines(a + seq!['\n'] + rest) == seq![
            a.subrange(0, a.len() - 1),
        ] + lines(rest),
{
    let t = a + seq!['\n'] + rest;
    let n = a.len() as int;
    assert forall|i: int| 0 <= i < n implies #[trigger] t[i] != '\n' by {
        assert(t[i] == a[i]);
        assert(a.contains(a[i]));
    }
    assert(t[n] == '\n');
    lemma_line_end_is(t, n);
    assert(t.take(n) =~= a);
    assert(t.skip(n + 1) =~= rest);
    if n > 0 {
        assert forall|i: int| 0 <= i < n implies #[trigger] a[i] != '\n' by {
            assert(a.contains(a[i]));
        }
        lemma_line_end_is(a, n);
        assert(a.drop_last() =~= a.subrange(0, n - 1));
    }
}

/// The first line of a text is the first of its lines; an empty text has none.
pub proof fn law_first_line_is_the_first(a: Seq<char>, rest: Seq<char>)
    requires
        a.len() > 0,
        !a.contains('\n'),
        a.last() != '\r',
    ensures
        first_line(a) == a,
        first_line(a + seq!['\n'] + rest) == a,
        first_line(seq![]) == Seq::<char>::empty(),
{
    law_lines_end_at_line_feeds(a, rest);
    assert((seq![a] + lines(rest))[0] == a);
}

/// Joined parts stand one after the other, with what separates them between
/// them.
pub proof fn law_parts_are_joined(parts: Seq<Seq<char>>, p: Seq<char>, sep: Seq<char>)
    ensures
        join(seq![], sep) == Seq::<char>::empty(),
        join(seq![p], sep) == p,
        parts.len() > 0 ==> join(parts.push(p), sep) == join(parts, sep) + sep + p,
{
    assert(parts.push(p).drop_last() =~= parts);
}

/// The pieces of a text are what stands between its separators, and joined again
/// they are the text.
pub proof fn law_pieces_stand_between_separators(s: Seq<char>, c: char, k: int)
    requires
        0 <= k < split_on(s, c).len(),
    ensures
        split_on(s, c).len() > 0,
        !split_on(s, c)[k].contains(c),
        join(split_on(s, c), seq![c]) == s,
    decreases s.len(),
{
    let all = split_on(s, c);
    if s.len() == 0 {
        assert(join(all, seq![c]) =~= s);
    } else {
        let init = split_on(s.drop_last(), c);
        crate::text::lemma_split_on_len(s.drop_last(), c);
        if s.last() == c {
            if k < init.len() {
                law_pieces_stand_between_separators(s.drop_last(), c, k);
            } else {
                law_pieces_stand_between_separators(s.drop_last(), c, 0);
            }
            law_parts_are_joined(init, seq![], seq![c]);
            assert(s.drop_last() + seq![c] + seq![] =~= s);
        } else {
            let last = init.last().push(s.last());
            law_pieces_stand_between_separators(s.drop_last(), c, init.len() - 1);
            if k < init.len() - 1 {
                law_pieces_stand_between_separators(s.drop_last(), c, k);
                assert(all[k] == init[k]);
            } else {
                assert(all[k] == last);
                assert forall|i: int| 0 <= i < last.len() implies #[trigger] last[i] != c by {
                    if i < init.last().len() {
                        assert(init.last().contains(init.last()[i]));
                    }
                }
            }
            let front = init.drop_last();
            assert(front.push(init.last()) =~= init);
            law_parts_are_joined(front, init.last(), seq![c]);
            law_parts_are_joined(front, last, seq![c]);
            assert(s.drop_last().push(s.last()) =~= s);
            if front.len() == 0 {
                assert(front.push(last) =~= seq![last]);
                assert(init =~= seq![init.last()]);
            } else {
                assert(join(front, seq![c]) + seq![c] + last =~= (join(front, seq![c]) + seq![c]
                    + init.last()).push(s.last()));
            }
        }
    }
}

/// What a text begins with and what follows make up the text, and so do what it
/// ends with and what precedes that.
pub proof fn law_beginnings_and_ends(s: Seq<char>, p: Seq<char>, rest: Seq<char>)
    ensures
        s == p + rest ==> has_prefix(s, p) && after_prefix(s, p) == Some(rest),
        has_prefix(s, p) ==> after_prefix(s, p) is Some && s == p + after_prefix(s, p)->0,
        !has_prefix(s, p) ==> after_prefix(s, p) is None,
        s == rest + p ==> has_suffix(s, p) && before_suffix(s, p) == Some(rest),
        has_suffix(s, p) ==> before_suffix(s, p) is Some && s == before_suffix(s, p)->0 + p,
        !has_suffix(s, p) ==> before_suffix(s, p) is None,
{
    let n = p.len() as int;
    if s == p + rest {
        assert(s.take(n) =~= p);
        assert(s.skip(n) =~= rest);
    }
    if has_prefix(s, p) {
        assert(s =~= p + s.skip(n));
    }
    if s == rest + p {
        assert(s.skip(s.len() - n) =~= p);
        assert(s.take(s.len() - n) =~= rest);
    }
    if has_suffix(s, p) {
        assert(s =~= s.take(s.len() - n) + p);
    }
}

/// A text holds each text that it was put together around.
pub proof fn law_parts_are_found(a: Seq<char>, p: Seq<char>, b: Seq<char>)
    ensures
        has_part(a + p + b, p),
{
    assert((a + p + b).skip(a.len() as int).take(p.len() as int) =~= p);
}

/// Trimming one end takes the white space there off and nothing else.
pub proof fn law_ends_are_trimmed(a: Seq<char>, c: char, s: Seq<char>)
    requires
        !is_space(c),
        forall|i: int| 0 <= i < a.len() ==> is_space(#[trigger] a[i]),
    ensures
        trim_start(a + seq![c] + s) == seq![c] + s,
        trim_end(s + seq![c] + a) == s + seq![c],
    decreases a.len(),
{
    if a.len() == 0 {
        assert(a + seq![c] + s =~= seq![c] + s);
        assert(s + seq![c] + a =~= s + seq![c]);
    } else {
        let front = a.skip(1);
        assert forall|i: int| 0 <= i < front.len() implies is_space(#[trigger] front[i]) by {
            assert(front[i] == a[i + 1]);
        }
        law_ends_are_trimmed(front, c, s);
        assert((a + seq![c] + s).skip(1) =~= front + seq![c] + s);
        assert((a + seq![c] + s)[0] == a[0]);
        let back = a.drop_last();
        assert forall|i: int| 0 <= i < back.len() implies is_space(#[trigger] back[i]) by {
            assert(back[i] == a[i]);
        }
        law_ends_are_trimmed(back, c, s);
        assert((s + seq![c] + a).drop_last() =~= s + seq![c] + back);
        assert((s + seq![c] + a).last() == a[a.len() - 1]);
    }
}

/// Of the characters of seven bits white space are the space, the tabulators,
/// the ends of lines and of pages, and no others.
pub proof fn law_white_space(c: char)
    ensures
        (c as u32) < 0x80 ==> (is_space(c) <==> c == ' ' || 0x09 <= c as u32 <= 0x0d),
{
}

/// The beginning of a text is all of it where it is short enough.
pub proof fn law_beginnings_are_cut(s: Seq<char>, n: nat)
    ensures
        s.len() <= n ==> first_chars(s, n) == s,
        s.len() > n ==> first_chars(s, n) == s.subrange(0, n as int),
{
    if s.len() > n {
        assert(s.take(n as int) =~= s.subrange(0, n as int));
    }
}

/// The value of digits.
pub open spec fn value(s: Seq<char>) -> int
    decreases s.len(),
{
    if s.len() == 0 {
        0
    } else {
        value(s.drop_last()) * 10 + (s.last() as int - '0' as int)
    }
}

/// A number that is written is made of digits, and reads as the number; it does
/// not begin with a zero, unless it is zero.
pub proof fn law_numbers_read_as_they_are(n: nat)
    ensures
        decimal(n).len() > 0,
        value(decimal(n)) == n,
        forall|i: int| 0 <= i < decimal(n).len() ==> '0' <= #[trigger] decimal(n)[i] <= '9',
        n > 0 ==> decimal(n)[0] != '0',
    decreases n,
{
    let d = crate::text::digit(n % 10);
    if n < 10 {
        let one = decimal(n);
        assert(one.drop_last() =~= seq![]);
        assert(value(one.drop_last()) == 0);
    } else {
        law_numbers_read_as_they_are(n / 10);
        let front = decimal(n / 10);
        assert(front.push(d).drop_last() =~= front);
        assert(decimal(n)[0] == front[0]);
        assert forall|i: int| 0 <= i < decimal(n).len() implies '0' <= #[trigger] decimal(n)[i]
            <= '9' by {
            if i < front.len() {
                assert(decimal(n)[i] == front[i]);
            }
        }
    }
}

/// Names are ordered by their first difference; a name comes before those that
/// go on from it.
pub proof fn law_names_are_ordered(p: Seq<char>, a: char, b: char, s: Seq<char>, t: Seq<char>)
    ensures
        (a as u32) < (b as u32) ==> lex_less(p + seq![a] + s, p + seq![b] + t) && !lex_less(
            p + seq![b] + t,
            p + seq![a] + s,
        ),
        lex_less(p, p + seq![a] + s),
        !lex_less(p + seq![a] + s, p),
    decreases p.len(),
{
    let x = p + seq![a] + s;
    let y = p + seq![b] + t;
    if p.len() == 0 {
        assert(x[0] == a);
        assert(y[0] == b);
    } else {
        law_names_are_ordered(p.skip(1), a, b, s, t);
        assert(x.skip(1) =~= p.skip(1) + seq![a] + s);
        assert(y.skip(1) =~= p.skip(1) + seq![b] + t);
        assert(x[0] == p[0] && y[0] == p[0]);
    }
}

/// Keys are ordered by their rank, by the first name, and by the second.
pub proof fn law_keys_are_ordered(a: SortKeyView, b: SortKeyView)
    ensures
        a.rank < b.rank ==> key_less(a, b),
        a.rank > b.rank ==> !key_less(a, b),
        a.rank == b.rank && a.first != b.first ==> key_less(a, b) == lex_less(a.first, b.first),
        a.rank == b.rank && a.first == b.first ==> key_less(a, b) == lex_less(a.second, b.second),
{
}

proof fn lemma_last_index(s: Seq<char>, c: char, k: int)
    requires
        0 <= k < s.len(),
        s[k] == c,
        forall|j: int| k < j < s.len() ==> #[trigger] s[j] != c,
    ensures
        last_index(s, c) == Some(k),
    decreases s.len(),
{
    if k < s.len() - 1 {
        assert(s[s.len() - 1] != c);
        lemma_last_index(s.drop_last(), c, k);
    }
}

/// The extension of a name is what follows its last dot; a name that begins with
/// its only dot has none.
pub proof fn law_extensions_follow_the_last_dot(stem: Seq<char>, e: Seq<char>)
    requires
        !e.contains('.'),
    ensures
        stem.len() > 0 ==> name_extension(stem + seq!['.'] + e) == Some(e),
        name_extension(seq!['.'] + e) is None,
{
    let s = stem + seq!['.'] + e;
    let k = stem.len() as int;
    assert forall|j: int| k < j < s.len() implies #[trigger] s[j] != '.' by {
        assert(s[j] == e[j - k - 1]);
        assert(e.contains(e[j - k - 1]));
    }
    lemma_last_index(s, '.', k);
    assert(s.skip(k + 1) =~= e);
    let h = seq!['.'] + e;
    assert forall|j: int| 0 < j < h.len() implies #[trigger] h[j] != '.' by {
        assert(h[j] == e[j - 1]);
        assert(e.contains(e[j - 1]));
    }
    lemma_last_index(h, '.', 0);
}

/// A path is that of an image if its extension is one of those of images,
/// without regard to case.
pub proof fn law_images_go_by_their_extension(path: Seq<char>)
    ensures
        is_image(path) <==> (extension(path) matches Some(e) && {
            let l = lowercase(e);
            l == "png"@ || l == "jpg"@ || l == "jpeg"@ || l == "gif"@ || l == "webp"@ || l
                == "bmp"@ || l == "svg"@ || l == "tiff"@ || l == "tif"@ || l == "ico"@
        }),
        file_name(path) is None ==> extension(path) is None,
        file_name(path) matches Some(n) ==> extension(path) == name_extension(n),
{
}

} // verus!
