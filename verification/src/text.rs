//! Strings as sequences of characters: white space, lines, prefixes, byte
//! offsets, and the executable functions that compute on them.

use vstd::prelude::*;
use vstd::hash_map::StringHashMap;
use vstd::utf8::{encode_scalar, encode_utf8};

verus! {

// ── White space ──────────────────────────────────────────────────────────────

/// The characters with Unicode's `White_Space` property.
pub open spec fn is_space(c: char) -> bool {
    let u = c as u32;
    ||| 0x09 <= u <= 0x0d
    ||| u == 0x20
    ||| u == 0x85
    ||| u == 0xa0
    ||| u == 0x1680
    ||| 0x2000 <= u <= 0x200a
    ||| u == 0x2028
    ||| u == 0x2029
    ||| u == 0x202f
    ||| u == 0x205f
    ||| u == 0x3000
}

/// `s` without its leading white space.
pub open spec fn trim_start(s: Seq<char>) -> Seq<char>
    decreases s.len(),
{
    if s.len() > 0 && is_space(s[0]) {
        trim_start(s.skip(1))
    } else {
        s
    }
}

/// `s` without its trailing white space.
pub open spec fn trim_end(s: Seq<char>) -> Seq<char>
    decreases s.len(),
{
    if s.len() > 0 && is_space(s.last()) {
        trim_end(s.drop_last())
    } else {
        s
    }
}

/// `s` without its leading and trailing white space.
pub open spec fn trim(s: Seq<char>) -> Seq<char> {
    trim_end(trim_start(s))
}

/// Neither end of `s` is white space.
pub open spec fn is_trimmed(s: Seq<char>) -> bool {
    s.len() == 0 || (!is_space(s[0]) && !is_space(s.last()))
}

pub fn is_whitespace(c: char) -> (r: bool)
    ensures
        r == is_space(c),
{
    let u: u32 = c as u32;
    (u >= 0x09 && u <= 0x0d) || u == 0x20 || u == 0x85 || u == 0xa0 || u == 0x1680 || (u >= 0x2000
        && u <= 0x200a) || u == 0x2028 || u == 0x2029 || u == 0x202f || u == 0x205f || u == 0x3000
}

pub proof fn lemma_trim_end_is_prefix(s: Seq<char>)
    ensures
        trim_end(s).len() <= s.len(),
        trim_end(s) == s.take(trim_end(s).len() as int),
        trim_end(s).len() == 0 || !is_space(trim_end(s).last()),
        forall|i: int| trim_end(s).len() <= i < s.len() ==> is_space(#[trigger] s[i]),
    decreases s.len(),
{
    if s.len() > 0 && is_space(s.last()) {
        lemma_trim_end_is_prefix(s.drop_last());
        assert(trim_end(s) =~= s.take(trim_end(s).len() as int));
        assert forall|i: int| trim_end(s).len() <= i < s.len() implies is_space(
            #[trigger] s[i],
        ) by {
            if i < s.len() - 1 {
                assert(s.drop_last()[i] == s[i]);
            }
        }
    } else {
        assert(s.take(s.len() as int) =~= s);
    }
}

pub proof fn lemma_trim_start_is_suffix(s: Seq<char>)
    ensures
        trim_start(s).len() <= s.len(),
        trim_start(s) == s.skip(s.len() - trim_start(s).len()),
        trim_start(s).len() == 0 || !is_space(trim_start(s)[0]),
    decreases s.len(),
{
    if s.len() > 0 && is_space(s[0]) {
        lemma_trim_start_is_suffix(s.skip(1));
        assert(trim_start(s) =~= s.skip(s.len() - trim_start(s).len()));
    } else {
        assert(s.skip(0) =~= s);
    }
}

/// Trimming leaves nothing to trim.
pub proof fn lemma_trim_is_trimmed(s: Seq<char>)
    ensures
        is_trimmed(trim(s)),
        trim(s).len() <= s.len(),
{
    lemma_trim_start_is_suffix(s);
    lemma_trim_end_is_prefix(trim_start(s));
}

/// A string is its own trim exactly when neither end is white space.
pub proof fn lemma_trim_fixpoint(s: Seq<char>)
    ensures
        trim(s) == s <==> is_trimmed(s),
{
    lemma_trim_is_trimmed(s);
}

/// Text that starts with something solid and ends with `s` is trimmed at the
/// end only.
pub proof fn lemma_trim_prefixed(p: Seq<char>, s: Seq<char>)
    requires
        p.len() > 0,
        !is_space(p[0]),
        !is_space(p.last()),
    ensures
        trim(p + s) == p + trim_end(s),
{
    assert((p + s)[0] == p[0]);
    assert(trim_start(p + s) == p + s);
    lemma_trim_end_append(p, s);
}

proof fn lemma_trim_end_append(p: Seq<char>, s: Seq<char>)
    requires
        p.len() > 0,
        !is_space(p.last()),
    ensures
        trim_end(p + s) == p + trim_end(s),
    decreases s.len(),
{
    let t = p + s;
    if s.len() == 0 {
        assert(t =~= p);
        assert(p + trim_end(s) =~= p);
    } else {
        assert(t.last() == s.last());
        if is_space(s.last()) {
            assert(t.drop_last() =~= p + s.drop_last());
            lemma_trim_end_append(p, s.drop_last());
        }
    }
}

// ── Building and comparing strings ───────────────────────────────────────────

/// `String::push` appends one character.
pub assume_specification[ String::push ](s: &mut String, c: char)
    ensures
        final(s)@ == old(s)@.push(c),
;

/// The characters of a string, one by one.
pub fn chars_of(s: &str) -> (r: Vec<char>)
    ensures
        r@ == s@,
{
    let mut out: Vec<char> = Vec::new();
    for c in it: s.chars()
        invariant
            it.seq() == s@,
            out@ == s@.take(it.index() as int),
    {
        out.push(c);
    }
    assert(s@.take(s@.len() as int) =~= s@);
    out
}

/// Whether two strings hold the same characters.
pub fn str_eq(a: &str, b: &str) -> (r: bool)
    ensures
        r == (a@ == b@),
{
    let x = chars_of(a);
    let y = chars_of(b);
    if x.len() != y.len() {
        return false;
    }
    let mut i: usize = 0;
    while i < x.len()
        invariant
            x@ == a@,
            y@ == b@,
            x@.len() == y@.len(),
            i <= x@.len(),
            forall|k: int| 0 <= k < i ==> a@[k] == b@[k],
        decreases x.len() - i,
    {
        if x[i] != y[i] {
            return false;
        }
        i += 1;
    }
    assert(a@ =~= b@);
    true
}

/// The string of the characters `chars[from..to]`.
pub fn string_of(chars: &Vec<char>, from: usize, to: usize) -> (r: String)
    requires
        from <= to <= chars@.len(),
    ensures
        r@ == chars@.subrange(from as int, to as int),
{
    let mut out = String::new();
    let mut i: usize = from;
    while i < to
        invariant
            from <= i <= to <= chars@.len(),
            out@ == chars@.subrange(from as int, i as int),
        decreases to - i,
    {
        out.push(chars[i]);
        i += 1;
        assert(chars@.subrange(from as int, i as int) =~= chars@.subrange(
            from as int,
            i - 1,
        ).push(chars@[i - 1]));
    }
    out
}

pub fn trim_str(s: &str) -> (r: &str)
    ensures
        r@ == trim(s@),
{
    let chars = chars_of(s);
    let n: usize = chars.len();
    let mut from: usize = 0;
    assert(s@.skip(0) =~= s@);
    while from < n && is_whitespace(chars[from])
        invariant
            from <= n == chars@.len(),
            chars@ == s@,
            trim_start(s@) == trim_start(s@.skip(from as int)),
        decreases n - from,
    {
        from += 1;
        assert(s@.skip(from - 1).skip(1) =~= s@.skip(from as int));
    }
    let ghost kept = s@.skip(from as int);
    let mut to: usize = n;
    assert(kept.take(n - from) =~= kept);
    while to > from && is_whitespace(chars[to - 1])
        invariant
            from <= to <= n == chars@.len(),
            chars@ == s@,
            kept == s@.skip(from as int),
            trim_end(kept) == trim_end(kept.take(to - from)),
        decreases to,
    {
        to -= 1;
        assert(kept.take(to + 1 - from).last() == chars@[to as int]);
        assert(kept.take(to + 1 - from).drop_last() =~= kept.take(to - from));
    }
    assert(kept.take(to - from) =~= s@.subrange(from as int, to as int));
    s.substring_char(from, to)
}

pub fn trim_start_str(s: &str) -> (r: &str)
    ensures
        r@ == trim_start(s@),
{
    let chars = chars_of(s);
    let n: usize = chars.len();
    let mut from: usize = 0;
    assert(s@.skip(0) =~= s@);
    while from < n && is_whitespace(chars[from])
        invariant
            from <= n == chars@.len(),
            chars@ == s@,
            trim_start(s@) == trim_start(s@.skip(from as int)),
        decreases n - from,
    {
        from += 1;
        assert(s@.skip(from - 1).skip(1) =~= s@.skip(from as int));
    }
    assert(s@.skip(from as int) =~= s@.subrange(from as int, n as int));
    s.substring_char(from, n)
}

pub fn trim_end_str(s: &str) -> (r: &str)
    ensures
        r@ == trim_end(s@),
{
    let chars = chars_of(s);
    let n: usize = chars.len();
    let mut to: usize = n;
    assert(s@.take(n as int) =~= s@);
    while to > 0 && is_whitespace(chars[to - 1])
        invariant
            to <= n == chars@.len(),
            chars@ == s@,
            trim_end(s@) == trim_end(s@.take(to as int)),
        decreases to,
    {
        to -= 1;
        assert(s@.take(to + 1).last() == chars@[to as int]);
        assert(s@.take(to + 1).drop_last() =~= s@.take(to as int));
    }
    assert(s@.take(to as int) =~= s@.subrange(0, to as int));
    s.substring_char(0, to)
}

// ── Letter case ──────────────────────────────────────────────────────────────

/// What `str::to_uppercase` returns.
pub uninterp spec fn uppercase(s: Seq<char>) -> Seq<char>;

/// `str::to_uppercase`: the upper-case form by Unicode's tables, a function of
/// the string alone.
#[verifier::external_body]
pub(crate) fn to_uppercase(s: &str) -> (r: String)
    ensures
        r@ == uppercase(s@),
{
    s.to_uppercase()
}

/// What `str::to_lowercase` returns.
pub uninterp spec fn lowercase(s: Seq<char>) -> Seq<char>;

/// `str::to_lowercase`: the lower-case form by Unicode's tables, a function of
/// the string alone.
#[verifier::external_body]
pub(crate) fn to_lowercase(s: &str) -> (r: String)
    ensures
        r@ == lowercase(s@),
{
    s.to_lowercase()
}

// ── Prefixes and suffixes ────────────────────────────────────────────────────

pub open spec fn has_prefix(s: Seq<char>, p: Seq<char>) -> bool {
    p.len() <= s.len() && s.take(p.len() as int) == p
}

pub open spec fn has_suffix(s: Seq<char>, p: Seq<char>) -> bool {
    p.len() <= s.len() && s.skip(s.len() - p.len()) == p
}

/// What follows `p` in `s`, if `s` begins with it.
pub open spec fn after_prefix(s: Seq<char>, p: Seq<char>) -> Option<Seq<char>> {
    if has_prefix(s, p) {
        Some(s.skip(p.len() as int))
    } else {
        None
    }
}

/// What precedes `p` in `s`, if `s` ends with it.
pub open spec fn before_suffix(s: Seq<char>, p: Seq<char>) -> Option<Seq<char>> {
    if has_suffix(s, p) {
        Some(s.take(s.len() - p.len()))
    } else {
        None
    }
}

/// The view of an optional string.
pub open spec fn opt_view(o: Option<&str>) -> Option<Seq<char>> {
    match o {
        Some(s) => Some(s@),
        None => None,
    }
}

pub fn strip_prefix<'a>(s: &'a str, p: &str) -> (r: Option<&'a str>)
    ensures
        opt_view(r) == after_prefix(s@, p@),
{
    let n: usize = s.unicode_len();
    let k: usize = p.unicode_len();
    if k <= n {
        let head = s.substring_char(0, k);
        assert(head@ =~= s@.take(k as int));
        if str_eq(head, p) {
            let tail = s.substring_char(k, n);
            assert(tail@ =~= s@.skip(k as int));
            return Some(tail);
        }
    }
    None
}

pub fn strip_suffix<'a>(s: &'a str, p: &str) -> (r: Option<&'a str>)
    ensures
        opt_view(r) == before_suffix(s@, p@),
{
    let n: usize = s.unicode_len();
    let k: usize = p.unicode_len();
    if k <= n {
        let tail = s.substring_char(n - k, n);
        assert(tail@ =~= s@.skip(n - k));
        if str_eq(tail, p) {
            let head = s.substring_char(0, n - k);
            assert(head@ =~= s@.take(n - k));
            return Some(head);
        }
    }
    None
}

pub fn starts_with(s: &str, p: &str) -> (r: bool)
    ensures
        r == has_prefix(s@, p@),
{
    match strip_prefix(s, p) {
        Some(_) => true,
        None => false,
    }
}

/// `p` put in front of anything is found there and taken off again.
pub proof fn lemma_prefix_of_concat(p: Seq<char>, s: Seq<char>)
    ensures
        has_prefix(p + s, p),
        after_prefix(p + s, p) == Some(s),
{
    assert((p + s).take(p.len() as int) =~= p);
    assert((p + s).skip(p.len() as int) =~= s);
}

/// `p` put behind anything is found there and taken off again.
pub proof fn lemma_suffix_of_concat(s: Seq<char>, p: Seq<char>)
    ensures
        has_suffix(s + p, p),
        before_suffix(s + p, p) == Some(s),
{
    assert((s + p).skip((s + p).len() - p.len()) =~= p);
    assert((s + p).take((s + p).len() - p.len()) =~= s);
}

/// `p` stands somewhere in `s`.
pub open spec fn has_part(s: Seq<char>, p: Seq<char>) -> bool {
    exists|i: int| 0 <= i <= s.len() - p.len() && #[trigger] s.skip(i).take(p.len() as int) == p
}

/// Whether a string stands somewhere in another.
pub fn contains_str(s: &str, p: &str) -> (r: bool)
    ensures
        r == has_part(s@, p@),
{
    let a = chars_of(s);
    let b = chars_of(p);
    let n: usize = a.len();
    let k: usize = b.len();
    if k > n {
        return false;
    }
    let mut i: usize = 0;
    while i <= n - k
        invariant
            a@ == s@,
            b@ == p@,
            n == a@.len(),
            k == b@.len(),
            k <= n,
            i <= n - k + 1,
            forall|j: int| 0 <= j < i ==> #[trigger] s@.skip(j).take(k as int) != p@,
        decreases n - k + 1 - i,
    {
        let mut j: usize = 0;
        while j < k && a[i + j] == b[j]
            invariant
                a@ == s@,
                b@ == p@,
                n == a@.len(),
                k == b@.len(),
                i <= n - k,
                k <= n,
                j <= k,
                forall|m: int| 0 <= m < j ==> #[trigger] b@[m] == a@[i + m],
            decreases k - j,
        {
            j += 1;
        }
        if j == k {
            assert(s@.skip(i as int).take(k as int) =~= p@);
            return true;
        }
        assert(s@.skip(i as int).take(k as int)[j as int] != p@[j as int]);
        if i == n - k {
            assert(!has_part(s@, p@));
            return false;
        }
        i += 1;
    }
    false
}

// ── Lines ────────────────────────────────────────────────────────────────────

/// The number of characters before the first newline of `s`, or all of them.
pub open spec fn line_end(s: Seq<char>) -> nat
    decreases s.len(),
{
    if s.len() == 0 || s[0] == '\n' {
        0
    } else {
        1 + line_end(s.skip(1))
    }
}

/// `s` without one trailing carriage return.
pub open spec fn strip_cr(s: Seq<char>) -> Seq<char> {
    if s.len() > 0 && s.last() == '\r' {
        s.drop_last()
    } else {
        s
    }
}

/// The lines of `s`: each ends at a newline (with or without a carriage
/// return before it) or at the end of `s`; a final newline opens no line.
pub open spec fn lines(s: Seq<char>) -> Seq<Seq<char>>
    decreases s.len(),
    via lines_decreases
{
    if s.len() == 0 {
        seq![]
    } else if line_end(s) >= s.len() {
        seq![s]
    } else {
        seq![strip_cr(s.take(line_end(s) as int))] + lines(s.skip(line_end(s) as int + 1))
    }
}

#[via_fn]
proof fn lines_decreases(s: Seq<char>) {
}

/// The pieces of `s` between its newlines; there is always at least one.
pub open spec fn split_lines(s: Seq<char>) -> Seq<Seq<char>>
    decreases s.len(),
    via split_lines_decreases
{
    if line_end(s) >= s.len() {
        seq![s]
    } else {
        seq![s.take(line_end(s) as int)] + split_lines(s.skip(line_end(s) as int + 1))
    }
}

#[via_fn]
proof fn split_lines_decreases(s: Seq<char>) {
}

/// The parts one after the other with `sep` between neighbours.
pub open spec fn join(parts: Seq<Seq<char>>, sep: Seq<char>) -> Seq<char>
    decreases parts.len(),
{
    if parts.len() == 0 {
        seq![]
    } else if parts.len() == 1 {
        parts[0]
    } else {
        join(parts.drop_last(), sep) + sep + parts.last()
    }
}

/// The views of a list of strings.
pub open spec fn views(v: Seq<String>) -> Seq<Seq<char>> {
    v.map_values(|s: String| s@)
}

/// A copy of a list of strings.
pub fn clone_strings(v: &Vec<String>) -> (r: Vec<String>)
    ensures
        views(r@) == views(v@),
{
    let mut out: Vec<String> = Vec::new();
    let mut i: usize = 0;
    while i < v.len()
        invariant
            i <= v@.len(),
            out@.len() == i,
            forall|k: int| 0 <= k < i ==> (#[trigger] out@[k])@ == v@[k]@,
        decreases v.len() - i,
    {
        out.push(v[i].clone());
        i += 1;
    }
    assert(views(out@) =~= views(v@));
    out
}

pub proof fn lemma_line_end(s: Seq<char>)
    ensures
        line_end(s) <= s.len(),
        line_end(s) < s.len() ==> s[line_end(s) as int] == '\n',
        forall|i: int| 0 <= i < line_end(s) ==> #[trigger] s[i] != '\n',
    decreases s.len(),
{
    if s.len() > 0 && s[0] != '\n' {
        lemma_line_end(s.skip(1));
        assert forall|i: int| 0 <= i < line_end(s) implies #[trigger] s[i] != '\n' by {
            if i > 0 {
                assert(s.skip(1)[i - 1] == s[i]);
            }
        }
    }
}

/// The first newline is where no earlier character is one.
pub proof fn lemma_line_end_is(s: Seq<char>, e: int)
    requires
        0 <= e <= s.len(),
        e < s.len() ==> s[e] == '\n',
        forall|i: int| 0 <= i < e ==> #[trigger] s[i] != '\n',
    ensures
        line_end(s) == e,
{
    lemma_line_end(s);
    if line_end(s) < e {
        assert(s[line_end(s) as int] != '\n');
    }
    if e < line_end(s) {
        assert(s[e] != '\n');
    }
}

/// The lines of `s`, a newline and `rest` are the pieces of `s`, without the
/// carriage returns at their ends, followed by the lines of `rest`.
pub proof fn lemma_lines_of_concat(s: Seq<char>, rest: Seq<char>)
    ensures
        lines(s + seq!['\n'] + rest) == split_lines(s).map_values(|l: Seq<char>| strip_cr(l))
            + lines(rest),
    decreases s.len(),
{
    let t = s + seq!['\n'] + rest;
    let f = |l: Seq<char>| strip_cr(l);
    lemma_line_end(s);
    let e = line_end(s) as int;
    assert(t[s.len() as int] == '\n');
    assert forall|i: int| 0 <= i < e implies #[trigger] t[i] != '\n' by {
        assert(t[i] == s[i]);
    }
    assert(t[e] == '\n');
    lemma_line_end_is(t, e);
    assert(t.take(e) =~= s.take(e));
    if e >= s.len() {
        assert(s.take(e) =~= s);
        assert(t.skip(e + 1) =~= rest);
        assert(split_lines(s).map_values(f) =~= seq![strip_cr(s)]);
    } else {
        assert(t.skip(e + 1) =~= s.skip(e + 1) + seq!['\n'] + rest);
        lemma_lines_of_concat(s.skip(e + 1), rest);
        assert(split_lines(s).map_values(f) =~= seq![strip_cr(s.take(e))] + split_lines(
            s.skip(e + 1),
        ).map_values(f));
        assert(lines(t) =~= split_lines(s).map_values(f) + lines(rest));
    }
}

/// `join` unrolled at its front.
pub proof fn lemma_join_front(a: Seq<char>, parts: Seq<Seq<char>>, sep: Seq<char>)
    requires
        parts.len() > 0,
    ensures
        join(seq![a] + parts, sep) == a + sep + join(parts, sep),
    decreases parts.len(),
{
    let all = seq![a] + parts;
    if parts.len() == 1 {
        assert(all.drop_last() =~= seq![a]);
        assert(join(seq![a], sep) == a);
        assert(all.last() == parts[0]);
    } else {
        lemma_join_front(a, parts.drop_last(), sep);
        assert(all.drop_last() =~= seq![a] + parts.drop_last());
        assert(join(all, sep) =~= a + sep + join(parts, sep));
    }
}

/// Joining the pieces of a string gives the string back.
pub proof fn lemma_join_split(s: Seq<char>)
    ensures
        split_lines(s).len() > 0,
        join(split_lines(s), seq!['\n']) == s,
    decreases s.len(),
{
    lemma_line_end(s);
    let e = line_end(s) as int;
    if e < s.len() {
        lemma_join_split(s.skip(e + 1));
        lemma_join_front(s.take(e), split_lines(s.skip(e + 1)), seq!['\n']);
        assert(s.take(e) + seq!['\n'] + s.skip(e + 1) =~= s);
    }
}

/// A string without newlines is its only piece.
pub proof fn lemma_split_single(s: Seq<char>)
    requires
        !s.contains('\n'),
    ensures
        split_lines(s) == seq![s],
{
    lemma_line_end(s);
    if line_end(s) < s.len() {
        assert(s.contains(s[line_end(s) as int]));
    }
}

/// Splits a string into its lines.
pub fn lines_of(s: &str) -> (r: Vec<String>)
    ensures
        views(r@) == lines(s@),
{
    let chars = chars_of(s);
    let n: usize = chars.len();
    let mut out: Vec<String> = Vec::new();
    let mut start: usize = 0;
    assert(s@.skip(0) =~= s@);
    while start < n
        invariant
            start <= n == chars@.len(),
            chars@ == s@,
            views(out@) + lines(s@.skip(start as int)) == lines(s@),
        decreases n - start,
    {
        let ghost rest = s@.skip(start as int);
        let mut e: usize = start;
        while e < n && chars[e] != '\n'
            invariant
                start <= e <= n == chars@.len(),
                chars@ == s@,
                forall|i: int| start <= i < e ==> #[trigger] chars@[i] != '\n',
            decreases n - e,
        {
            e += 1;
        }
        proof {
            assert forall|i: int| 0 <= i < e - start implies #[trigger] rest[i] != '\n' by {
                assert(rest[i] == chars@[start + i]);
            }
            lemma_line_end_is(rest, e - start);
        }
        let ghost before = out@;
        if e < n {
            let stop: usize = if e > start && chars[e - 1] == '\r' {
                e - 1
            } else {
                e
            };
            out.push(string_of(&chars, start, stop));
            proof {
                assert(rest.take(e - start) =~= chars@.subrange(start as int, e as int));
                assert(out@.last()@ =~= strip_cr(rest.take(e - start)));
                assert(rest.skip(e - start + 1) =~= s@.skip(e + 1));
            }
            start = e + 1;
        } else {
            out.push(string_of(&chars, start, n));
            proof {
                assert(out@.last()@ =~= rest);
                assert(s@.skip(n as int) =~= Seq::<char>::empty());
            }
            start = n;
        }
        proof {
            assert(views(out@) =~= views(before).push(out@.last()@));
            assert(views(out@) + lines(s@.skip(start as int)) =~= lines(s@));
        }
    }
    assert(s@.skip(n as int) =~= Seq::<char>::empty());
    assert(views(out@) + lines(s@.skip(n as int)) =~= views(out@));
    out
}

// ── Numbers ──────────────────────────────────────────────────────────────────

/// The character of a decimal digit.
pub open spec fn digit(d: nat) -> char {
    ('0' as u32 + d) as char
}

/// A number written in decimal.
pub open spec fn decimal(n: nat) -> Seq<char>
    decreases n,
{
    if n < 10 {
        seq![digit(n)]
    } else {
        decimal(n / 10).push(digit(n % 10))
    }
}

/// Appends a number in decimal.
pub fn push_decimal(out: &mut String, n: u64)
    ensures
        final(out)@ == old(out)@ + decimal(n as nat),
    decreases n,
{
    if n >= 10 {
        push_decimal(out, n / 10);
    }
    let d: u8 = (n % 10) as u8;
    let c: char = (48u8 + d) as char;
    out.push(c);
    proof {
        assert(c == digit((n % 10) as nat));
        if n < 10 {
            assert(out@ =~= old(out)@ + decimal(n as nat));
        } else {
            assert(out@ =~= old(out)@ + decimal((n / 10) as nat).push(c));
        }
    }
}

// ── Byte offsets ─────────────────────────────────────────────────────────────

/// The number of bytes of a character in UTF-8.
pub open spec fn utf8_width(c: char) -> nat {
    if (c as u32) < 0x80 {
        1
    } else if (c as u32) < 0x800 {
        2
    } else if (c as u32) < 0x10000 {
        3
    } else {
        4
    }
}

/// The number of bytes of a string in UTF-8.
pub open spec fn byte_len(s: Seq<char>) -> nat
    decreases s.len(),
{
    if s.len() == 0 {
        0
    } else {
        byte_len(s.drop_last()) + utf8_width(s.last())
    }
}

pub proof fn lemma_byte_len_concat(a: Seq<char>, b: Seq<char>)
    ensures
        byte_len(a + b) == byte_len(a) + byte_len(b),
    decreases b.len(),
{
    if b.len() == 0 {
        assert(a + b =~= a);
    } else {
        lemma_byte_len_concat(a, b.drop_last());
        assert((a + b).drop_last() =~= a + b.drop_last());
    }
}

/// A string has at least as many bytes as characters.
pub proof fn lemma_byte_len_at_least(s: Seq<char>)
    ensures
        s.len() <= byte_len(s),
    decreases s.len(),
{
    if s.len() > 0 {
        lemma_byte_len_at_least(s.drop_last());
    }
}

/// `byte_len` counts the bytes of the encoding.
pub proof fn lemma_byte_len_encoded(s: Seq<char>)
    ensures
        encode_utf8(s).len() == byte_len(s),
    decreases s.len(),
{
    if s.len() > 0 {
        lemma_byte_len_encoded(s.drop_first());
        vstd::utf8::char_is_scalar(s[0]);
        assert(encode_scalar(s[0] as u32).len() == utf8_width(s[0]));
        lemma_byte_len_concat(seq![s[0]], s.drop_first());
        assert(seq![s[0]] + s.drop_first() =~= s);
        reveal_with_fuel(byte_len, 2);
        assert(seq![s[0]].drop_last() =~= seq![]);
        assert(byte_len(seq![s[0]]) == utf8_width(s[0]));
    }
}

/// The length of a string in bytes.
pub fn byte_length(s: &str) -> (r: usize)
    ensures
        r == byte_len(s@),
{
    proof {
        lemma_byte_len_encoded(s@);
    }
    s.as_bytes().len()
}

/// The length of a character in bytes.
pub fn utf8_size(c: char) -> (r: usize)
    ensures
        r == utf8_width(c),
{
    let u: u32 = c as u32;
    if u < 0x80 {
        1
    } else if u < 0x800 {
        2
    } else if u < 0x10000 {
        3
    } else {
        4
    }
}

/// The first `n` characters of `s`, or all of them.
pub open spec fn first_chars(s: Seq<char>, n: nat) -> Seq<char> {
    if s.len() <= n {
        s
    } else {
        s.take(n as int)
    }
}

/// The first `n` characters of a string.
pub fn take_chars(s: &str, n: usize) -> (r: &str)
    ensures
        r@ == first_chars(s@, n as nat),
{
    let len: usize = s.unicode_len();
    let k: usize = if len <= n {
        len
    } else {
        n
    };
    let r = s.substring_char(0, k);
    assert(r@ =~= first_chars(s@, n as nat));
    r
}

/// Whether a character occurs in a string.
pub fn contains_char(s: &str, c: char) -> (r: bool)
    ensures
        r == s@.contains(c),
{
    let chars = chars_of(s);
    let mut i: usize = 0;
    while i < chars.len()
        invariant
            i <= chars@.len(),
            chars@ == s@,
            forall|k: int| 0 <= k < i ==> #[trigger] chars@[k] != c,
        decreases chars.len() - i,
    {
        if chars[i] == c {
            assert(s@[i as int] == c);
            return true;
        }
        i += 1;
    }
    false
}

/// The first line of `s`, empty where there is none.
pub open spec fn first_line(s: Seq<char>) -> Seq<char> {
    if lines(s).len() > 0 {
        lines(s)[0]
    } else {
        seq![]
    }
}

/// The first line of a string.
pub fn first_line_of(s: &str) -> (r: String)
    ensures
        r@ == first_line(s@),
{
    let all = lines_of(s);
    assert(views(all@).len() == all@.len());
    if all.len() > 0 {
        assert(views(all@)[0] == all@[0]@);
        all[0].clone()
    } else {
        String::new()
    }
}

/// The parts of `s` between the occurrences of `c`; there is always one.
pub open spec fn split_on(s: Seq<char>, c: char) -> Seq<Seq<char>>
    decreases s.len(),
{
    if s.len() == 0 {
        seq![seq![]]
    } else {
        let init = split_on(s.drop_last(), c);
        if s.last() == c {
            init.push(seq![])
        } else {
            init.drop_last().push(init.last().push(s.last()))
        }
    }
}

pub proof fn lemma_split_on_len(s: Seq<char>, c: char)
    ensures
        split_on(s, c).len() > 0,
    decreases s.len(),
{
    if s.len() > 0 {
        lemma_split_on_len(s.drop_last(), c);
    }
}

/// Splits a string at a character.
pub fn split_str(s: &str, c: char) -> (r: Vec<String>)
    ensures
        views(r@) == split_on(s@, c),
{
    let chars = chars_of(s);
    let mut out: Vec<String> = Vec::new();
    let mut current = String::new();
    let mut i: usize = 0;
    assert(s@.take(0) =~= seq![]);
    assert(views(out@).push(current@) =~= split_on(s@.take(0), c));
    while i < chars.len()
        invariant
            chars@ == s@,
            i <= chars@.len(),
            views(out@).push(current@) == split_on(s@.take(i as int), c),
        decreases chars.len() - i,
    {
        let ch = chars[i];
        let ghost before = views(out@);
        let ghost part = current@;
        proof {
            assert(s@.take(i + 1).drop_last() =~= s@.take(i as int));
            assert(s@.take(i + 1).last() == ch);
            assert(before.push(part).drop_last() =~= before);
        }
        if ch == c {
            out.push(current);
            current = String::new();
            assert(current@ =~= seq![]);
            assert(views(out@) =~= before.push(part));
        } else {
            current.push(ch);
        }
        i += 1;
    }
    assert(s@.take(chars@.len() as int) =~= s@);
    let ghost before = views(out@);
    let ghost part = current@;
    out.push(current);
    assert(views(out@) =~= before.push(part));
    out
}

/// Joins strings with a separator between neighbours.
pub fn join_strings(parts: &Vec<String>, sep: &str) -> (r: String)
    ensures
        r@ == join(views(parts@), sep@),
{
    let ghost all = views(parts@);
    let mut out = String::new();
    let mut i: usize = 0;
    assert(all.take(0) =~= seq![]);
    while i < parts.len()
        invariant
            all == views(parts@),
            i <= parts@.len(),
            out@ == join(all.take(i as int), sep@),
        decreases parts.len() - i,
    {
        if i > 0 {
            out.append(sep);
        }
        out.append(parts[i].as_str());
        i += 1;
        proof {
            let part = all.take(i as int);
            assert(part.drop_last() =~= all.take(i - 1));
            assert(part.last() == parts@[i - 1]@);
            if i == 1 {
                assert(out@ =~= part[0]);
            }
        }
    }
    assert(all.take(parts@.len() as int) =~= all);
    out
}

/// Different numbers are written differently.
pub proof fn lemma_decimal_injective(a: nat, b: nat)
    ensures
        decimal(a) == decimal(b) ==> a == b,
        decimal(a).len() > 0,
    decreases a,
{
    if a >= 10 && b >= 10 {
        lemma_decimal_injective(a / 10, b / 10);
        if decimal(a) == decimal(b) {
            let x = decimal(a / 10);
            let y = decimal(b / 10);
            assert(x.push(digit(a % 10)).drop_last() =~= x);
            assert(y.push(digit(b % 10)).drop_last() =~= y);
            assert(x.push(digit(a % 10)).last() == y.push(digit(b % 10)).last());
            assert(digit(a % 10) as int == 48 + a % 10);
            assert(digit(b % 10) as int == 48 + b % 10);
            assert(a == 10 * (a / 10) + a % 10);
            assert(b == 10 * (b / 10) + b % 10);
        }
    } else if a >= 10 || b >= 10 {
        let (big, small) = if a >= 10 {
            (a, b)
        } else {
            (b, a)
        };
        lemma_decimal_len(big / 10);
        assert(decimal(big) == decimal(big / 10).push(digit(big % 10)));
        assert(decimal(big).len() >= 2);
        assert(decimal(small).len() == 1);
    } else if decimal(a) == decimal(b) {
        assert(decimal(a)[0] == decimal(b)[0]);
        assert(digit(a) as int == 48 + a);
        assert(digit(b) as int == 48 + b);
    }
}

proof fn lemma_decimal_len(a: nat)
    ensures
        decimal(a).len() > 0,
    decreases a,
{
}

// ── Maps of texts ────────────────────────────────────────────────────────────

/// The texts of a map.
pub open spec fn text_map(m: Map<Seq<char>, String>) -> Map<Seq<char>, Seq<char>> {
    m.map_values(|s: String| s@)
}

/// Puts a text into a map.
pub fn put_text(map: &mut StringHashMap<String>, key: &str, value: &str)
    ensures
        text_map(final(map)@) == text_map(old(map)@).insert(key@, value@),
{
    let v = value.to_owned();
    map.insert(key.to_owned(), v);
    assert(text_map(map@) =~= text_map(old(map)@).insert(key@, value@));
}

} // verus!
