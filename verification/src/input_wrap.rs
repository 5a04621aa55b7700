//! Wrapping of the input text into visual lines, and where the cursor stands
//! among them.

use vstd::prelude::*;

use crate::text::{
    byte_len, byte_length, chars_of, lemma_byte_len_at_least, utf8_size, utf8_width, views,
};

verus! {

// ── Display width ────────────────────────────────────────────────────────────

/// What `UnicodeWidthChar::width` returns for a character.
pub uninterp spec fn display_width(c: char) -> Option<usize>;

/// `unicode_width::UnicodeWidthChar::width`: the columns that a character takes
/// up, `None` for control characters; a function of the character alone. No
/// character is wider than its UTF-8 form is long: ASCII characters take one
/// column, those of two bytes at most two, and all others at most three.
#[verifier::external_body]
pub(crate) fn char_display_width(c: char) -> (r: Option<usize>)
    ensures
        r == display_width(c),
        r matches Some(w) ==> w <= utf8_width(c),
{
    unicode_width::UnicodeWidthChar::width(c)
}

/// The columns of a character in the input: control characters take one.
pub open spec fn char_cols(c: char) -> nat {
    match display_width(c) {
        Some(w) => w as nat,
        None => 1,
    }
}

/// The columns of a text.
pub open spec fn cols(s: Seq<char>) -> nat
    decreases s.len(),
{
    if s.len() == 0 {
        0
    } else {
        cols(s.drop_last()) + char_cols(s.last())
    }
}

/// The columns of a character.
pub fn columns_of(c: char) -> (r: usize)
    ensures
        r == char_cols(c),
        r <= utf8_width(c),
{
    match char_display_width(c) {
        Some(w) => w,
        None => 1,
    }
}

// ── The grid ─────────────────────────────────────────────────────────────────

/// Text laid out in visual lines: the finished lines, the byte offsets at which
/// they start, and the line that is being filled.
pub struct Grid {
    pub lines: Seq<Seq<char>>,
    pub starts: Seq<nat>,
    pub last: Seq<char>,
    pub start: nat,
}

impl Grid {
    /// The grid without text.
    pub open spec fn empty() -> Grid {
        Grid { lines: seq![], starts: seq![], last: seq![], start: 0 }
    }

    /// The next character does not fit on the line any more.
    pub open spec fn overflows(self, c: char, width: nat) -> bool {
        width > 0 && c != '\n' && char_cols(c) > 0 && cols(self.last) + char_cols(c) > width
    }

    /// The line is finished, and the next starts at a byte offset.
    pub open spec fn broken(self, at: nat) -> Grid {
        Grid {
            lines: self.lines.push(self.last),
            starts: self.starts.push(self.start),
            last: seq![],
            start: at,
        }
    }

    /// The grid just before a character at byte offset `at` is put down.
    pub open spec fn before(self, c: char, width: nat, at: nat) -> Grid {
        if self.overflows(c, width) {
            self.broken(at)
        } else {
            self
        }
    }

    /// The grid with a character put down.
    pub open spec fn put(self, c: char, width: nat, at: nat) -> Grid {
        let g = self.before(c, width, at);
        if c == '\n' {
            g.broken(at + 1)
        } else {
            Grid { last: g.last.push(c), ..g }
        }
    }

    /// All lines.
    pub open spec fn all_lines(self) -> Seq<Seq<char>> {
        self.lines.push(self.last)
    }

    /// The byte offsets at which the lines start.
    pub open spec fn all_starts(self) -> Seq<nat> {
        self.starts.push(self.start)
    }
}

/// The grid of a text: lines end at newlines and where the next character would
/// go past `width` columns; a width of zero is no limit.
pub open spec fn grid(s: Seq<char>, width: nat) -> Grid
    decreases s.len(),
{
    if s.len() == 0 {
        Grid::empty()
    } else {
        grid(s.drop_last(), width).put(s.last(), width, byte_len(s.drop_last()))
    }
}

/// The index of the character at a byte offset, or the length at the end;
/// `None` inside a character.
pub open spec fn index_at(s: Seq<char>, byte: nat) -> Option<nat>
    decreases s.len(),
{
    if byte == byte_len(s) {
        Some(s.len())
    } else if s.len() == 0 {
        None
    } else {
        index_at(s.drop_last(), byte)
    }
}

/// The row and column of a cursor before character `k`. At the end of a line
/// that is exactly full it stands at the start of the next.
pub open spec fn cursor_before(s: Seq<char>, width: nat, k: nat) -> (nat, nat) {
    if k < s.len() {
        let g = grid(s.take(k as int), width).before(
            s[k as int],
            width,
            byte_len(s.take(k as int)),
        );
        (g.lines.len(), cols(g.last))
    } else {
        let g = grid(s, width);
        if width > 0 && cols(g.last) >= width {
            (g.lines.len() + 1, 0)
        } else {
            (g.lines.len(), cols(g.last))
        }
    }
}

/// The row and column of a cursor at a byte offset, which is taken to be at the
/// end where it is past it. Inside a character it is at the origin.
pub open spec fn cursor_at(s: Seq<char>, width: nat, byte: nat) -> (nat, nat) {
    let b = if byte <= byte_len(s) {
        byte
    } else {
        byte_len(s)
    };
    match index_at(s, b) {
        Some(k) => cursor_before(s, width, k),
        None => (0, 0),
    }
}

/// The lines of a text, with an empty one behind them where the cursor needs
/// it.
pub open spec fn wrapped_lines(s: Seq<char>, width: nat, byte: nat) -> Seq<Seq<char>> {
    let all = grid(s, width).all_lines();
    if cursor_at(s, width, byte).0 >= all.len() {
        all.push(seq![])
    } else {
        all
    }
}

/// Text in visual lines, with a cursor.
#[derive(Debug, PartialEq, Eq)]
pub struct WrapState {
    /// The visual lines; there is always one.
    pub lines: Vec<String>,
    /// The line that the cursor is on.
    pub cursor_row: usize,
    /// The column at which the cursor stands.
    pub cursor_col: usize,
}

// ── Byte offsets and indices ─────────────────────────────────────────────────

pub proof fn lemma_byte_len_take(s: Seq<char>, i: int, j: int)
    requires
        0 <= i <= j <= s.len(),
    ensures
        byte_len(s.take(i)) <= byte_len(s.take(j)),
        i < j ==> byte_len(s.take(i)) < byte_len(s.take(j)),
    decreases j - i,
{
    if i < j {
        lemma_byte_len_take(s, i, j - 1);
        assert(s.take(j).drop_last() =~= s.take(j - 1));
    }
}

/// A byte offset names the character that starts there.
pub proof fn lemma_index_at(s: Seq<char>, k: int)
    requires
        0 <= k <= s.len(),
    ensures
        index_at(s, byte_len(s.take(k))) == Some(k as nat),
    decreases s.len(),
{
    if k == s.len() {
        assert(s.take(k) =~= s);
    } else {
        lemma_byte_len_take(s, k, s.len() as int);
        assert(s.take(s.len() as int) =~= s);
        assert(s.drop_last().take(k) =~= s.take(k));
        lemma_index_at(s.drop_last(), k);
    }
}

/// An offset that names a character is where that character starts.
pub proof fn lemma_index_at_some(s: Seq<char>, byte: nat)
    ensures
        index_at(s, byte) matches Some(k) ==> k <= s.len() && byte_len(s.take(k as int)) == byte,
    decreases s.len(),
{
    if byte == byte_len(s) {
        assert(s.take(s.len() as int) =~= s);
    } else if s.len() > 0 {
        lemma_index_at_some(s.drop_last(), byte);
        if let Some(k) = index_at(s, byte) {
            assert(s.drop_last().take(k as int) =~= s.take(k as int));
        }
    }
}

proof fn lemma_grid_step(s: Seq<char>, width: nat, i: int)
    requires
        0 <= i < s.len(),
    ensures
        grid(s.take(i + 1), width) == grid(s.take(i), width).put(s[i], width, byte_len(s.take(i))),
        byte_len(s.take(i + 1)) == byte_len(s.take(i)) + utf8_width(s[i]),
{
    assert(s.take(i + 1).drop_last() =~= s.take(i));
    assert(s.take(i + 1).last() == s[i]);
}

proof fn lemma_cols_push(s: Seq<char>, c: char)
    ensures
        cols(s.push(c)) == cols(s) + char_cols(c),
        cols(seq![]) == 0,
{
    assert(s.push(c).drop_last() =~= s);
}

// ── Wrapping ─────────────────────────────────────────────────────────────────

/// Wraps `content` into visual lines of at most `width` columns and finds where
/// the byte offset `cursor_byte` falls among them.
pub fn wrap_content(content: &str, width: usize, cursor_byte: usize) -> (r: WrapState)
    ensures
        views(r.lines@) == wrapped_lines(content@, width as nat, cursor_byte as nat),
        (r.cursor_row as nat, r.cursor_col as nat) == cursor_at(
            content@,
            width as nat,
            cursor_byte as nat,
        ),
        r.cursor_row < r.lines@.len(),
{
    let total: usize = byte_length(content);
    let target: usize = if cursor_byte <= total {
        cursor_byte
    } else {
        total
    };
    let chars = chars_of(content);
    let ghost s = content@;
    let ghost w = width as nat;
    let mut lines: Vec<String> = Vec::new();
    let mut cur = String::new();
    let mut col: usize = 0;
    let mut at: usize = 0;
    let mut row_at: usize = 0;
    let mut col_at: usize = 0;
    let mut placed = false;
    let mut i: usize = 0;
    proof {
        assert(s.take(0) =~= seq![]);
        assert(views(lines@) =~= seq![]);
        assert(cur@ =~= seq![]);
        lemma_byte_len_at_least(s);
    }
    while i < chars.len()
        invariant
            chars@ == s,
            s == content@,
            w == width,
            total == byte_len(s),
            target <= total,
            i <= chars@.len() <= total,
            at == byte_len(s.take(i as int)),
            at <= total,
            views(lines@) == grid(s.take(i as int), w).lines,
            cur@ == grid(s.take(i as int), w).last,
            col == cols(cur@),
            col <= at,
            lines@.len() <= at,
            col > 0 ==> lines@.len() + 1 <= at,
            placed <==> index_at(s, target as nat) is Some && index_at(s, target as nat).unwrap()
                < i,
            placed ==> (row_at as nat, col_at as nat) == cursor_before(
                s,
                w,
                index_at(s, target as nat).unwrap(),
            ),
            placed ==> row_at <= lines@.len(),
            !placed ==> row_at == 0 && col_at == 0,
        decreases chars.len() - i,
    {
        let ch = chars[i];
        let ghost g = grid(s.take(i as int), w);
        let ghost k = i as int;
        proof {
            lemma_grid_step(s, w, k);
            lemma_byte_len_take(s, k + 1, s.len() as int);
            assert(s.take(s.len() as int) =~= s);
            lemma_index_at(s, k);
            lemma_index_at_some(s, target as nat);
        }
        let size: usize = utf8_size(ch);
        let ch_cols: usize = if ch == '\n' {
            0
        } else {
            columns_of(ch)
        };
        if width > 0 && ch != '\n' && ch_cols > 0 && col + ch_cols > width {
            let ghost before = views(lines@);
            let ghost part = cur@;
            lines.push(cur);
            cur = String::new();
            col = 0;
            assert(views(lines@) =~= before.push(part));
            assert(cur@ =~= seq![]);
        }
        assert(views(lines@) == g.before(ch, w, at as nat).lines);
        assert(views(lines@).len() == lines@.len());
        if !placed && at == target {
            placed = true;
            row_at = lines.len();
            col_at = col;
        }
        if ch == '\n' {
            let ghost before = views(lines@);
            let ghost part = cur@;
            lines.push(cur);
            cur = String::new();
            col = 0;
            assert(views(lines@) =~= before.push(part));
            assert(cur@ =~= seq![]);
        } else {
            let ghost part = cur@;
            cur.push(ch);
            col += ch_cols;
            proof {
                lemma_cols_push(part, ch);
            }
        }
        at += size;
        i += 1;
    }
    assert(s.take(chars@.len() as int) =~= s);
    assert(views(lines@).len() == lines@.len());
    proof {
        lemma_index_at_some(s, target as nat);
        lemma_index_at(s, s.len() as int);
    }
    if !placed && at == target {
        row_at = lines.len();
        col_at = col;
        if width > 0 && col >= width {
            row_at = lines.len() + 1;
            col_at = 0;
        }
    }
    let ghost before = views(lines@);
    let ghost part = cur@;
    lines.push(cur);
    assert(views(lines@) =~= before.push(part));
    assert(views(lines@) == grid(s, w).all_lines());
    if row_at >= lines.len() {
        lines.push(String::new());
        assert(views(lines@) =~= before.push(part).push(seq![]));
    }
    WrapState { lines, cursor_row: row_at, cursor_col: col_at }
}

// ── From a position to a byte offset ─────────────────────────────────────────

/// How many characters of a line are passed until `target` columns are reached.
pub open spec fn chars_until(line: Seq<char>, target: int) -> nat
    decreases line.len(),
{
    if line.len() == 0 || target <= 0 {
        0
    } else {
        1 + chars_until(line.skip(1), target - char_cols(line[0]))
    }
}

/// The byte offset at a row and column: the last row where the row is past it,
/// the end of the line where the column is.
pub open spec fn offset_at(s: Seq<char>, width: nat, row: nat, col: nat) -> nat {
    let g = grid(s, width);
    let r = if row < g.all_lines().len() {
        row as int
    } else {
        g.all_lines().len() - 1
    };
    let line = g.all_lines()[r];
    g.all_starts()[r] + byte_len(line.take(chars_until(line, col as int) as int))
}

/// Where a grid's lines start, they end where the next one starts or with a
/// newline before that, and all of it lies within the text.
spec fn starts_fit(g: Grid, total: nat) -> bool {
    &&& g.lines.len() == g.starts.len()
    &&& g.start + byte_len(g.last) == total
    &&& forall|i: int|
        0 <= i < g.lines.len() ==> #[trigger] g.starts[i] + byte_len(g.lines[i]) <= total
}

proof fn lemma_starts_fit(s: Seq<char>, width: nat)
    ensures
        starts_fit(grid(s, width), byte_len(s)),
    decreases s.len(),
{
    if s.len() > 0 {
        let init = s.drop_last();
        lemma_starts_fit(init, width);
        let g = grid(init, width);
        let at = byte_len(init);
        let c = s.last();
        let b = g.before(c, width, at);
        assert(starts_fit(b, at));
        let n = g.put(c, width, at);
        if c != '\n' {
            assert(n.last.drop_last() =~= b.last);
        }
        assert(starts_fit(n, byte_len(s)));
    }
}

pub proof fn lemma_chars_until(line: Seq<char>, target: int)
    ensures
        chars_until(line, target) <= line.len(),
    decreases line.len(),
{
    if line.len() > 0 && target > 0 {
        lemma_chars_until(line.skip(1), target - char_cols(line[0]));
    }
}

/// The byte offset in `content` of a visual row and column.
pub fn byte_offset_at_row_col(
    content: &str,
    width: usize,
    target_row: usize,
    target_col: usize,
) -> (r: usize)
    ensures
        r == offset_at(content@, width as nat, target_row as nat, target_col as nat),
        r <= byte_len(content@),
{
    let total: usize = byte_length(content);
    let chars = chars_of(content);
    let ghost s = content@;
    let ghost w = width as nat;
    let mut firsts: Vec<usize> = Vec::new();
    let mut starts: Vec<usize> = Vec::new();
    let mut first: usize = 0;
    let mut start: usize = 0;
    let mut col: usize = 0;
    let mut at: usize = 0;
    let mut i: usize = 0;
    let mut ends: Vec<usize> = Vec::new();
    proof {
        assert(s.take(0) =~= seq![]);
        assert(s.subrange(0, 0) =~= seq![]);
        lemma_byte_len_at_least(s);
    }
    while i < chars.len()
        invariant
            chars@ == s,
            s == content@,
            w == width,
            total == byte_len(s),
            first <= i <= chars@.len(),
            at == byte_len(s.take(i as int)),
            at <= total,
            laid_out(s, firsts@, ends@, starts@, grid(s.take(i as int), w)),
            s.subrange(first as int, i as int) == grid(s.take(i as int), w).last,
            start == grid(s.take(i as int), w).start,
            col == cols(grid(s.take(i as int), w).last),
            col <= at,
        decreases chars.len() - i,
    {
        let ch = chars[i];
        let ghost g = grid(s.take(i as int), w);
        proof {
            lemma_grid_step(s, w, i as int);
            lemma_byte_len_take(s, i + 1, s.len() as int);
            assert(s.take(s.len() as int) =~= s);
        }
        let size: usize = utf8_size(ch);
        let ch_cols: usize = if ch == '\n' {
            0
        } else {
            columns_of(ch)
        };
        if width > 0 && ch != '\n' && ch_cols > 0 && col + ch_cols > width {
            proof {
                lemma_laid_out_push(s, firsts@, ends@, starts@, g, first, i, start, at as nat);
            }
            firsts.push(first);
            ends.push(i);
            starts.push(start);
            first = i;
            start = at;
            col = 0;
            assert(s.subrange(i as int, i as int) =~= seq![]);
        }
        let ghost b = g.before(ch, w, at as nat);
        assert(laid_out(s, firsts@, ends@, starts@, b));
        if ch == '\n' {
            proof {
                lemma_laid_out_push(s, firsts@, ends@, starts@, b, first, i, start, (at + 1) as nat);
            }
            firsts.push(first);
            ends.push(i);
            starts.push(start);
            first = i + 1;
            start = at + size;
            col = 0;
            assert(s.subrange(i + 1, i + 1) =~= seq![]);
        } else {
            col += ch_cols;
            assert(s.subrange(first as int, i + 1) =~= b.last.push(ch));
            assert(b.last.push(ch).drop_last() =~= b.last);
            assert(b.last.push(ch).last() == ch);
            assert(grid(s.take(i + 1), w).last == b.last.push(ch));
            assert(cols(b.last.push(ch)) == cols(b.last) + char_cols(ch));
        }
        at += size;
        i += 1;
    }
    let ghost g = grid(s, w);
    proof {
        assert(s.take(chars@.len() as int) =~= s);
        lemma_laid_out_push(s, firsts@, ends@, starts@, g, first, i, start, 0);
        lemma_starts_fit(s, w);
    }
    firsts.push(first);
    ends.push(i);
    starts.push(start);
    let rows: usize = firsts.len();
    let row: usize = if target_row < rows {
        target_row
    } else {
        rows - 1
    };
    let from: usize = firsts[row];
    let to: usize = ends[row];
    let ghost line = s.subrange(from as int, to as int);
    assert(line == g.all_lines()[row as int]);
    assert(starts@[row as int] == g.all_starts()[row as int]);
    let mut left: usize = target_col;
    let mut byte: usize = starts[row];
    let mut j: usize = from;
    let ghost all = chars_until(line, target_col as int);
    proof {
        assert(line.skip(0) =~= line);
        assert(line.take(0) =~= seq![]);
        assert(byte + byte_len(line) <= total);
    }
    while j < to && left > 0
        invariant
            chars@ == s,
            from <= j <= to <= chars@.len(),
            line == s.subrange(from as int, to as int),
            total == byte_len(s),
            start_of_row(byte, starts@[row as int], line, j - from),
            starts@[row as int] + byte_len(line) <= total,
            row < starts@.len(),
            all == (j - from) + chars_until(line.skip(j - from), left as int),
        decreases to - j,
    {
        let ch = chars[j];
        let ghost d = j - from;
        proof {
            assert(line.skip(d)[0] == ch);
            assert(line.skip(d).skip(1) =~= line.skip(d + 1));
            assert(line.take(d + 1).drop_last() =~= line.take(d));
            assert(line.take(d + 1).last() == ch);
            lemma_byte_len_take(line, d + 1, line.len() as int);
            assert(line.take(line.len() as int) =~= line);
            lemma_chars_until_past(line.skip(d + 1), left - char_cols(ch));
        }
        let ch_cols: usize = columns_of(ch);
        left = left.saturating_sub(ch_cols);
        byte += utf8_size(ch);
        j += 1;
    }
    proof {
        let d = j - from;
        if j == to {
            assert(line.skip(d).len() == 0);
        }
        lemma_byte_len_take(line, d, line.len() as int);
        assert(line.take(line.len() as int) =~= line);
    }
    byte
}

/// `byte` is where character `d` of a line that starts at `start` begins.
spec fn start_of_row(byte: usize, start: usize, line: Seq<char>, d: int) -> bool {
    byte == start + byte_len(line.take(d))
}

/// Past the target nothing more is passed.
pub proof fn lemma_chars_until_past(line: Seq<char>, target: int)
    ensures
        target <= 0 ==> chars_until(line, target) == 0 && chars_until(line, 0) == 0,
{
}

/// The finished lines of a grid, by the indices between which they stand in the
/// text and the byte offsets at which they start.
spec fn laid_out(
    s: Seq<char>,
    firsts: Seq<usize>,
    ends: Seq<usize>,
    starts: Seq<usize>,
    g: Grid,
) -> bool {
    &&& firsts.len() == g.lines.len()
    &&& ends.len() == g.lines.len()
    &&& starts.len() == g.lines.len()
    &&& g.starts.len() == g.lines.len()
    &&& forall|i: int|
        0 <= i < g.lines.len() ==> {
            &&& 0 <= #[trigger] firsts[i] <= ends[i] <= s.len()
            &&& s.subrange(firsts[i] as int, ends[i] as int) == g.lines[i]
            &&& starts[i] == g.starts[i]
        }
}

proof fn lemma_laid_out_push(
    s: Seq<char>,
    firsts: Seq<usize>,
    ends: Seq<usize>,
    starts: Seq<usize>,
    g: Grid,
    first: usize,
    end: usize,
    start: usize,
    at: nat,
)
    requires
        laid_out(s, firsts, ends, starts, g),
        first <= end <= s.len(),
        s.subrange(first as int, end as int) == g.last,
        start == g.start,
    ensures
        laid_out(s, firsts.push(first), ends.push(end), starts.push(start), g.broken(at)),
{
    let f = firsts.push(first);
    let e = ends.push(end);
    let t = starts.push(start);
    let n = g.broken(at);
    assert forall|i: int| 0 <= i < n.lines.len() implies {
        &&& 0 <= #[trigger] f[i] <= e[i] <= s.len()
        &&& s.subrange(f[i] as int, e[i] as int) == n.lines[i]
        &&& t[i] == n.starts[i]
    } by {
        if i < g.lines.len() {
            assert(f[i] == firsts[i]);
        }
    }
}

// ── Scrolling ────────────────────────────────────────────────────────────────

/// The scroll offset that keeps a row visible: unchanged where it is, else as
/// little as it takes.
pub open spec fn scrolled(row: nat, height: nat, offset: nat) -> nat {
    if height == 0 {
        offset
    } else if row < offset {
        row
    } else if row >= offset + height {
        (row + 1 - height) as nat
    } else {
        offset
    }
}

/// Adjusts a scroll offset so that the cursor's row is inside the window.
pub fn adjust_scroll(cursor_row: usize, visible_height: usize, scroll_offset: &mut usize)
    ensures
        *final(scroll_offset) == scrolled(
            cursor_row as nat,
            visible_height as nat,
            *old(scroll_offset) as nat,
        ),
{
    if visible_height == 0 {
        return ;
    }
    if cursor_row < *scroll_offset {
        *scroll_offset = cursor_row;
    } else if cursor_row - *scroll_offset >= visible_height {
        *scroll_offset = cursor_row - (visible_height - 1);
    }
}

/// After scrolling, the row is inside the window.
pub proof fn law_scroll_shows_row(row: nat, height: nat, offset: nat)
    requires
        height > 0,
    ensures
        scrolled(row, height, offset) <= row < scrolled(row, height, offset) + height,
{
}

/// Scrolling to a row that is visible changes nothing.
pub proof fn law_scroll_is_stable(row: nat, height: nat, offset: nat)
    ensures
        scrolled(row, height, scrolled(row, height, offset)) == scrolled(row, height, offset),
{
}

// ── Laws of wrapping ─────────────────────────────────────────────────────────

/// Lines one after the other.
pub open spec fn flat(lines: Seq<Seq<char>>) -> Seq<char>
    decreases lines.len(),
{
    if lines.len() == 0 {
        seq![]
    } else {
        flat(lines.drop_last()) + lines.last()
    }
}

/// A text without its newlines.
pub open spec fn without_newlines(s: Seq<char>) -> Seq<char>
    decreases s.len(),
{
    if s.len() == 0 {
        seq![]
    } else if s.last() == '\n' {
        without_newlines(s.drop_last())
    } else {
        without_newlines(s.drop_last()).push(s.last())
    }
}

/// Wrapping neither loses nor adds a character, and keeps their order: the
/// lines hold the text but for its newlines.
pub proof fn law_wrap_keeps_text(s: Seq<char>, width: nat)
    ensures
        flat(grid(s, width).all_lines()) == without_newlines(s),
    decreases s.len(),
{
    if s.len() == 0 {
        reveal_with_fuel(flat, 2);
        assert(Grid::empty().all_lines().drop_last() =~= seq![]);
        assert(flat(Grid::empty().all_lines()) =~= seq![]);
    } else {
        let init = s.drop_last();
        law_wrap_keeps_text(init, width);
        let g = grid(init, width);
        let c = s.last();
        let b = g.before(c, width, byte_len(init));
        let n = grid(s, width);
        assert(g.all_lines().drop_last() =~= g.lines);
        assert(b.all_lines().drop_last() =~= b.lines);
        assert(n.all_lines().drop_last() =~= n.lines);
        assert(flat(b.lines) + b.last =~= flat(g.lines) + g.last) by {
            if g.overflows(c, width) {
                assert(b.lines.drop_last() =~= g.lines);
            }
        }
        if c == '\n' {
            assert(n.lines.drop_last() =~= b.lines);
            assert(flat(n.lines) + n.last =~= flat(b.lines) + b.last);
        } else {
            assert(flat(n.lines) + n.last =~= (flat(b.lines) + b.last).push(c));
        }
    }
}

/// A line fits: it takes up at most `width` columns, or is as wide as one
/// character that is wider than that.
pub open spec fn fits(line: Seq<char>, width: nat) -> bool {
    cols(line) <= width || exists|c: char| #[trigger]
        line.contains(c) && char_cols(c) > width && cols(line) == char_cols(c)
}

/// No line is wider than the limit, unless a single character is.
pub proof fn law_wrapped_lines_fit(s: Seq<char>, width: nat)
    requires
        width > 0,
    ensures
        forall|i: int|
            0 <= i < grid(s, width).all_lines().len() ==> fits(
                #[trigger] grid(s, width).all_lines()[i],
                width,
            ),
    decreases s.len(),
{
    let n = grid(s, width);
    if s.len() == 0 {
        assert forall|i: int| 0 <= i < n.all_lines().len() implies fits(
            #[trigger] n.all_lines()[i],
            width,
        ) by {}
    } else {
        let init = s.drop_last();
        law_wrapped_lines_fit(init, width);
        let g = grid(init, width);
        let c = s.last();
        let b = g.before(c, width, byte_len(init));
        assert(fits(g.last, width)) by {
            assert(g.all_lines()[g.lines.len() as int] == g.last);
        }
        assert forall|i: int| 0 <= i < b.lines.len() implies fits(#[trigger] b.lines[i], width) by {
            if i < g.lines.len() {
                assert(g.all_lines()[i] == g.lines[i]);
            }
        }
        assert(fits(b.last, width));
        if c != '\n' {
            assert(n.last.drop_last() =~= b.last);
            assert(n.last.contains(c)) by {
                assert(n.last[b.last.len() as int] == c);
            }
            if char_cols(c) == 0 && cols(b.last) > width {
                let d = choose|d: char| #[trigger]
                    b.last.contains(d) && char_cols(d) > width && cols(b.last) == char_cols(d);
                let j = choose|j: int| 0 <= j < b.last.len() && b.last[j] == d;
                assert(n.last[j] == d);
                assert(n.last.contains(d));
            }
            assert(fits(n.last, width));
        }
        assert forall|i: int| 0 <= i < n.all_lines().len() implies fits(
            #[trigger] n.all_lines()[i],
            width,
        ) by {
            if i < b.lines.len() {
                assert(n.all_lines()[i] == b.lines[i]);
            } else if i == b.lines.len() && c == '\n' {
                assert(n.all_lines()[i] == b.last);
            }
        }
    }
}

/// `g` goes on from `b`: the finished lines of `b` are still there, and so is
/// the line that it was filling, longer perhaps, and starts where it did.
spec fn goes_on(b: Grid, g: Grid) -> bool {
    &&& b.lines.len() <= g.lines.len()
    &&& b.lines == g.lines.take(b.lines.len() as int)
    &&& g.lines.len() == g.starts.len()
    &&& b.last.is_prefix_of(g.all_lines()[b.lines.len() as int])
    &&& g.all_starts()[b.lines.len() as int] == b.start
}

proof fn lemma_goes_on_put(b: Grid, g: Grid, c: char, width: nat, at: nat)
    requires
        goes_on(b, g),
    ensures
        goes_on(b, g.put(c, width, at)),
{
    let r = b.lines.len() as int;
    let m = g.before(c, width, at);
    assert(goes_on(b, m)) by {
        if g.overflows(c, width) {
            assert(m.all_lines()[r] == g.all_lines()[r]);
            assert(m.all_starts()[r] == g.all_starts()[r]);
            assert(m.lines.take(r) =~= g.lines.take(r));
        }
    }
    let n = g.put(c, width, at);
    assert(n.lines.take(r) =~= m.lines.take(r));
    if c == '\n' {
        assert(n.all_lines()[r] == m.all_lines()[r]);
        assert(n.all_starts()[r] == m.all_starts()[r]);
    } else if r == m.lines.len() {
        assert(m.last.is_prefix_of(n.last)) by {
            assert(n.last.take(m.last.len() as int) =~= m.last);
        }
        assert(b.last =~= n.last.take(b.last.len() as int)) by {
            assert(m.last.take(b.last.len() as int) =~= b.last);
        }
        assert(b.last.is_prefix_of(n.all_lines()[r]));
    } else {
        assert(n.all_lines()[r] == m.all_lines()[r]);
    }
}

proof fn lemma_goes_on(s: Seq<char>, width: nat, b: Grid, from: int, to: int)
    requires
        0 <= from <= to <= s.len(),
        goes_on(b, grid(s.take(from), width)),
    ensures
        goes_on(b, grid(s.take(to), width)),
    decreases to - from,
{
    if from < to {
        lemma_grid_step(s, width, from);
        lemma_goes_on_put(
            b,
            grid(s.take(from), width),
            s[from],
            width,
            byte_len(s.take(from)),
        );
        lemma_goes_on(s, width, b, from + 1, to);
    }
}

proof fn lemma_cols_front(a: Seq<char>)
    requires
        a.len() > 0,
    ensures
        cols(a) == char_cols(a[0]) + cols(a.skip(1)),
    decreases a.len(),
{
    if a.len() == 1 {
        reveal_with_fuel(cols, 2);
        assert(a.drop_last() =~= seq![]);
        assert(a.skip(1) =~= seq![]);
    } else {
        lemma_cols_front(a.drop_last());
        assert(a.drop_last().skip(1) =~= a.skip(1).drop_last());
        assert(a.skip(1).last() == a.last());
    }
}

/// Every character of a text takes up room.
pub open spec fn all_visible(s: Seq<char>) -> bool {
    forall|i: int| 0 <= i < s.len() && s[i] != '\n' ==> char_cols(#[trigger] s[i]) > 0
}

/// Walking the columns of `a` along a line that begins with it ends behind it.
proof fn lemma_walk(a: Seq<char>, line: Seq<char>)
    requires
        a.is_prefix_of(line),
        forall|i: int| 0 <= i < a.len() ==> char_cols(#[trigger] a[i]) > 0,
    ensures
        chars_until(line, cols(a) as int) == a.len(),
    decreases a.len(),
{
    if a.len() > 0 {
        lemma_cols_front(a);
        assert(line[0] == a[0]) by {
            assert(line.take(a.len() as int)[0] == a[0]);
        }
        assert(char_cols(a[0]) > 0);
        let rest = a.skip(1);
        assert(rest.is_prefix_of(line.skip(1))) by {
            assert(line.skip(1).take(rest.len() as int) =~= rest) by {
                assert forall|i: int| 0 <= i < rest.len() implies line.skip(1)[i] == rest[i] by {
                    assert(line.take(a.len() as int)[i + 1] == a[i + 1]);
                }
            }
        }
        assert forall|i: int| 0 <= i < rest.len() implies char_cols(#[trigger] rest[i]) > 0 by {
            assert(char_cols(a[i + 1]) > 0);
        }
        lemma_walk(rest, line.skip(1));
    }
}

/// The characters of the line being filled come from the text.
proof fn lemma_last_from_text(s: Seq<char>, width: nat)
    ensures
        forall|i: int|
            0 <= i < grid(s, width).last.len() ==> (#[trigger] grid(s, width).last[i]) != '\n'
                && s.contains(grid(s, width).last[i]),
    decreases s.len(),
{
    if s.len() > 0 {
        let init = s.drop_last();
        lemma_last_from_text(init, width);
        let g = grid(init, width);
        let n = grid(s, width);
        assert forall|i: int| 0 <= i < n.last.len() implies (#[trigger] n.last[i]) != '\n'
            && s.contains(n.last[i]) by {
            if i < n.last.len() - 1 {
                assert(n.last[i] == g.last[i]);
                let j = choose|j: int| 0 <= j < init.len() && init[j] == g.last[i];
                assert(s[j] == g.last[i]);
            } else {
                assert(n.last[i] == s[s.len() - 1]);
            }
        }
    }
}

/// What is laid out before character `k`, up to where it is put down.
spec fn grid_before(s: Seq<char>, width: nat, k: nat) -> Grid {
    let g = grid(s.take(k as int), width);
    if k < s.len() {
        g.before(s[k as int], width, byte_len(s.take(k as int)))
    } else {
        g
    }
}

/// What was laid out before a character stays as the rest is put down.
proof fn lemma_grid_goes_on(s: Seq<char>, width: nat, k: nat)
    requires
        k <= s.len(),
    ensures
        goes_on(grid_before(s, width, k), grid(s, width)),
{
    let part = s.take(k as int);
    let at = byte_len(part);
    let g = grid(part, width);
    let b = grid_before(s, width, k);
    lemma_starts_fit(part, width);
    assert(s.take(s.len() as int) =~= s);
    assert(b.lines.take(b.lines.len() as int) =~= b.lines);
    assert(b.last.take(b.last.len() as int) =~= b.last);
    if k < s.len() {
        let n = g.put(s[k as int], width, at);
        lemma_grid_step(s, width, k as int);
        assert(goes_on(b, n)) by {
            let r = b.lines.len() as int;
            assert(n.lines.take(r) =~= b.lines);
            if s[k as int] == '\n' {
                assert(n.all_lines()[r] == b.last);
            } else {
                assert(n.last.take(b.last.len() as int) =~= b.last);
            }
        }
        lemma_goes_on(s, width, b, k as int + 1, s.len() as int);
    } else {
        assert(part =~= s);
    }
}

/// Finding the position of a cursor and going back to the byte offset at that
/// position gives the cursor's offset again, where every character takes up
/// room and the cursor is not behind a last line that is exactly full.
pub proof fn law_cursor_position_round_trip(s: Seq<char>, width: nat, k: nat)
    requires
        k <= s.len(),
        all_visible(s),
        k == s.len() && width > 0 ==> cols(grid(s, width).last) < width,
    ensures
        offset_at(s, width, cursor_before(s, width, k).0, cursor_before(s, width, k).1) == byte_len(
            s.take(k as int),
        ),
{
    let part = s.take(k as int);
    let g = grid(part, width);
    let b = grid_before(s, width, k);
    lemma_starts_fit(part, width);
    lemma_starts_fit(s, width);
    lemma_grid_goes_on(s, width, k);
    if k == s.len() {
        assert(part =~= s);
    }
    let line = grid(s, width).all_lines()[b.lines.len() as int];
    lemma_last_from_text(part, width);
    assert forall|i: int| 0 <= i < b.last.len() implies char_cols(#[trigger] b.last[i]) > 0 by {
        assert(b.last == g.last);
        let c = g.last[i];
        let j = choose|j: int| 0 <= j < part.len() && part[j] == c;
        assert(s[j] == c);
    }
    lemma_walk(b.last, line);
    assert(line.take(b.last.len() as int) =~= b.last);
    assert(b.start + byte_len(b.last) == byte_len(part));
}

/// `p` is what stands before the cursor on its own line: a beginning of that
/// line, as wide as the cursor's column says, which together with the lines
/// above makes up `text` without its newlines.
pub open spec fn leads_up_to(
    p: Seq<char>,
    text: Seq<char>,
    lines: Seq<Seq<char>>,
    row: nat,
    col: nat,
) -> bool {
    &&& p.is_prefix_of(lines[row as int])
    &&& cols(p) == col
    &&& without_newlines(text) == flat(lines.take(row as int)) + p
}

/// A byte offset, or the end of the text where it is past it.
pub open spec fn clamped(s: Seq<char>, byte: nat) -> nat {
    if byte <= byte_len(s) {
        byte
    } else {
        byte_len(s)
    }
}

/// `text` leads up to the cursor: it is the lines above and a beginning of the
/// cursor's own line.
pub open spec fn cursor_follows(
    text: Seq<char>,
    lines: Seq<Seq<char>>,
    row: nat,
    col: nat,
) -> bool {
    exists|p: Seq<char>| leads_up_to(p, text, lines, row, col)
}

/// The cursor stands where the text before it ends: on a line that exists, with
/// the lines above it and a beginning of its own line, of exactly its column's
/// width, holding all of that text but its newlines. A cursor past the end
/// stands at the end.
pub proof fn law_text_before_the_cursor(s: Seq<char>, width: nat, byte: nat, k: nat)
    requires
        index_at(s, clamped(s, byte)) == Some(k),
    ensures
        byte_len(s.take(k as int)) == clamped(s, byte),
        cursor_at(s, width, byte).0 < wrapped_lines(s, width, byte).len(),
        cursor_follows(
            s.take(k as int),
            wrapped_lines(s, width, byte),
            cursor_at(s, width, byte).0,
            cursor_at(s, width, byte).1,
        ),
        wrapped_lines(s, width, byte) == wrapped_lines(s, width, clamped(s, byte)),
        cursor_at(s, width, byte) == cursor_at(s, width, clamped(s, byte)),
{
    lemma_index_at_some(s, clamped(s, byte));
    let part = s.take(k as int);
    let g = grid(part, width);
    let b = grid_before(s, width, k);
    let whole = grid(s, width);
    let lines = wrapped_lines(s, width, byte);
    let (row, col) = cursor_at(s, width, byte);
    lemma_grid_goes_on(s, width, k);
    law_wrap_keeps_text(part, width);
    assert(g.all_lines().drop_last() =~= g.lines);
    assert(b.all_lines().drop_last() =~= b.lines);
    assert(flat(b.lines) + b.last =~= flat(g.lines) + g.last) by {
        if b != g {
            assert(b.lines.drop_last() =~= g.lines);
        }
    }
    if k == s.len() && width > 0 && cols(whole.last) >= width {
        assert(part =~= s);
        let p = Seq::<char>::empty();
        assert(lines.take(row as int) =~= whole.all_lines());
        assert(p =~= lines[row as int].take(0));
        assert(without_newlines(part) =~= flat(lines.take(row as int)) + p);
        assert(leads_up_to(p, part, lines, row, col));
    } else {
        if k == s.len() {
            assert(part =~= s);
        }
        assert(lines.take(row as int) =~= b.lines);
        assert(lines[row as int] == whole.all_lines()[row as int]);
        assert(leads_up_to(b.last, part, lines, row, col));
    }
}

} // verus!
