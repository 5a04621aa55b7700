//! Search in the rendered chat: the query, the matching lines and the current
//! match.

use vstd::prelude::*;

use crate::style::{line_views, Line, SpanView};
use crate::text::{contains_str, has_part, lowercase, to_lowercase};

verus! {

// ── Regular expressions ──────────────────────────────────────────────────────

/// A compiled regular expression of the `regex` crate.
#[verifier::external_type_specification]
#[verifier::external_body]
pub struct ExRegex(regex::Regex);

/// The pattern that was handed to `Regex::new` for a regular expression.
pub uninterp spec fn regex_pattern(re: regex::Regex) -> Seq<char>;

/// `Regex::new` accepts a pattern.
pub uninterp spec fn regex_compiles(pattern: Seq<char>) -> bool;

/// What `Regex::is_match` returns for the regular expression of a pattern.
pub uninterp spec fn regex_finds(pattern: Seq<char>, text: Seq<char>) -> bool;

/// `regex::Regex::new`: compiles a pattern. Whether it is accepted depends on
/// the pattern alone, and the result is that pattern's regular expression.
#[verifier::external_body]
fn compile_regex(pattern: &str) -> (r: Option<regex::Regex>)
    ensures
        r is Some == regex_compiles(pattern@),
        r matches Some(re) ==> regex_pattern(re) == pattern@,
{
    regex::Regex::new(pattern).ok()
}

/// `regex::Regex::is_match`: whether there is a match anywhere in a text; a
/// function of the pattern and the text.
#[verifier::external_body]
fn regex_is_match(re: &regex::Regex, text: &str) -> (r: bool)
    ensures
        r == regex_finds(regex_pattern(*re), text@),
{
    re.is_match(text)
}

// ── Matching lines ───────────────────────────────────────────────────────────

/// A span is found by a query: by the query as a regular expression without
/// regard to case, or as a part of the text where it is no such expression.
pub open spec fn span_found(query: Seq<char>, text: Seq<char>) -> bool {
    if regex_compiles("(?i)"@ + query) {
        regex_finds("(?i)"@ + query, text)
    } else {
        has_part(lowercase(text), lowercase(query))
    }
}

/// Which spans of which lines are found by a query.
pub open spec fn found(lines: Seq<Seq<SpanView>>, query: Seq<char>) -> Seq<Seq<bool>> {
    lines.map_values(
        |l: Seq<SpanView>| l.map_values(|s: SpanView| span_found(query, s.content)),
    )
}

/// The indices of the lines with a span that was found, in order.
pub open spec fn hit_lines(hits: Seq<Seq<bool>>) -> Seq<usize>
    decreases hits.len(),
{
    if hits.len() == 0 {
        seq![]
    } else if hits.last().contains(true) {
        hit_lines(hits.drop_last()).push((hits.len() - 1) as usize)
    } else {
        hit_lines(hits.drop_last())
    }
}

/// The state of a search.
#[derive(Debug)]
pub struct SearchState {
    pub active: bool,
    pub query: String,
    /// The lines that match.
    pub matches: Vec<usize>,
    /// The current match among them.
    pub current: usize,
    /// The query as a regular expression, if it is one.
    pub regex: Option<regex::Regex>,
}

pub struct SearchView {
    pub active: bool,
    pub query: Seq<char>,
    pub matches: Seq<usize>,
    pub current: usize,
    pub regex: Option<Seq<char>>,
}

impl View for SearchState {
    type V = SearchView;

    open spec fn view(&self) -> SearchView {
        SearchView {
            active: self.active,
            query: self.query@,
            matches: self.matches@,
            current: self.current,
            regex: match self.regex {
                Some(re) => Some(regex_pattern(re)),
                None => None,
            },
        }
    }
}

impl SearchView {
    /// No search.
    pub open spec fn idle() -> SearchView {
        SearchView { active: false, query: seq![], matches: seq![], current: 0, regex: None }
    }

    /// The matches are those of `hits`; a current match past them becomes the
    /// first.
    pub open spec fn with_hits(self, hits: Seq<Seq<bool>>) -> SearchView {
        let matches = hit_lines(hits);
        SearchView {
            matches,
            current: if self.current >= matches.len() {
                0
            } else {
                self.current
            },
            ..self
        }
    }

    /// The search after the lines or the query changed.
    pub open spec fn updated(self, lines: Seq<Seq<SpanView>>) -> SearchView {
        if self.query.len() == 0 {
            SearchView { matches: seq![], regex: None, ..self }
        } else {
            SearchView {
                regex: if regex_compiles("(?i)"@ + self.query) {
                    Some("(?i)"@ + self.query)
                } else {
                    None
                },
                ..self.with_hits(found(lines, self.query))
            }
        }
    }
}

/// The views of lists of flags.
pub open spec fn flag_views(v: Seq<Vec<bool>>) -> Seq<Seq<bool>> {
    v.map_values(|f: Vec<bool>| f@)
}

fn any_set(flags: &Vec<bool>) -> (r: bool)
    ensures
        r == flags@.contains(true),
{
    let mut i: usize = 0;
    while i < flags.len()
        invariant
            i <= flags@.len(),
            forall|k: int| 0 <= k < i ==> !#[trigger] flags@[k],
        decreases flags.len() - i,
    {
        if flags[i] {
            assert(flags@[i as int]);
            return true;
        }
        i += 1;
    }
    false
}

impl Default for SearchState {
    fn default() -> (r: SearchState)
        ensures
            r@ == SearchView::idle(),
    {
        let r = SearchState {
            active: false,
            query: String::new(),
            matches: Vec::new(),
            current: 0,
            regex: None,
        };
        assert(r.query@ =~= seq![]);
        assert(r.matches@ =~= seq![]);
        r
    }
}

impl SearchState {
    /// Takes over which spans were found.
    pub fn set_hits(&mut self, hits: &Vec<Vec<bool>>)
        ensures
            final(self)@ == old(self)@.with_hits(flag_views(hits@)),
    {
        let ghost all = flag_views(hits@);
        let mut matches: Vec<usize> = Vec::new();
        let mut i: usize = 0;
        assert(all.take(0) =~= seq![]);
        assert(matches@ =~= seq![]);
        while i < hits.len()
            invariant
                all == flag_views(hits@),
                i <= hits@.len(),
                matches@ == hit_lines(all.take(i as int)),
            decreases hits.len() - i,
        {
            if any_set(&hits[i]) {
                matches.push(i);
            }
            i += 1;
            proof {
                assert(all.take(i as int).drop_last() =~= all.take(i - 1));
                assert(all.take(i as int).last() == hits@[i - 1]@);
            }
        }
        assert(all.take(hits@.len() as int) =~= all);
        if self.current >= matches.len() {
            self.current = 0;
        }
        self.matches = matches;
    }

    /// Finds the matching lines anew, against the rendered lines.
    pub fn update_matches(&mut self, lines: &Vec<Line>)
        ensures
            final(self)@ == old(self)@.updated(line_views(lines@)),
    {
        if self.query.as_str().is_empty() {
            self.matches = Vec::new();
            self.regex = None;
            assert(self.matches@ =~= seq![]);
            return ;
        }
        let mut pattern = "(?i)".to_owned();
        pattern.append(self.query.as_str());
        let re = compile_regex(pattern.as_str());
        let lower = to_lowercase(self.query.as_str());
        let ghost query = self.query@;
        let ghost all = line_views(lines@);
        let mut hits: Vec<Vec<bool>> = Vec::new();
        let mut i: usize = 0;
        while i < lines.len()
            invariant
                query == self.query@,
                all == line_views(lines@),
                pattern@ == "(?i)"@ + query,
                lower@ == lowercase(query),
                re is Some == regex_compiles(pattern@),
                re matches Some(x) ==> regex_pattern(x) == pattern@,
                i <= lines@.len(),
                hits@.len() == i,
                forall|k: int|
                    0 <= k < i ==> (#[trigger] hits@[k])@ == all[k].map_values(
                        |s: SpanView| span_found(query, s.content),
                    ),
            decreases lines.len() - i,
        {
            let line = &lines[i];
            let mut flags: Vec<bool> = Vec::new();
            let mut j: usize = 0;
            while j < line.spans.len()
                invariant
                    pattern@ == "(?i)"@ + query,
                    lower@ == lowercase(query),
                    re is Some == regex_compiles(pattern@),
                    re matches Some(x) ==> regex_pattern(x) == pattern@,
                    j <= line.spans@.len(),
                    flags@.len() == j,
                    forall|k: int|
                        0 <= k < j ==> #[trigger] flags@[k] == span_found(
                            query,
                            line.spans@[k].content@,
                        ),
                decreases line.spans.len() - j,
            {
                let text = line.spans[j].content.as_str();
                let hit = match &re {
                    Some(x) => regex_is_match(x, text),
                    None => contains_str(to_lowercase(text).as_str(), lower.as_str()),
                };
                flags.push(hit);
                j += 1;
            }
            assert(flags@ =~= line@.map_values(|s: SpanView| span_found(query, s.content)));
            hits.push(flags);
            i += 1;
        }
        assert(flag_views(hits@) =~= found(all, query));
        self.regex = re;
        self.set_hits(&hits);
    }

    /// The line of the current match.
    pub fn current_line(&self) -> (r: Option<usize>)
        ensures
            r == (if self.current < self.matches@.len() {
                Some(self.matches@[self.current as int])
            } else {
                None
            }),
    {
        if self.current < self.matches.len() {
            Some(self.matches[self.current])
        } else {
            None
        }
    }
}

// ── Laws ─────────────────────────────────────────────────────────────────────

/// The matches are the lines with a hit, each once and in order.
pub proof fn law_hits_are_the_matching_lines(hits: Seq<Seq<bool>>, line: usize)
    requires
        hits.len() <= usize::MAX,
    ensures
        hit_lines(hits).contains(line) <==> line < hits.len() && hits[line as int].contains(true),
        forall|i: int, j: int|
            0 <= i < j < hit_lines(hits).len() ==> #[trigger] hit_lines(hits)[i]
                < #[trigger] hit_lines(hits)[j],
        forall|i: int| 0 <= i < hit_lines(hits).len() ==> #[trigger] hit_lines(hits)[i] < hits.len(),
    decreases hits.len(),
{
    if hits.len() > 0 {
        let init = hits.drop_last();
        law_hits_are_the_matching_lines(init, line);
        let part = hit_lines(init);
        let all = hit_lines(hits);
        if hits.last().contains(true) {
            let last = (hits.len() - 1) as usize;
            assert(all == part.push(last));
            assert(all[part.len() as int] == last);
            if all.contains(line) {
                let i = choose|i: int| 0 <= i < all.len() && all[i] == line;
                if i < part.len() {
                    assert(part[i] == line);
                    assert(part.contains(line));
                }
            }
            if line < hits.len() && hits[line as int].contains(true) && line != last {
                assert(init[line as int] == hits[line as int]);
                let i = choose|i: int| 0 <= i < part.len() && part[i] == line;
                assert(all[i] == line);
            }
        } else if line < hits.len() - 1 {
            assert(init[line as int] == hits[line as int]);
        }
    }
}

/// After an update the current match exists, unless there is none at all.
pub proof fn law_current_match_exists(v: SearchView, lines: Seq<Seq<SpanView>>)
    requires
        v.query.len() > 0,
    ensures
        v.updated(lines).matches.len() > 0 ==> v.updated(lines).current < v.updated(
            lines,
        ).matches.len(),
{
}

} // verus!
