//! Fuzzy matching and the ranking of completions.

use vstd::prelude::*;

use std::sync::Arc;
use crate::commands::parser::{ParsedCommand, ParsedView};
use crate::commands::registry::{
    by_name, lemma_by_name, lemma_by_name_only, names_differ, Command, CommandRegistry,
};
use crate::commands::{CommandContext, ContextView, SlashCommand};
use crate::order::{
    indices, key_less, key_views, lemma_key_total, sorted_order, stable_order, SortKey, SortKeyView,
};
use crate::text::{chars_of, lowercase, to_lowercase};

verus! {

// ── Items ────────────────────────────────────────────────────────────────────

/// One entry of a completion list.
#[derive(Debug, PartialEq, Eq)]
pub struct CompletionItem {
    /// What is inserted when the entry is chosen.
    pub value: String,
    /// The label that is shown.
    pub display: String,
    /// A second, muted text.
    pub description: Option<String>,
    /// How well the entry matches; higher is better.
    pub score: usize,
}

pub struct CompletionItemView {
    pub value: Seq<char>,
    pub display: Seq<char>,
    pub description: Option<Seq<char>>,
    pub score: usize,
}

/// The view of an optional owned string.
pub open spec fn opt_string_view(o: Option<String>) -> Option<Seq<char>> {
    match o {
        Some(s) => Some(s@),
        None => None,
    }
}

impl View for CompletionItem {
    type V = CompletionItemView;

    open spec fn view(&self) -> CompletionItemView {
        CompletionItemView {
            value: self.value@,
            display: self.display@,
            description: opt_string_view(self.description),
            score: self.score,
        }
    }
}

/// The views of a list of completions.
pub open spec fn item_views(v: Seq<CompletionItem>) -> Seq<CompletionItemView> {
    v.map_values(|i: CompletionItem| i@)
}

/// An entry that inserts what it shows.
pub open spec fn simple_item(value: Seq<char>) -> CompletionItemView {
    CompletionItemView { value, display: value, description: None, score: 0 }
}

/// An entry with a description.
pub open spec fn described_item(
    value: Seq<char>,
    display: Seq<char>,
    description: Seq<char>,
) -> CompletionItemView {
    CompletionItemView { value, display, description: Some(description), score: 0 }
}

impl Clone for CompletionItem {
    fn clone(&self) -> (r: Self)
        ensures
            r@ == self@,
    {
        CompletionItem {
            value: self.value.clone(),
            display: self.display.clone(),
            description: match &self.description {
                Some(d) => Some(d.clone()),
                None => None,
            },
            score: self.score,
        }
    }
}

impl CompletionItem {
    /// An entry that inserts what it shows.
    pub fn simple(value: &str) -> (r: CompletionItem)
        ensures
            r@ == simple_item(value@),
    {
        CompletionItem {
            value: value.to_owned(),
            display: value.to_owned(),
            description: None,
            score: 0,
        }
    }

    /// An entry with a label and a description of its own.
    pub fn with_desc(value: &str, display: &str, description: &str) -> (r: CompletionItem)
        ensures
            r@ == described_item(value@, display@, description@),
    {
        CompletionItem {
            value: value.to_owned(),
            display: display.to_owned(),
            description: Some(description.to_owned()),
            score: 0,
        }
    }
}

// ── Fuzzy matching ───────────────────────────────────────────────────────────

/// The first index at or after `from` at which `c` stands.
pub open spec fn position(s: Seq<char>, from: int, c: char) -> Option<int>
    decreases s.len() - from,
{
    if from >= s.len() {
        None
    } else if s[from] == c {
        Some(from)
    } else {
        position(s, from + 1, c)
    }
}

/// A character that a word can begin after.
pub open spec fn is_separator(c: char) -> bool {
    c == '/' || c == '-' || c == '_' || c == ' '
}

/// What a match at `idx` is worth: one point, three more directly behind the
/// match before it, five at the start, two behind a separator. `later` says
/// whether there was a match before, which then ended at `from`.
pub open spec fn match_points(candidate: Seq<char>, from: int, idx: int, later: bool) -> nat {
    1 + (if later && idx == from {
        3nat
    } else {
        0
    }) + (if idx == 0 {
        5nat
    } else {
        0
    }) + (if idx > 0 && is_separator(candidate[idx - 1]) {
        2nat
    } else {
        0
    })
}

/// The points of `pattern` in `candidate` from index `from` on: each character
/// is matched at its first occurrence behind the one before. `later` says
/// whether there was one before.
pub open spec fn points_from(
    pattern: Seq<char>,
    candidate: Seq<char>,
    from: int,
    later: bool,
) -> Option<nat>
    decreases pattern.len(),
{
    if pattern.len() == 0 {
        Some(0)
    } else {
        match position(candidate, from, pattern[0]) {
            None => None,
            Some(idx) => match points_from(pattern.skip(1), candidate, idx + 1, true) {
                None => None,
                Some(rest) => Some(match_points(candidate, from, idx, later) + rest),
            },
        }
    }
}

/// A number of points as a score: the largest score where it does not fit.
pub open spec fn as_score(points: nat) -> usize {
    if points <= usize::MAX {
        points as usize
    } else {
        usize::MAX
    }
}

/// The score of a pattern against a candidate, both in lower case.
pub open spec fn score_of(pattern: Seq<char>, candidate: Seq<char>) -> Option<usize> {
    match points_from(pattern, candidate, 0, false) {
        Some(points) => Some(as_score(points)),
        None => None,
    }
}

/// The score of a pattern against a candidate, without regard to case.
pub open spec fn fuzzy(pattern: Seq<char>, candidate: Seq<char>) -> Option<usize> {
    if pattern.len() == 0 {
        Some(0)
    } else {
        score_of(lowercase(pattern), lowercase(candidate))
    }
}

/// Finds a character at or after an index.
fn find_from(s: &Vec<char>, from: usize, c: char) -> (r: Option<usize>)
    requires
        from <= s@.len(),
    ensures
        position(s@, from as int, c) == match r {
            Some(i) => Some(i as int),
            None => None,
        },
        r matches Some(i) ==> from <= i < s@.len(),
{
    let mut i: usize = from;
    while i < s.len()
        invariant
            from <= i <= s@.len(),
            position(s@, from as int, c) == position(s@, i as int, c),
        decreases s.len() - i,
    {
        if s[i] == c {
            return Some(i);
        }
        i += 1;
    }
    None
}

/// Scores a pattern against a candidate, both in lower case.
pub fn score_chars(pattern: &Vec<char>, candidate: &Vec<char>) -> (r: Option<usize>)
    ensures
        r == score_of(pattern@, candidate@),
{
    let n: usize = candidate.len();
    let mut score: usize = 0;
    let mut from: usize = 0;
    let mut later = false;
    let mut i: usize = 0;
    let ghost mut earned: nat = 0;
    assert(pattern@.skip(0) =~= pattern@);
    while i < pattern.len()
        invariant
            i <= pattern@.len(),
            from <= n == candidate@.len(),
            score == as_score(earned),
            points_from(pattern@, candidate@, 0, false) == (match points_from(
                pattern@.skip(i as int),
                candidate@,
                from as int,
                later,
            ) {
                Some(rest) => Some(earned + rest),
                None => None,
            }),
        decreases pattern.len() - i,
    {
        let ghost rest = pattern@.skip(i as int);
        assert(rest[0] == pattern@[i as int]);
        assert(rest.skip(1) =~= pattern@.skip(i + 1));
        match find_from(candidate, from, pattern[i]) {
            None => {
                return None;
            },
            Some(idx) => {
                let ghost points = match_points(candidate@, from as int, idx as int, later);
                let mut gain: usize = 1;
                if later && idx == from {
                    gain += 3;
                }
                if idx == 0 {
                    gain += 5;
                } else {
                    let prev = candidate[idx - 1];
                    if prev == '/' || prev == '-' || prev == '_' || prev == ' ' {
                        gain += 2;
                    }
                }
                assert(gain == points);
                score = score.saturating_add(gain);
                later = true;
                from = idx + 1;
                proof {
                    earned = earned + points;
                }
            },
        }
        i += 1;
    }
    assert(pattern@.skip(pattern@.len() as int) =~= seq![]);
    Some(score)
}

/// Matches `pattern` against `candidate` without regard to case: the score if
/// all its characters occur in order, `None` if they do not.
pub fn fuzzy_score(pattern: &str, candidate: &str) -> (r: Option<usize>)
    ensures
        r == fuzzy(pattern@, candidate@),
{
    if pattern.is_empty() {
        return Some(0);
    }
    let p = chars_of(to_lowercase(pattern).as_str());
    let c = chars_of(to_lowercase(candidate).as_str());
    score_chars(&p, &c)
}

// ── Ranking ──────────────────────────────────────────────────────────────────

/// The score of an item: the better of its value's and its label's.
pub open spec fn item_score(filter: Seq<char>, item: CompletionItemView) -> usize {
    let v = fuzzy(filter, item.value).unwrap_or(0);
    let d = fuzzy(filter, item.display).unwrap_or(0);
    if v >= d {
        v
    } else {
        d
    }
}

/// The item stays in the list: its value or its label matches.
pub open spec fn item_matches(filter: Seq<char>, item: CompletionItemView) -> bool {
    fuzzy(filter, item.value) is Some || fuzzy(filter, item.display) is Some
}

/// The matching items with their scores, in the order in which they came.
pub open spec fn scored(items: Seq<CompletionItemView>, filter: Seq<char>) -> Seq<
    CompletionItemView,
>
    decreases items.len(),
{
    if items.len() == 0 {
        seq![]
    } else {
        let init = scored(items.drop_last(), filter);
        let item = items.last();
        if item_matches(filter, item) {
            init.push(CompletionItemView { score: item_score(filter, item), ..item })
        } else {
            init
        }
    }
}

/// What items are ranked by: the score, highest first, if `by_score`; then the
/// value.
pub open spec fn rank_key(item: CompletionItemView, by_score: bool) -> SortKeyView {
    SortKeyView {
        rank: if by_score {
            (usize::MAX - item.score) as usize
        } else {
            0
        },
        first: item.value,
        second: seq![],
    }
}

/// `items` in sorted order.
pub open spec fn ranked(items: Seq<CompletionItemView>, by_score: bool) -> Seq<CompletionItemView> {
    stable_order(items.map_values(|i: CompletionItemView| rank_key(i, by_score))).map_values(
        |k: int| items[k],
    )
}

/// The items that match `filter`, best first and then by value. An empty filter
/// keeps all items, by value.
pub open spec fn filtered(items: Seq<CompletionItemView>, filter: Seq<char>) -> Seq<
    CompletionItemView,
> {
    if filter.len() == 0 {
        ranked(items, false)
    } else {
        ranked(scored(items, filter), true)
    }
}

/// Sorts items by score, if `by_score`, and by value.
fn rank_items(items: &Vec<CompletionItem>, by_score: bool) -> (r: Vec<CompletionItem>)
    ensures
        item_views(r@) == ranked(item_views(items@), by_score),
{
    let ghost all = item_views(items@);
    let ghost f = |i: CompletionItemView| rank_key(i, by_score);
    let mut keys: Vec<SortKey> = Vec::new();
    let mut i: usize = 0;
    while i < items.len()
        invariant
            all == item_views(items@),
            f == (|i: CompletionItemView| rank_key(i, by_score)),
            i <= items@.len(),
            keys@.len() == i,
            forall|k: int| 0 <= k < i ==> (#[trigger] keys@[k])@ == f(all[k]),
        decreases items.len() - i,
    {
        let rank: usize = if by_score {
            usize::MAX - items[i].score
        } else {
            0
        };
        let second = String::new();
        assert(second@ =~= seq![]);
        keys.push(SortKey { rank, first: items[i].value.clone(), second });
        assert(all[i as int] == items@[i as int]@);
        i += 1;
    }
    assert(key_views(keys@) =~= all.map_values(f));
    let order = sorted_order(&keys);
    let mut out: Vec<CompletionItem> = Vec::new();
    let mut j: usize = 0;
    while j < order.len()
        invariant
            all == item_views(items@),
            j <= order@.len(),
            out@.len() == j,
            forall|k: int| 0 <= k < order@.len() ==> #[trigger] order@[k] < items@.len(),
            forall|k: int| 0 <= k < j ==> (#[trigger] out@[k])@ == all[order@[k] as int],
        decreases order.len() - j,
    {
        out.push(items[order[j]].clone());
        j += 1;
    }
    proof {
        let idx = indices(order@);
        assert(item_views(out@) =~= idx.map_values(|k: int| all[k])) by {
            assert forall|k: int| 0 <= k < out@.len() implies (#[trigger] item_views(out@)[k])
                == all[idx[k]] by {
                assert(out@[k]@ == all[order@[k] as int]);
            }
        }
    }
    out
}

/// Filters and ranks items: the best match first, equal ones by value. An empty
/// filter keeps all items in alphabetical order.
pub fn filter_and_rank(items: Vec<CompletionItem>, filter: &str) -> (r: Vec<CompletionItem>)
    ensures
        item_views(r@) == filtered(item_views(items@), filter@),
{
    if filter.is_empty() {
        return rank_items(&items, false);
    }
    let ghost all = item_views(items@);
    let mut kept: Vec<CompletionItem> = Vec::new();
    let mut i: usize = 0;
    assert(item_views(kept@) =~= scored(all.take(0), filter@));
    while i < items.len()
        invariant
            all == item_views(items@),
            i <= items@.len(),
            item_views(kept@) == scored(all.take(i as int), filter@),
        decreases items.len() - i,
    {
        let item = &items[i];
        let by_value = fuzzy_score(filter, item.value.as_str());
        let by_display = fuzzy_score(filter, item.display.as_str());
        let v: usize = by_value.unwrap_or(0);
        let d: usize = by_display.unwrap_or(0);
        let score: usize = if v >= d {
            v
        } else {
            d
        };
        let ghost before = kept@;
        if by_value.is_some() || by_display.is_some() {
            let mut copy = item.clone();
            copy.score = score;
            kept.push(copy);
            assert(item_views(kept@) =~= item_views(before).push(copy@));
        }
        i += 1;
        proof {
            assert(all.take(i as int).drop_last() =~= all.take(i - 1));
            assert(all.take(i as int).last() == items@[i - 1]@);
        }
    }
    assert(all.take(items@.len() as int) =~= all);
    rank_items(&kept, true)
}

// ── Completion of what is being typed ────────────────────────────────────────

/// The entry of a command's name.
pub open spec fn name_item(cmd: Command) -> CompletionItemView {
    described_item(cmd.name_view(), "/"@ + cmd.name_view(), cmd.description_view())
}

/// `list` holds every command of a registry once.
pub open spec fn lists(list: Seq<Command>, registry: Map<Seq<char>, Command>) -> bool {
    names_differ(list) && by_name(list) == registry
}

/// The completions for an input, where `list` lists the commands.
pub open spec fn completions_for(
    parsed: ParsedView,
    list: Seq<Command>,
    ctx: ContextView,
) -> Seq<CompletionItemView> {
    match parsed {
        ParsedView::PartialCommand { partial } => filtered(
            list.map_values(|c: Command| name_item(c)),
            partial,
        ),
        ParsedView::CompletingArgs { command, arg_index, partial } => {
            let registry = by_name(list);
            if registry.contains_key(command) {
                registry[command].completions(arg_index, partial, ctx)
            } else {
                seq![]
            }
        },
        _ => seq![],
    }
}

/// Completes the input with what a registry knows.
pub struct CompletionManager {
    registry: Arc<CommandRegistry>,
}

impl CompletionManager {
    /// The commands that are known.
    pub closed spec fn commands(&self) -> Map<Seq<char>, Command> {
        self.registry@
    }

    /// A manager for the commands of a registry.
    pub fn new(registry: Arc<CommandRegistry>) -> (r: CompletionManager)
        ensures
            r.commands() == registry@,
    {
        CompletionManager { registry }
    }

    /// The completions for an input: command names while a name is typed, and
    /// what the command itself offers while an argument is typed, in the order
    /// in which the command offers it.
    pub fn get_completions(&self, parsed: &ParsedCommand, ctx: &CommandContext) -> (r: Vec<
        CompletionItem,
    >)
        ensures
            forall|list: Seq<Command>| #[trigger]
                lists(list, self.commands()) ==> item_views(r@) == completions_for(
                    parsed@,
                    list,
                    ctx@,
                ),
            exists|list: Seq<Command>| lists(list, self.commands()),
    {
        let r = self.find_completions(parsed, ctx);
        proof {
            let known = choose|list: Seq<Command>| #[trigger]
                lists(list, self.commands()) && item_views(r@) == completions_for(
                    parsed@,
                    list,
                    ctx@,
                );
            assert forall|list: Seq<Command>| #[trigger]
                lists(list, self.commands()) implies item_views(r@) == completions_for(
                parsed@,
                list,
                ctx@,
            ) by {
                law_completions_do_not_depend_on_listing(
                    parsed@,
                    known,
                    list,
                    self.commands(),
                    ctx@,
                );
            }
        }
        r
    }

    fn find_completions(&self, parsed: &ParsedCommand, ctx: &CommandContext) -> (r: Vec<
        CompletionItem,
    >)
        ensures
            exists|list: Seq<Command>| #[trigger]
                lists(list, self.commands()) && item_views(r@) == completions_for(
                    parsed@,
                    list,
                    ctx@,
                ),
    {
        let list = self.registry.iter();
        assert(lists(list@, self.commands()));
        match parsed {
            ParsedCommand::PartialCommand { partial } => {
                let ghost f = |c: Command| name_item(c);
                let mut items: Vec<CompletionItem> = Vec::new();
                let mut i: usize = 0;
                while i < list.len()
                    invariant
                        f == (|c: Command| name_item(c)),
                        i <= list@.len(),
                        items@.len() == i,
                        forall|k: int| 0 <= k < i ==> (#[trigger] items@[k])@ == name_item(list@[k]),
                    decreases list.len() - i,
                {
                    let mut display = "/".to_owned();
                    display.append(list[i].name());
                    items.push(
                        CompletionItem::with_desc(
                            list[i].name(),
                            display.as_str(),
                            list[i].description(),
                        ),
                    );
                    i += 1;
                }
                assert(item_views(items@) =~= list@.map_values(f));
                filter_and_rank(items, partial.as_str())
            },
            ParsedCommand::CompletingArgs { command, arg_index, partial } => {
                match self.registry.get(command.as_str()) {
                    Some(cmd) => cmd.complete(*arg_index, partial.as_str(), ctx),
                    None => {
                        let r: Vec<CompletionItem> = Vec::new();
                        assert(item_views(r@) =~= seq![]);
                        r
                    },
                }
            },
            _ => {
                let r: Vec<CompletionItem> = Vec::new();
                assert(item_views(r@) =~= seq![]);
                r
            },
        }
    }
}

// ── Laws ─────────────────────────────────────────────────────────────────────

/// `at` shows where the characters of `pattern` stand in `candidate`, in order,
/// from index `from` on.
pub open spec fn occurs_at(pattern: Seq<char>, candidate: Seq<char>, from: int, at: Seq<int>) -> bool {
    &&& at.len() == pattern.len()
    &&& forall|i: int|
        0 <= i < at.len() ==> from <= #[trigger] at[i] < candidate.len() && candidate[at[i]]
            == pattern[i]
    &&& forall|i: int, j: int| 0 <= i < j < at.len() ==> #[trigger] at[i] < #[trigger] at[j]
}

proof fn lemma_position(s: Seq<char>, from: int, c: char)
    requires
        0 <= from,
    ensures
        match position(s, from, c) {
            Some(i) => from <= i < s.len() && s[i] == c && forall|k: int|
                from <= k < i ==> #[trigger] s[k] != c,
            None => forall|k: int| from <= k < s.len() ==> #[trigger] s[k] != c,
        },
    decreases s.len() - from,
{
    if from < s.len() && s[from] != c {
        lemma_position(s, from + 1, c);
    }
}

proof fn lemma_match_is_found(
    pattern: Seq<char>,
    candidate: Seq<char>,
    from: int,
    later: bool,
    at: Seq<int>,
)
    requires
        0 <= from,
        occurs_at(pattern, candidate, from, at),
    ensures
        points_from(pattern, candidate, from, later) is Some,
    decreases pattern.len(),
{
    if pattern.len() > 0 {
        lemma_position(candidate, from, pattern[0]);
        assert(candidate[at[0]] == pattern[0]);
        let idx = position(candidate, from, pattern[0]).unwrap();
        let rest = at.skip(1);
        assert forall|i: int| 0 <= i < rest.len() implies idx + 1 <= #[trigger] rest[i]
            < candidate.len() && candidate[rest[i]] == pattern.skip(1)[i] by {
            assert(rest[i] == at[i + 1]);
            assert(at[0] < at[i + 1]);
            assert(candidate[at[i + 1]] == pattern[i + 1]);
        }
        assert forall|i: int, j: int| 0 <= i < j < rest.len() implies #[trigger] rest[i]
            < #[trigger] rest[j] by {
            assert(at[i + 1] < at[j + 1]);
        }
        lemma_match_is_found(pattern.skip(1), candidate, idx + 1, true, rest);
    }
}

proof fn lemma_found_is_match(pattern: Seq<char>, candidate: Seq<char>, from: int, later: bool) -> (at:
    Seq<int>)
    requires
        0 <= from,
        points_from(pattern, candidate, from, later) is Some,
    ensures
        occurs_at(pattern, candidate, from, at),
    decreases pattern.len(),
{
    if pattern.len() == 0 {
        seq![]
    } else {
        lemma_position(candidate, from, pattern[0]);
        let idx = position(candidate, from, pattern[0]).unwrap();
        let rest = lemma_found_is_match(pattern.skip(1), candidate, idx + 1, true);
        let at = seq![idx] + rest;
        assert forall|i: int| 0 <= i < at.len() implies from <= #[trigger] at[i] < candidate.len()
            && candidate[at[i]] == pattern[i] by {
            if i > 0 {
                assert(at[i] == rest[i - 1]);
                assert(pattern.skip(1)[i - 1] == pattern[i]);
            }
        }
        assert forall|i: int, j: int| 0 <= i < j < at.len() implies #[trigger] at[i]
            < #[trigger] at[j] by {
            assert(at[j] == rest[j - 1]);
            if i > 0 {
                assert(at[i] == rest[i - 1]);
            }
        }
        at
    }
}

/// A pattern matches a candidate exactly when all its characters occur in the
/// candidate in order, without regard to case.
pub proof fn law_fuzzy_matches_subsequences(pattern: Seq<char>, candidate: Seq<char>)
    requires
        pattern.len() > 0,
    ensures
        fuzzy(pattern, candidate) is Some <==> exists|at: Seq<int>|
            occurs_at(lowercase(pattern), lowercase(candidate), 0, at),
{
    let p = lowercase(pattern);
    let c = lowercase(candidate);
    if fuzzy(pattern, candidate) is Some {
        let at = lemma_found_is_match(p, c, 0, false);
        assert(occurs_at(p, c, 0, at));
    }
    if exists|at: Seq<int>| occurs_at(p, c, 0, at) {
        let at = choose|at: Seq<int>| occurs_at(p, c, 0, at);
        lemma_match_is_found(p, c, 0, false, at);
    }
}

/// An item with the score that a filter gives it.
pub open spec fn with_score(filter: Seq<char>, item: CompletionItemView) -> CompletionItemView {
    CompletionItemView { score: item_score(filter, item), ..item }
}

proof fn lemma_scored_members(
    items: Seq<CompletionItemView>,
    filter: Seq<char>,
    x: CompletionItemView,
)
    ensures
        scored(items, filter).contains(x) <==> exists|k: int|
            0 <= k < items.len() && item_matches(filter, #[trigger] items[k]) && x == with_score(
                filter,
                items[k],
            ),
    decreases items.len(),
{
    if items.len() > 0 {
        let init = items.drop_last();
        lemma_scored_members(init, filter, x);
        let all = scored(items, filter);
        let part = scored(init, filter);
        if all.contains(x) {
            let i = choose|i: int| 0 <= i < all.len() && all[i] == x;
            if i < part.len() {
                assert(part.contains(x)) by {
                    assert(part[i] == x);
                }
                let k = choose|k: int|
                    0 <= k < init.len() && item_matches(filter, #[trigger] init[k]) && x
                        == with_score(filter, init[k]);
                assert(items[k] == init[k]);
            } else {
                assert(items[items.len() - 1] == items.last());
            }
        }
        if exists|k: int|
            0 <= k < items.len() && item_matches(filter, #[trigger] items[k]) && x == with_score(
                filter,
                items[k],
            ) {
            let k = choose|k: int|
                0 <= k < items.len() && item_matches(filter, #[trigger] items[k]) && x
                    == with_score(filter, items[k]);
            if k < init.len() {
                assert(init[k] == items[k]);
                assert(part.contains(x));
                let i = choose|i: int| 0 <= i < part.len() && part[i] == x;
                assert(all[i] == x);
            } else {
                assert(all[part.len() as int] == x);
            }
        }
    }
}

proof fn lemma_ranked_members(
    items: Seq<CompletionItemView>,
    by_score: bool,
    x: CompletionItemView,
)
    ensures
        ranked(items, by_score).len() == items.len(),
        ranked(items, by_score).contains(x) <==> items.contains(x),
{
    let keys = items.map_values(|i: CompletionItemView| rank_key(i, by_score));
    let order = stable_order(keys);
    crate::order::law_stable_order(keys);
    let out = ranked(items, by_score);
    if out.contains(x) {
        let i = choose|i: int| 0 <= i < out.len() && out[i] == x;
        assert(0 <= order[i] < items.len());
        assert(items[order[i]] == x);
    }
    if items.contains(x) {
        let k = choose|k: int| 0 <= k < items.len() && items[k] == x;
        crate::order::lemma_covers_hits(order, items.len(), k);
        let i = choose|i: int| 0 <= i < order.len() && #[trigger] order[i] == k;
        assert(out[i] == x);
    }
}

/// Filtering keeps exactly the items that match, each with its score.
pub proof fn law_filter_keeps_matches(
    items: Seq<CompletionItemView>,
    filter: Seq<char>,
    x: CompletionItemView,
)
    requires
        filter.len() > 0,
    ensures
        filtered(items, filter).contains(x) <==> exists|k: int|
            0 <= k < items.len() && item_matches(filter, #[trigger] items[k]) && x == with_score(
                filter,
                items[k],
            ),
{
    lemma_scored_members(items, filter, x);
    lemma_ranked_members(scored(items, filter), true, x);
}

/// An empty filter keeps every item as it is.
pub proof fn law_empty_filter_keeps_all(items: Seq<CompletionItemView>, x: CompletionItemView)
    ensures
        filtered(items, seq![]).len() == items.len(),
        filtered(items, seq![]).contains(x) <==> items.contains(x),
{
    lemma_ranked_members(items, false, x);
}

/// A filtered list is sorted: better scores first, and by value among equals.
/// With an empty filter it is sorted by value.
pub proof fn law_filter_ranks(items: Seq<CompletionItemView>, filter: Seq<char>, i: int, j: int)
    requires
        0 <= i < j < filtered(items, filter).len(),
    ensures
        ({
            let a = filtered(items, filter)[i];
            let b = filtered(items, filter)[j];
            if filter.len() == 0 {
                !crate::order::lex_less(b.value, a.value)
            } else {
                a.score > b.score || (a.score == b.score && !crate::order::lex_less(
                    b.value,
                    a.value,
                ))
            }
        }),
{
    let by_score = filter.len() > 0;
    let list = if by_score {
        scored(items, filter)
    } else {
        items
    };
    let keys = list.map_values(|i: CompletionItemView| rank_key(i, by_score));
    let order = stable_order(keys);
    crate::order::law_stable_order(keys);
    assert(!crate::order::key_less(keys[order[j]], keys[order[i]]));
    crate::order::lemma_lex_irreflexive(filtered(items, filter)[i].value);
}

proof fn lemma_scored_is_filter(items: Seq<CompletionItemView>, filter: Seq<char>)
    ensures
        scored(items, filter) == items.filter(
            |x: CompletionItemView| item_matches(filter, x),
        ).map_values(|x: CompletionItemView| with_score(filter, x)),
    decreases items.len(),
{
    reveal(Seq::filter);
    let keep = |x: CompletionItemView| item_matches(filter, x);
    let score = |x: CompletionItemView| with_score(filter, x);
    if items.len() > 0 {
        let init = items.drop_last();
        lemma_scored_is_filter(init, filter);
        if item_matches(filter, items.last()) {
            assert(items.filter(keep) == init.filter(keep).push(items.last()));
            assert(items.filter(keep).map_values(score) =~= init.filter(keep).map_values(
                score,
            ).push(score(items.last())));
        } else {
            assert(items.filter(keep) == init.filter(keep));
        }
    } else {
        assert(scored(items, filter) =~= items.filter(keep).map_values(score));
    }
}

/// Filtering by a text gives exactly the items whose value or label matches,
/// each as often as it came, with the larger of its two scores.
pub proof fn law_filter_gives_the_matches(items: Seq<CompletionItemView>, filter: Seq<char>)
    requires
        filter.len() > 0,
    ensures
        filtered(items, filter).to_multiset() == items.filter(
            |x: CompletionItemView| item_matches(filter, x),
        ).map_values(|x: CompletionItemView| with_score(filter, x)).to_multiset(),
{
    let list = scored(items, filter);
    let keys = list.map_values(|i: CompletionItemView| rank_key(i, true));
    crate::order::law_stable_order(keys);
    crate::order::lemma_order_keeps_all(stable_order(keys), list);
    lemma_scored_is_filter(items, filter);
}

proof fn lemma_ranked_stays(items: Seq<CompletionItemView>, by_score: bool)
    ensures
        ranked(ranked(items, by_score), by_score) == ranked(items, by_score),
{
    let f = |i: CompletionItemView| rank_key(i, by_score);
    let keys = items.map_values(f);
    let order = stable_order(keys);
    crate::order::law_stable_order(keys);
    let out = ranked(items, by_score);
    let sorted = out.map_values(f);
    assert forall|i: int, j: int| 0 <= i < j < sorted.len() implies !key_less(
        #[trigger] sorted[j],
        #[trigger] sorted[i],
    ) by {
        assert(0 <= order[i] < items.len() && 0 <= order[j] < items.len());
        assert(sorted[i] == keys[order[i]] && sorted[j] == keys[order[j]]);
    }
    crate::order::lemma_sorted_stays(sorted);
    assert(ranked(out, by_score) =~= out);
}

proof fn lemma_scored_stays(items: Seq<CompletionItemView>, filter: Seq<char>)
    requires
        forall|k: int|
            0 <= k < items.len() ==> item_matches(filter, #[trigger] items[k]) && with_score(
                filter,
                items[k],
            ) == items[k],
    ensures
        scored(items, filter) == items,
    decreases items.len(),
{
    if items.len() > 0 {
        let init = items.drop_last();
        assert forall|k: int| 0 <= k < init.len() implies item_matches(filter, #[trigger] init[k])
            && with_score(filter, init[k]) == init[k] by {
            assert(init[k] == items[k]);
        }
        lemma_scored_stays(init, filter);
        assert(items[items.len() - 1] == items.last());
        assert(items =~= init.push(items.last()));
    } else {
        assert(scored(items, filter) =~= items);
    }
}

/// Filtering a filtered list by the same text again changes nothing.
pub proof fn law_filter_twice_is_once(items: Seq<CompletionItemView>, filter: Seq<char>)
    ensures
        filtered(filtered(items, filter), filter) == filtered(items, filter),
{
    if filter.len() == 0 {
        lemma_ranked_stays(items, false);
    } else {
        let out = filtered(items, filter);
        assert forall|k: int| 0 <= k < out.len() implies item_matches(filter, #[trigger] out[k])
            && with_score(filter, out[k]) == out[k] by {
            assert(out.contains(out[k]));
            law_filter_keeps_matches(items, filter, out[k]);
            let n = choose|n: int|
                0 <= n < items.len() && item_matches(filter, #[trigger] items[n]) && out[k]
                    == with_score(filter, items[n]);
            assert(out[k].value == items[n].value && out[k].display == items[n].display);
        }
        lemma_scored_stays(out, filter);
        lemma_ranked_stays(scored(items, filter), true);
    }
}

// ── The order of the commands ────────────────────────────────────────────────

/// Every item comes before the later ones.
spec fn strictly_ranked(items: Seq<CompletionItemView>, by_score: bool) -> bool {
    forall|i: int, j: int|
        0 <= i < j < items.len() ==> key_less(
            rank_key(#[trigger] items[i], by_score),
            rank_key(#[trigger] items[j], by_score),
        )
}

/// No two items have the same value.
spec fn values_differ(items: Seq<CompletionItemView>) -> bool {
    forall|i: int, j: int|
        0 <= i < j < items.len() ==> (#[trigger] items[i]).value != (#[trigger] items[j]).value
}

/// Two lists hold the same items.
spec fn same_items(a: Seq<CompletionItemView>, b: Seq<CompletionItemView>) -> bool {
    forall|x: CompletionItemView| #[trigger] a.contains(x) <==> b.contains(x)
}

proof fn lemma_rest(items: Seq<CompletionItemView>, by_score: bool, x: CompletionItemView)
    requires
        strictly_ranked(items, by_score),
        items.len() > 0,
    ensures
        strictly_ranked(items.skip(1), by_score),
        items.skip(1).contains(x) <==> items.contains(x) && x != items[0],
{
    let rest = items.skip(1);
    assert forall|i: int, j: int| 0 <= i < j < rest.len() implies key_less(
        rank_key(#[trigger] rest[i], by_score),
        rank_key(#[trigger] rest[j], by_score),
    ) by {
        assert(rest[i] == items[i + 1] && rest[j] == items[j + 1]);
    }
    if rest.contains(x) {
        let i = choose|i: int| 0 <= i < rest.len() && rest[i] == x;
        assert(items[i + 1] == x);
        assert(key_less(rank_key(items[0], by_score), rank_key(items[i + 1], by_score)));
        lemma_key_total(rank_key(items[0], by_score), rank_key(items[i + 1], by_score));
    }
    if items.contains(x) && x != items[0] {
        let i = choose|i: int| 0 <= i < items.len() && items[i] == x;
        assert(rest[i - 1] == x);
    }
}

/// Ranked lists of the same items are the same.
proof fn lemma_ranking_is_unique(
    a: Seq<CompletionItemView>,
    b: Seq<CompletionItemView>,
    by_score: bool,
)
    requires
        strictly_ranked(a, by_score),
        strictly_ranked(b, by_score),
        same_items(a, b),
    ensures
        a == b,
    decreases a.len(),
{
    if a.len() == 0 {
        if b.len() > 0 {
            assert(b.contains(b[0]));
            assert(a.contains(b[0]));
        }
        assert(a =~= b);
    } else {
        assert(a.contains(a[0]));
        assert(b.contains(a[0]));
        let j = choose|j: int| 0 <= j < b.len() && b[j] == a[0];
        assert(b.contains(b[0]));
        assert(a.contains(b[0]));
        let i = choose|i: int| 0 <= i < a.len() && a[i] == b[0];
        if i > 0 && j > 0 {
            assert(key_less(rank_key(a[0], by_score), rank_key(a[i], by_score)));
            assert(key_less(rank_key(b[0], by_score), rank_key(b[j], by_score)));
            lemma_key_total(rank_key(a[0], by_score), rank_key(b[0], by_score));
        }
        assert(a[0] == b[0]);
        assert forall|x: CompletionItemView| #[trigger]
            a.skip(1).contains(x) <==> b.skip(1).contains(x) by {
            lemma_rest(a, by_score, x);
            lemma_rest(b, by_score, x);
        }
        lemma_rest(a, by_score, a[0]);
        lemma_rest(b, by_score, b[0]);
        lemma_ranking_is_unique(a.skip(1), b.skip(1), by_score);
        assert(a =~= seq![a[0]] + a.skip(1));
        assert(b =~= seq![b[0]] + b.skip(1));
    }
}

proof fn lemma_ranked_strictly(items: Seq<CompletionItemView>, by_score: bool)
    requires
        values_differ(items),
    ensures
        strictly_ranked(ranked(items, by_score), by_score),
{
    let keys = items.map_values(|i: CompletionItemView| rank_key(i, by_score));
    let order = stable_order(keys);
    crate::order::law_stable_order(keys);
    let out = ranked(items, by_score);
    assert forall|i: int, j: int| 0 <= i < j < out.len() implies key_less(
        rank_key(#[trigger] out[i], by_score),
        rank_key(#[trigger] out[j], by_score),
    ) by {
        let (p, q) = (order[i], order[j]);
        assert(0 <= p < items.len() && 0 <= q < items.len() && p != q);
        assert(out[i] == items[p] && out[j] == items[q]);
        assert(keys[p] == rank_key(items[p], by_score));
        assert(keys[q] == rank_key(items[q], by_score));
        assert(!key_less(keys[q], keys[p]));
        if p < q {
            assert(items[p].value != items[q].value);
        } else {
            assert(items[q].value != items[p].value);
        }
        lemma_key_total(keys[p], keys[q]);
    }
}

proof fn lemma_scored_values(items: Seq<CompletionItemView>, filter: Seq<char>)
    requires
        values_differ(items),
    ensures
        values_differ(scored(items, filter)),
    decreases items.len(),
{
    if items.len() > 0 {
        let init = items.drop_last();
        assert forall|i: int, j: int| 0 <= i < j < init.len() implies (#[trigger] init[i]).value
            != (#[trigger] init[j]).value by {
            assert(items[i].value != items[j].value);
        }
        lemma_scored_values(init, filter);
        let part = scored(init, filter);
        let all = scored(items, filter);
        assert forall|i: int, j: int| 0 <= i < j < all.len() implies (#[trigger] all[i]).value
            != (#[trigger] all[j]).value by {
            if j < part.len() {
                assert(part[i].value != part[j].value);
            } else {
                assert(part.contains(part[i]));
                lemma_scored_members(init, filter, part[i]);
                let k = choose|k: int|
                    0 <= k < init.len() && item_matches(filter, #[trigger] init[k]) && part[i]
                        == with_score(filter, init[k]);
                assert(items[k].value != items[items.len() - 1].value);
            }
        }
    }
}

/// Filtering does not depend on the order of the items, where no two have the
/// same value.
pub proof fn law_filter_forgets_the_order(
    a: Seq<CompletionItemView>,
    b: Seq<CompletionItemView>,
    filter: Seq<char>,
)
    requires
        forall|i: int, j: int|
            0 <= i < j < a.len() ==> (#[trigger] a[i]).value != (#[trigger] a[j]).value,
        forall|i: int, j: int|
            0 <= i < j < b.len() ==> (#[trigger] b[i]).value != (#[trigger] b[j]).value,
        forall|x: CompletionItemView| #[trigger] a.contains(x) <==> b.contains(x),
    ensures
        filtered(a, filter) == filtered(b, filter),
{
    if filter.len() == 0 {
        lemma_ranked_strictly(a, false);
        lemma_ranked_strictly(b, false);
        assert forall|x: CompletionItemView| #[trigger]
            ranked(a, false).contains(x) <==> ranked(b, false).contains(x) by {
            lemma_ranked_members(a, false, x);
            lemma_ranked_members(b, false, x);
        }
        lemma_ranking_is_unique(ranked(a, false), ranked(b, false), false);
    } else {
        let (sa, sb) = (scored(a, filter), scored(b, filter));
        lemma_scored_values(a, filter);
        lemma_scored_values(b, filter);
        lemma_ranked_strictly(sa, true);
        lemma_ranked_strictly(sb, true);
        assert forall|x: CompletionItemView| #[trigger]
            ranked(sa, true).contains(x) <==> ranked(sb, true).contains(x) by {
            lemma_ranked_members(sa, true, x);
            lemma_ranked_members(sb, true, x);
            lemma_scored_members(a, filter, x);
            lemma_scored_members(b, filter, x);
            if sa.contains(x) {
                let k = choose|k: int|
                    0 <= k < a.len() && item_matches(filter, #[trigger] a[k]) && x == with_score(
                        filter,
                        a[k],
                    );
                assert(a.contains(a[k]));
                let n = choose|n: int| 0 <= n < b.len() && b[n] == a[k];
                assert(item_matches(filter, b[n]));
            }
            if sb.contains(x) {
                let k = choose|k: int|
                    0 <= k < b.len() && item_matches(filter, #[trigger] b[k]) && x == with_score(
                        filter,
                        b[k],
                    );
                assert(b.contains(b[k]));
                assert(a.contains(b[k]));
                let n = choose|n: int| 0 <= n < a.len() && a[n] == b[k];
                assert(item_matches(filter, a[n]));
            }
        }
        lemma_ranking_is_unique(ranked(sa, true), ranked(sb, true), true);
    }
}

proof fn lemma_listed(a: Seq<Command>, b: Seq<Command>, x: CompletionItemView)
    requires
        names_differ(a),
        by_name(a) == by_name(b),
        a.map_values(|c: Command| name_item(c)).contains(x),
    ensures
        b.map_values(|c: Command| name_item(c)).contains(x),
{
    let f = |c: Command| name_item(c);
    let items = a.map_values(f);
    let i = choose|i: int| 0 <= i < items.len() && items[i] == x;
    let name = a[i].name_view();
    lemma_by_name(a, i);
    lemma_by_name_only(b, name);
    let k = choose|k: int|
        0 <= k < b.len() && (#[trigger] b[k]).name_view() == name && by_name(b)[name] == b[k];
    assert(b.map_values(f)[k] == x);
}

/// The completions for an input do not depend on the order in which the commands
/// are listed.
pub proof fn law_completions_do_not_depend_on_listing(
    parsed: ParsedView,
    a: Seq<Command>,
    b: Seq<Command>,
    registry: Map<Seq<char>, Command>,
    ctx: ContextView,
)
    requires
        lists(a, registry),
        lists(b, registry),
    ensures
        completions_for(parsed, a, ctx) == completions_for(parsed, b, ctx),
{
    if let ParsedView::PartialCommand { partial } = parsed {
        let f = |c: Command| name_item(c);
        let ia = a.map_values(f);
        let ib = b.map_values(f);
        assert forall|i: int, j: int| 0 <= i < j < ia.len() implies (#[trigger] ia[i]).value != (
        #[trigger] ia[j]).value by {
            assert(a[i].name_view() != a[j].name_view());
        }
        assert forall|i: int, j: int| 0 <= i < j < ib.len() implies (#[trigger] ib[i]).value != (
        #[trigger] ib[j]).value by {
            assert(b[i].name_view() != b[j].name_view());
        }
        assert forall|x: CompletionItemView| #[trigger] ia.contains(x) <==> ib.contains(x) by {
            if ia.contains(x) {
                lemma_listed(a, b, x);
            }
            if ib.contains(x) {
                lemma_listed(b, a, x);
            }
        }
        law_filter_forgets_the_order(ia, ib, partial);
    }
}

} // verus!
