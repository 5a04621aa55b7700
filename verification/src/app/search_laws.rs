//! What the search and pasting promise: which lines are found and shown, and
//! what of a paste becomes text and what an attachment.

use vstd::prelude::*;

use crate::app::chat_state::ChatView;
use crate::app::dispatch::{Action, SearchAction};
use crate::app::editing::lemma_offset;
use crate::app::front::{AppView, EffectView};
use crate::app::input_state::{is_image, AttachmentView, InputView};
use crate::app::steps_paste::{
    at_home, brought, names_image, normalised, paste_parts, path_in, PastedView,
};
use crate::app::steps_search::PagerAction;
use crate::app::ui_state::{FocusPane, UiView};
use crate::chat::search::{
    found, law_hits_are_the_matching_lines, regex_compiles, regex_finds, SearchView,
};
use crate::style::SpanView;
use crate::text::{byte_len, lowercase, trim};

verus! {

/// A query is found in a text, without regard to case: as a regular expression,
/// or as it stands where it is none.
pub open spec fn finds(query: Seq<char>, text: Seq<char>) -> bool {
    let pattern = seq!['(', '?', 'i', ')'] + query;
    if regex_compiles(pattern) {
        regex_finds(pattern, text)
    } else {
        exists|i: int|
            0 <= i <= lowercase(text).len() - lowercase(query).len() && #[trigger] lowercase(
                text,
            ).subrange(i, i + lowercase(query).len()) == lowercase(query)
    }
}

proof fn lemma_finds(query: Seq<char>, text: Seq<char>)
    ensures
        crate::chat::search::span_found(query, text) == finds(query, text),
{
    reveal_strlit("(?i)");
    assert("(?i)"@ + query =~= seq!['(', '?', 'i', ')'] + query);
    let s = lowercase(text);
    let p = lowercase(query);
    if !regex_compiles("(?i)"@ + query) {
        if crate::text::has_part(s, p) {
            let i = choose|i: int|
                0 <= i <= s.len() - p.len() && #[trigger] s.skip(i).take(p.len() as int) == p;
            assert(s.skip(i).take(p.len() as int) =~= s.subrange(i, i + p.len()));
        }
        if finds(query, text) {
            let i = choose|i: int|
                0 <= i <= s.len() - p.len() && #[trigger] s.subrange(i, i + p.len()) == p;
            assert(s.skip(i).take(p.len() as int) =~= s.subrange(i, i + p.len()));
        }
    }
}

// ── The search ───────────────────────────────────────────────────────────────

/// The matches are the lines in which the query is found, each once and in
/// order; without a query there are none. The current one is among them.
pub proof fn law_query_is_found(v: SearchView, lines: Seq<Seq<SpanView>>, l: usize)
    requires
        lines.len() <= usize::MAX,
        l < lines.len(),
    ensures
        ({
            let r = v.updated(lines);
            &&& r.active == v.active
            &&& r.query == v.query
            &&& v.query.len() == 0 ==> r.matches.len() == 0
            &&& v.query.len() > 0 ==> {
                &&& r.matches.contains(l) <==> exists|k: int|
                    0 <= k < lines[l as int].len() && finds(
                        v.query,
                        (#[trigger] lines[l as int][k]).content,
                    )
                &&& forall|i: int, j: int|
                    0 <= i < j < r.matches.len() ==> #[trigger] r.matches[i] < #[trigger] r.matches[j]
                &&& forall|i: int| 0 <= i < r.matches.len() ==> #[trigger] r.matches[i] < lines.len()
                &&& v.current < r.matches.len() ==> r.current == v.current
                &&& v.current >= r.matches.len() ==> r.current == 0
            }
        }),
{
    let hits = found(lines, v.query);
    law_hits_are_the_matching_lines(hits, l);
    let row = hits[l as int];
    assert(row.len() == lines[l as int].len());
    assert forall|k: int| 0 <= k < row.len() implies #[trigger] row[k] == finds(
        v.query,
        lines[l as int][k].content,
    ) by {
        lemma_finds(v.query, lines[l as int][k].content);
    }
    if row.contains(true) {
        let k = choose|k: int| 0 <= k < row.len() && row[k] == true;
        assert(finds(v.query, lines[l as int][k].content));
    }
    if exists|k: int|
        0 <= k < lines[l as int].len() && finds(v.query, (#[trigger] lines[l as int][k]).content) {
        let k = choose|k: int|
            0 <= k < lines[l as int].len() && finds(
                v.query,
                (#[trigger] lines[l as int][k]).content,
            );
        assert(row[k] == true);
    }
}

/// A search begins empty, in the chat.
#[verifier::rlimit(40)]
pub proof fn law_search_begins_empty(v: AppView)
    ensures
        ({
            let r = v.after(Action::Search(SearchAction::Open));
            &&& r.app.ui.search == SearchView {
                active: true,
                query: seq![],
                matches: seq![],
                current: 0,
                regex: None,
            }
            &&& r.app.ui.focus == FocusPane::Chat
            &&& r.app.chat.segments == v.chat.segments
            &&& r.app.input == v.input
            &&& r.effects.len() == 0
        }),
{
    reveal(AppView::after);
    reveal(AppView::search_step);
}

/// What is typed comes behind the query, and the last character of it is taken
/// back; the lines of the chat are searched anew. In the inspector its lines are
/// searched.
#[verifier::rlimit(40)]
pub proof fn law_query_is_typed(v: AppView, c: char)
    ensures
        ({
            let r = v.after(Action::Search(SearchAction::Input(c)));
            let back = v.after(Action::Search(SearchAction::Backspace));
            let longer = SearchView { query: v.ui.search.query.push(c), ..v.ui.search };
            let shorter = SearchView {
                query: v.ui.search.query.subrange(0, v.ui.search.query.len() - 1),
                ..v.ui.search
            };
            &&& v.ui.inspector_open ==> r.app.ui.search == longer && r.effects == seq![
                EffectView::SearchInspector,
            ]
            &&& !v.ui.inspector_open ==> r.app.ui.search == longer.updated(v.chat.lines)
            &&& v.ui.search.query.len() > 0 && v.ui.inspector_open ==> back.app.ui.search
                == shorter && back.effects == seq![EffectView::SearchInspector]
            &&& v.ui.search.query.len() > 0 && !v.ui.inspector_open ==> back.app.ui.search
                == shorter.updated(v.chat.lines)
            &&& r.app.chat.segments == v.chat.segments
            &&& back.app.chat == v.chat
        }),
{
    reveal(AppView::after);
    reveal(AppView::search_step);
    if v.ui.inspector_open {
        assert(v.after(Action::Search(SearchAction::Input(c))).effects =~= seq![
            EffectView::SearchInspector,
        ]);
        assert(v.after(Action::Search(SearchAction::Backspace)).effects =~= seq![
            EffectView::SearchInspector,
        ]);
    }
    if v.ui.search.query.len() > 0 {
        assert(v.ui.search.query.drop_last() =~= v.ui.search.query.subrange(
            0,
            v.ui.search.query.len() - 1,
        ));
    }
}

/// While a query is typed the chat goes to the current match, and the pager with
/// it where it is open.
#[verifier::rlimit(40)]
pub proof fn law_typing_shows_the_match(v: AppView, c: char)
    requires
        !v.ui.inspector_open,
    ensures
        ({
            let r = v.after(Action::Search(SearchAction::Input(c)));
            let s = r.app.ui.search;
            &&& s.current < s.matches.len() ==> {
                &&& r.app.chat == ChatView {
                    scroll_offset: (s.matches[s.current as int] as int % 0x10000) as u16,
                    ..v.chat
                }
                &&& v.ui.pager_open ==> r.effects == seq![
                    EffectView::PagerTo(s.matches[s.current as int]),
                ]
                &&& !v.ui.pager_open ==> r.effects.len() == 0
            }
            &&& s.current >= s.matches.len() ==> r.app.chat == v.chat && r.effects.len() == 0
        }),
{
    reveal(AppView::after);
    reveal(AppView::search_step);
    let r = v.after(Action::Search(SearchAction::Input(c)));
    let s = r.app.ui.search;
    if s.current < s.matches.len() && v.ui.pager_open {
        assert(r.effects =~= seq![EffectView::PagerTo(s.matches[s.current as int])]);
    }
}

/// The matches are gone through in order, and from the last to the first; the
/// match before is the other way round. What shows the conversation goes there.
#[verifier::rlimit(40)]
pub proof fn law_matches_are_gone_through(v: AppView)
    requires
        v.ui.search.current < v.ui.search.matches.len() <= usize::MAX,
    ensures
        ({
            let s = v.ui.search;
            let n = s.matches.len();
            let next = v.after(Action::Search(SearchAction::NextMatch));
            let prev = v.after(Action::Search(SearchAction::PrevMatch));
            let at = |r: crate::app::front::StepView| r.app.ui.search.matches[r.app.ui.search.current as int];
            &&& s.current + 1 < n ==> next.app.ui.search.current == s.current + 1
            &&& s.current + 1 == n ==> next.app.ui.search.current == 0
            &&& s.current > 0 ==> prev.app.ui.search.current == s.current - 1
            &&& s.current == 0 ==> prev.app.ui.search.current == n - 1
            &&& next.app.ui.search == SearchView { current: next.app.ui.search.current, ..s }
            &&& prev.app.ui.search == SearchView { current: prev.app.ui.search.current, ..s }
            &&& v.ui.inspector_open ==> {
                &&& next.effects == seq![EffectView::InspectorTo(at(next))]
                &&& prev.effects == seq![EffectView::InspectorTo(at(prev))]
                &&& next.app.chat == v.chat
                &&& prev.app.chat == v.chat
            }
            &&& !v.ui.inspector_open ==> {
                &&& next.app.chat.scroll_offset == at(next) as int % 0x10000
                &&& prev.app.chat.scroll_offset == at(prev) as int % 0x10000
                &&& next.app.chat.segments == v.chat.segments
            }
            &&& !v.ui.inspector_open && v.ui.pager_open ==> {
                &&& next.effects == seq![EffectView::PagerTo(at(next))]
                &&& prev.effects == seq![EffectView::PagerTo(at(prev))]
            }
        }),
{
    reveal(AppView::after);
    reveal(AppView::search_step);
    let s = v.ui.search;
    let n = s.matches.len() as int;
    let next = v.after(Action::Search(SearchAction::NextMatch));
    let prev = v.after(Action::Search(SearchAction::PrevMatch));
    if s.current + 1 < n {
        vstd::arithmetic::div_mod::lemma_small_mod((s.current + 1) as nat, n as nat);
    } else {
        vstd::arithmetic::div_mod::lemma_mod_self_0(n);
    }
    if v.ui.inspector_open {
        assert(next.effects =~= seq![
            EffectView::InspectorTo(next.app.ui.search.matches[next.app.ui.search.current as int]),
        ]);
        assert(prev.effects =~= seq![
            EffectView::InspectorTo(prev.app.ui.search.matches[prev.app.ui.search.current as int]),
        ]);
    } else if v.ui.pager_open {
        assert(next.effects =~= seq![
            EffectView::PagerTo(next.app.ui.search.matches[next.app.ui.search.current as int]),
        ]);
        assert(prev.effects =~= seq![
            EffectView::PagerTo(prev.app.ui.search.matches[prev.app.ui.search.current as int]),
        ]);
    }
}

/// Without matches there is no next one.
#[verifier::rlimit(40)]
pub proof fn law_no_match_no_next(v: AppView)
    requires
        v.ui.search.matches.len() == 0,
    ensures
        v.after(Action::Search(SearchAction::NextMatch)).app == v,
        v.after(Action::Search(SearchAction::PrevMatch)).app == v,
        v.after(Action::Search(SearchAction::NextMatch)).effects.len() == 0,
        v.after(Action::Search(SearchAction::PrevMatch)).effects.len() == 0,
{
    reveal(AppView::after);
    reveal(AppView::search_step);
}

/// A search that ends keeps its query and its matches, and what is on the screen
/// goes to the current one: the inspector, the pager or the chat.
#[verifier::rlimit(40)]
pub proof fn law_search_ends_at_its_match(v: AppView)
    ensures
        ({
            let r = v.after(Action::Search(SearchAction::Close));
            let s = v.ui.search;
            &&& r.app.ui.search == SearchView { active: false, ..s }
            &&& s.current < s.matches.len() && v.ui.inspector_open ==> r.effects == seq![
                EffectView::InspectorTo(s.matches[s.current as int]),
            ]
            &&& s.current < s.matches.len() && !v.ui.inspector_open && v.ui.pager_open
                ==> r.effects == seq![EffectView::PagerTo(s.matches[s.current as int])]
            &&& s.current < s.matches.len() && !v.ui.inspector_open && !v.ui.pager_open
                ==> r.effects.len() == 0 && r.app.chat == ChatView {
                scroll_offset: (s.matches[s.current as int] as int % 0x10000) as u16,
                ..v.chat
            }
            &&& v.ui.inspector_open || v.ui.pager_open ==> r.app.chat == v.chat
            &&& s.current >= s.matches.len() ==> r.app.chat == v.chat && r.effects.len() == 0
        }),
{
    reveal(AppView::after);
    reveal(AppView::search_step);
    let r = v.after(Action::Search(SearchAction::Close));
    let s = v.ui.search;
    if s.current < s.matches.len() {
        if v.ui.inspector_open {
            assert(r.effects =~= seq![EffectView::InspectorTo(s.matches[s.current as int])]);
        } else if v.ui.pager_open {
            assert(r.effects =~= seq![EffectView::PagerTo(s.matches[s.current as int])]);
        }
    }
}

/// In the pager and in the inspector a key closes them, begins a search, or goes
/// to the next match or the one before. The search of the inspector ends with
/// it; that of the pager stays.
pub proof fn law_overlays_are_searched(v: AppView)
    requires
        v.ui.search.current < v.ui.search.matches.len() <= usize::MAX,
    ensures
        ({
            let s = v.ui.search;
            let n = s.matches.len();
            let ahead = if s.current + 1 < n {
                s.current + 1
            } else {
                0
            };
            let behind = if s.current > 0 {
                s.current - 1
            } else {
                n - 1
            };
            let begun = SearchView {
                active: true,
                query: seq![],
                matches: seq![],
                current: 0,
                regex: None,
            };
            &&& v.pager_acted(PagerAction::Close).app == AppView {
                ui: UiView { pager_open: false, ..v.ui },
                ..v
            }
            &&& v.inspector_acted(PagerAction::Close).app == AppView {
                ui: UiView {
                    inspector_open: false,
                    search: SearchView { active: false, ..s },
                    ..v.ui
                },
                ..v
            }
            &&& v.pager_acted(PagerAction::OpenSearch).app.ui.search == begun
            &&& v.pager_acted(PagerAction::OpenSearchBackward).app.ui.search == begun
            &&& v.inspector_acted(PagerAction::OpenSearch).app.ui.search == begun
            &&& v.inspector_acted(PagerAction::OpenSearchBackward).app.ui.search == begun
            &&& v.pager_acted(PagerAction::SearchNext).app.ui.search.current == ahead
            &&& v.pager_acted(PagerAction::SearchPrev).app.ui.search.current == behind
            &&& v.inspector_acted(PagerAction::SearchNext).app.ui.search.current == ahead
            &&& v.inspector_acted(PagerAction::SearchPrev).app.ui.search.current == behind
            &&& v.pager_acted(PagerAction::SearchNext).effects == seq![
                EffectView::PagerTo(s.matches[ahead]),
            ]
            &&& v.pager_acted(PagerAction::SearchPrev).effects == seq![
                EffectView::PagerTo(s.matches[behind]),
            ]
            &&& v.inspector_acted(PagerAction::SearchNext).effects == seq![
                EffectView::InspectorTo(s.matches[ahead]),
            ]
            &&& v.inspector_acted(PagerAction::SearchPrev).effects == seq![
                EffectView::InspectorTo(s.matches[behind]),
            ]
            &&& v.pager_acted(PagerAction::Handled).app == v
            &&& v.inspector_acted(PagerAction::Handled).app == v
        }),
{
    let s = v.ui.search;
    let n = s.matches.len() as int;
    let ahead = if s.current + 1 < n {
        s.current + 1
    } else {
        0
    };
    let behind = if s.current > 0 {
        s.current - 1
    } else {
        n - 1
    };
    if s.current + 1 < n {
        vstd::arithmetic::div_mod::lemma_small_mod((s.current + 1) as nat, n as nat);
    } else {
        vstd::arithmetic::div_mod::lemma_mod_self_0(n);
    }
    assert(v.pager_acted(PagerAction::SearchNext).effects =~= seq![
        EffectView::PagerTo(s.matches[ahead]),
    ]);
    assert(v.pager_acted(PagerAction::SearchPrev).effects =~= seq![
        EffectView::PagerTo(s.matches[behind]),
    ]);
    assert(v.inspector_acted(PagerAction::SearchNext).effects =~= seq![
        EffectView::InspectorTo(s.matches[ahead]),
    ]);
    assert(v.inspector_acted(PagerAction::SearchPrev).effects =~= seq![
        EffectView::InspectorTo(s.matches[behind]),
    ]);
}

/// The lines of the inspector are searched, and it goes to the current match.
pub proof fn law_inspector_is_searched(v: AppView, lines: Seq<Seq<SpanView>>)
    ensures
        ({
            let r = v.inspector_searched(lines);
            let s = v.ui.search.updated(lines);
            &&& r.app == AppView { ui: UiView { search: s, ..v.ui }, ..v }
            &&& s.current < s.matches.len() ==> r.effects == seq![
                EffectView::InspectorTo(s.matches[s.current as int]),
            ]
            &&& s.current >= s.matches.len() ==> r.effects.len() == 0
        }),
{
    let s = v.ui.search.updated(lines);
    if s.current < s.matches.len() {
        assert(v.inspector_searched(lines).effects =~= seq![
            EffectView::InspectorTo(s.matches[s.current as int]),
        ]);
    }
}

// ── Pasting ──────────────────────────────────────────────────────────────────

/// The lines of a paste end with a line feed, whatever they ended with: a
/// carriage return, a line feed, or both. All other characters stay.
pub proof fn law_line_ends_are_made_alike(s: Seq<char>, c: char)
    ensures
        normalised(seq![]) == Seq::<char>::empty(),
        c != '\r' && c != '\n' ==> normalised(s.push(c)) == normalised(s).push(c),
        normalised(s.push('\r')) == normalised(s).push('\n'),
        s.len() > 0 && s.last() == '\r' ==> normalised(s.push('\n')) == normalised(s),
        s.len() == 0 || s.last() != '\r' ==> normalised(s.push('\n')) == normalised(s).push('\n'),
{
    assert(s.push(c).drop_last() =~= s);
    assert(s.push('\r').drop_last() =~= s);
    assert(s.push('\n').drop_last() =~= s);
}

/// Of the lines of a paste those that name an image that exists are attached, in
/// their order; the others are text.
pub proof fn law_images_are_attached(
    parts: Seq<Seq<char>>,
    found: Seq<Option<Seq<char>>>,
    n: int,
)
    requires
        0 <= n < found.len(),
        found.len() == parts.len(),
    ensures
        ({
            let before = brought(parts, found, n);
            let after = brought(parts, found, n + 1);
            let image = found[n] is Some && is_image(found[n]->0);
            &&& brought(parts, found, 0).text.len() == 0
            &&& brought(parts, found, 0).images.len() == 0
            &&& image ==> after.text == before.text && after.images == before.images.push(
                AttachmentView::Image(found[n]->0),
            )
            &&& !image ==> after.images == before.images
            &&& !image && n == 0 ==> after.text == parts[0]
            &&& !image && n > 0 ==> after.text == before.text + seq!['\n'] + parts[n]
        }),
{
    let before = brought(parts, found, n);
    if !names_image(found[n]) {
        if n == 0 {
            assert(before.text + parts[0] =~= parts[0]);
        } else {
            assert(before.text.push('\n') + parts[n] =~= before.text + seq!['\n'] + parts[n]);
        }
    }
}

/// What is pasted comes between what stands before the cursor and what stands
/// behind it, and the cursor stands behind it; images come behind the other
/// attachments.
pub proof fn law_paste_comes_at_the_cursor(
    v: InputView,
    a: Seq<char>,
    b: Seq<char>,
    p: PastedView,
)
    requires
        v.buffer == a + b,
        v.cursor == byte_len(a),
    ensures
        v.with_paste(p) == (InputView {
            buffer: a + p.text + b,
            cursor: byte_len(a + p.text),
            attachments: v.attachments + p.images,
            ..v
        }),
{
    assert((a + b).take(a.len() as int) =~= a);
    assert((a + b).skip(a.len() as int) =~= b);
    lemma_offset(a + b, a.len() as int);
}

/// Pasting changes nothing but the input.
pub proof fn law_paste_goes_into_the_input(
    v: AppView,
    text: Seq<char>,
    found: Seq<Option<Seq<char>>>,
)
    ensures
        ({
            let r = v.pasted(text, found);
            let p = brought(paste_parts(text), found, paste_parts(text).len() as int);
            &&& r.app == AppView { input: v.input.with_paste(p), ..v }
            &&& r.app.input.wants_completion() ==> r.effects == seq![
                EffectView::RefreshCompletions,
            ]
            &&& !r.app.input.wants_completion() ==> r.effects.len() == 0
        }),
{
    let r = v.pasted(text, found);
    if r.app.input.wants_completion() {
        assert(r.effects =~= seq![EffectView::RefreshCompletions]);
    }
}

/// A line in quotation marks may be the path between them, and so may one with
/// the scheme of a file before it; a path that begins at home is one in the home
/// directory.
pub proof fn law_lines_may_be_paths(
    path: Seq<char>,
    home: Seq<char>,
    line: Seq<char>,
    mark: char,
)
    requires
        mark == '"' || mark == '\'',
    ensures
        trim(line) == seq![mark] + path + seq![mark] ==> path_in(line) == path,
        trim(line) == "file://"@ + seq![mark] + path + seq![mark] ==> path_in(line) == path,
        at_home(seq!['~', '/'] + path, Some(home)) == home + seq!['/'] + path,
        at_home(seq!['~', '/'] + path, None) == seq!['~', '/'] + path,
        path.len() > 0 && path[0] != '~' ==> at_home(path, Some(home)) == path,
{
    reveal_strlit("file://");
    reveal_strlit("\"");
    reveal_strlit("'");
    reveal_strlit("~/");
    reveal_strlit("/");
    assert("/"@ =~= seq!['/']);
    let q = seq![mark] + path + seq![mark];
    let f = "file://"@;
    assert((f + seq![mark] + path + seq![mark]) =~= f + q);
    assert((f + q).skip(7) =~= q);
    assert((f + q).take(7) =~= f);
    assert(q.take(1) =~= seq![mark]);
    assert("\""@ =~= seq!['"']);
    assert("'"@ =~= seq!['\'']);
    assert(q.skip(1) =~= path + seq![mark]);
    assert((path + seq![mark]).skip(path.len() as int) =~= seq![mark]);
    assert((path + seq![mark]).take(path.len() as int) =~= path);
    if q.len() >= 7 {
        assert(q.take(7)[0] == mark);
    }
    let t = seq!['~', '/'] + path;
    assert(t.take(2) =~= "~/"@);
    assert(t.skip(2) =~= path);
    if path.len() >= 2 {
        assert(path.take(2)[0] == path[0]);
    }
}

} // verus!
