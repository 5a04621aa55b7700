//! The sessions and the tree in which they are listed.

use vstd::prelude::*;

use crate::app::session_manager::{
    header_views, ChatHeader, ChatStatus, EntryView, HeaderView, SessionEntry, SessionId,
};
use crate::commands::completion::opt_string_view;
use crate::text::str_eq;

verus! {

/// All sessions. Those without a parent are listed in `display_order`, the
/// others below their parents.
pub struct SessionManager {
    /// The sessions, in the order in which they became known.
    pub entries: Vec<SessionEntry>,
    /// The sessions without a parent, in the order of the list.
    pub display_order: Vec<SessionId>,
    /// For each parent its subagents, in the order in which they were started.
    pub children: Vec<(SessionId, Vec<SessionId>)>,
    /// The session whose state is live.
    pub active_id: SessionId,
    /// The selected row of the list.
    pub list_selected: usize,
}

pub struct ManagerView {
    pub entries: Seq<EntryView>,
    pub order: Seq<SessionId>,
    pub children: Seq<(SessionId, Seq<SessionId>)>,
    pub active_id: SessionId,
    pub list_selected: usize,
}

/// The views of sessions.
pub open spec fn entry_views(v: Seq<SessionEntry>) -> Seq<EntryView> {
    v.map_values(|e: SessionEntry| e@)
}

/// The view of the subagents.
pub open spec fn child_views(v: Seq<(SessionId, Vec<SessionId>)>) -> Seq<
    (SessionId, Seq<SessionId>),
> {
    v.map_values(|p: (SessionId, Vec<SessionId>)| (p.0, p.1@))
}

impl View for SessionManager {
    type V = ManagerView;

    open spec fn view(&self) -> ManagerView {
        ManagerView {
            entries: entry_views(self.entries@),
            order: self.display_order@,
            children: child_views(self.children@),
            active_id: self.active_id,
            list_selected: self.list_selected,
        }
    }
}

// ── Finding ──────────────────────────────────────────────────────────────────

/// The index of a session, from `i` on.
pub open spec fn entry_index(entries: Seq<EntryView>, id: SessionId, i: int) -> Option<int>
    decreases entries.len() - i,
{
    if i < 0 || i >= entries.len() {
        None
    } else if entries[i].id == id {
        Some(i)
    } else {
        entry_index(entries, id, i + 1)
    }
}

/// The index of a parent among those with subagents, from `i` on.
pub open spec fn parent_index(
    children: Seq<(SessionId, Seq<SessionId>)>,
    id: SessionId,
    i: int,
) -> Option<int>
    decreases children.len() - i,
{
    if i < 0 || i >= children.len() {
        None
    } else if children[i].0 == id {
        Some(i)
    } else {
        parent_index(children, id, i + 1)
    }
}

/// The sessions without those of an identifier.
pub open spec fn without_id(ids: Seq<SessionId>, id: SessionId) -> Seq<SessionId>
    decreases ids.len(),
{
    if ids.len() == 0 {
        seq![]
    } else {
        let init = without_id(ids.drop_last(), id);
        if ids.last() == id {
            init
        } else {
            init.push(ids.last())
        }
    }
}

/// The sessions with one added, or put in the place of the one with the same
/// identifier.
pub open spec fn with_entry(entries: Seq<EntryView>, e: EntryView) -> Seq<EntryView> {
    match entry_index(entries, e.id, 0) {
        Some(i) => entries.update(i, e),
        None => entries.push(e),
    }
}

/// The subagents with one more below a parent.
pub open spec fn with_child(
    children: Seq<(SessionId, Seq<SessionId>)>,
    parent: SessionId,
    id: SessionId,
) -> Seq<(SessionId, Seq<SessionId>)> {
    match parent_index(children, parent, 0) {
        Some(i) => children.update(i, (parent, children[i].1.push(id))),
        None => children.push((parent, seq![id])),
    }
}

/// The subagents with one taken out below a parent.
pub open spec fn without_child(
    children: Seq<(SessionId, Seq<SessionId>)>,
    parent: SessionId,
    id: SessionId,
) -> Seq<(SessionId, Seq<SessionId>)> {
    match parent_index(children, parent, 0) {
        Some(i) => children.update(i, (parent, without_id(children[i].1, id))),
        None => children,
    }
}

/// The subagents of a session.
pub open spec fn children_of(children: Seq<(SessionId, Seq<SessionId>)>, id: SessionId) -> Seq<
    SessionId,
> {
    match parent_index(children, id, 0) {
        Some(i) => children[i].1,
        None => seq![],
    }
}

/// The subagents without those of a session.
pub open spec fn without_parent(
    children: Seq<(SessionId, Seq<SessionId>)>,
    id: SessionId,
) -> Seq<(SessionId, Seq<SessionId>)> {
    match parent_index(children, id, 0) {
        Some(i) => children.remove(i),
        None => children,
    }
}

impl ManagerView {
    /// One row up.
    pub open spec fn row_up(self) -> ManagerView {
        ManagerView {
            list_selected: (if self.list_selected > 0 {
                self.list_selected - 1
            } else {
                0
            }) as usize,
            ..self
        }
    }

    /// One row down, not past the last.
    pub open spec fn row_down(self) -> ManagerView {
        ManagerView {
            list_selected: (if self.list_selected + 1 < self.rows().len() {
                self.list_selected + 1
            } else {
                self.list_selected as int
            }) as usize,
            ..self
        }
    }

    /// There is such a session.
    pub open spec fn has(self, id: SessionId) -> bool {
        entry_index(self.entries, id, 0) is Some
    }

    /// A session that exists.
    pub open spec fn entry(self, id: SessionId) -> EntryView {
        self.entries[entry_index(self.entries, id, 0)->0]
    }

    /// With a session changed.
    pub open spec fn with(self, e: EntryView) -> ManagerView {
        ManagerView { entries: with_entry(self.entries, e), ..self }
    }

    /// No two sessions have the same identifier.
    pub open spec fn ids_distinct(self) -> bool {
        forall|i: int, j: int|
            0 <= i < j < self.entries.len() ==> (#[trigger] self.entries[i]).id != (
            #[trigger] self.entries[j]).id
    }

    // ── Rows ─────────────────────────────────────────────────────────────────

    /// The rows of the first `n` of some subagents.
    pub open spec fn child_rows(self, ids: Seq<SessionId>, n: int) -> Seq<(SessionId, u16)>
        decreases n,
    {
        if n <= 0 {
            seq![]
        } else {
            let init = self.child_rows(ids, n - 1);
            if self.has(ids[n - 1]) {
                init.push((ids[n - 1], 1))
            } else {
                init
            }
        }
    }

    /// The rows of the first `n` sessions without a parent.
    pub open spec fn rows_before(self, n: int) -> Seq<(SessionId, u16)>
        decreases n,
    {
        if n <= 0 {
            seq![]
        } else {
            let init = self.rows_before(n - 1);
            let id = self.order[n - 1];
            let kids = children_of(self.children, id);
            if self.has(id) {
                init.push((id, 0)) + self.child_rows(kids, kids.len() as int)
            } else {
                init
            }
        }
    }

    /// The rows of the list: each session, with its subagents below it.
    pub open spec fn rows(self) -> Seq<(SessionId, u16)> {
        self.rows_before(self.order.len() as int)
    }

    // ── Selection ────────────────────────────────────────────────────────────

    /// With a session marked as archived.
    pub open spec fn archived(self, id: SessionId) -> ManagerView {
        if self.has(id) {
            self.with(EntryView { status: ChatStatus::Archived, ..self.entry(id) })
        } else {
            self
        }
    }

    /// With another title for a session.
    pub open spec fn titled(self, id: SessionId, title: Seq<char>, now: i64) -> ManagerView {
        if self.has(id) {
            self.with(EntryView { title, updated_at: now, ..self.entry(id) })
        } else {
            self
        }
    }

    /// An agent of a session in the background is busy.
    pub open spec fn works_behind(self) -> bool {
        exists|i: int|
            0 <= i < self.entries.len() && (#[trigger] self.entries[i]).id != self.active_id
                && self.entries[i].busy
    }

    /// With the row of the active session selected, if it has one.
    pub open spec fn synced(self) -> ManagerView {
        match row_of(self.rows(), self.active_id, 0) {
            Some(i) => ManagerView { list_selected: i as usize, ..self },
            None => self,
        }
    }

    /// With a row selected that exists, if there is one.
    pub open spec fn clamped(self) -> ManagerView {
        let n = self.rows().len();
        if n > 0 && self.list_selected >= n {
            ManagerView { list_selected: (n - 1) as usize, ..self }
        } else {
            self
        }
    }

    // ── Changes ──────────────────────────────────────────────────────────────

    /// With a new session.
    pub open spec fn registered(self, e: EntryView) -> ManagerView {
        match e.parent_id {
            Some(p) => ManagerView {
                children: with_child(self.children, p, e.id),
                entries: with_entry(self.entries, e),
                ..self
            },
            None => ManagerView {
                order: if self.order.contains(e.id) {
                    self.order
                } else {
                    seq![e.id] + self.order
                },
                entries: with_entry(self.entries, e),
                ..self
            },
        }
    }

    /// With a session below another.
    pub open spec fn with_child_session(self, parent: SessionId, e: EntryView) -> ManagerView {
        ManagerView {
            children: with_child(self.children, parent, e.id),
            entries: with_entry(self.entries, e),
            ..self
        }
    }

    /// With a new session on top of the list.
    pub open spec fn created(self, e: EntryView) -> ManagerView {
        ManagerView {
            order: seq![e.id] + self.order,
            entries: with_entry(self.entries, e),
            ..self
        }
    }

    /// With the saved chats that are not known yet at the end of the list.
    pub open spec fn loaded(self, headers: Seq<HeaderView>) -> ManagerView
        decreases headers.len(),
    {
        if headers.len() == 0 {
            self
        } else {
            let init = self.loaded(headers.drop_last());
            let h = headers.last();
            if init.has(h.id) {
                init
            } else {
                ManagerView {
                    order: init.order.push(h.id),
                    entries: init.entries.push(
                        EntryView {
                            status: h.status,
                            yaml_path: Some(h.path),
                            ..EntryView::blank(h.id, h.title, h.updated_at)
                        },
                    ),
                    ..init
                }
            }
        }
    }

    /// With a session on top of the list; subagents stay below their parents.
    pub open spec fn promoted(self, id: SessionId) -> ManagerView {
        if self.has(id) && self.entry(id).parent_id is Some {
            self.synced()
        } else {
            (ManagerView { order: seq![id] + without_id(self.order, id), ..self }).synced()
        }
    }

    /// With a session taken out of the list and the tree, its subagents left
    /// without a place.
    pub open spec fn detached(self, id: SessionId) -> ManagerView {
        let e = self.entry(id);
        let children = match e.parent_id {
            Some(p) => without_child(self.children, p, id),
            None => self.children,
        };
        ManagerView {
            entries: self.entries.remove(entry_index(self.entries, id, 0)->0),
            order: if e.parent_id is None {
                without_id(self.order, id)
            } else {
                self.order
            },
            children: without_parent(children, id),
            ..self
        }
    }

    /// The subagents that leave with a session.
    pub open spec fn orphans(self, id: SessionId) -> Seq<SessionId> {
        children_of(
            match self.entry(id).parent_id {
                Some(p) => without_child(self.children, p, id),
                None => self.children,
            },
            id,
        )
    }

    /// Without a session and its subagents: what is left, whether anything
    /// changed, and the files that go with the sessions. The active session
    /// stays.
    pub open spec fn deleted(self, id: SessionId) -> (ManagerView, bool, Seq<Seq<char>>)
        decreases self.entries.len(), 0nat, 0nat,
    {
        if id == self.active_id || !self.has(id) {
            (self, false, seq![])
        } else {
            proof {
                lemma_entry_index(self.entries, id, 0);
            }
            let rest = self.detached(id).deleted_all(self.orphans(id));
            let own = match self.entry(id).yaml_path {
                Some(p) => seq![p],
                None => seq![],
            };
            (rest.0.clamped(), true, rest.1 + own)
        }
    }

    /// Without some sessions, one after the other.
    pub open spec fn deleted_all(self, ids: Seq<SessionId>) -> (ManagerView, Seq<Seq<char>>)
        decreases self.entries.len(), 1nat, ids.len(),
    {
        if ids.len() == 0 {
            (self, seq![])
        } else {
            let first = self.deleted(ids[0]);
            if first.0.entries.len() <= self.entries.len() {
                let rest = first.0.deleted_all(ids.skip(1));
                (rest.0, first.2 + rest.1)
            } else {
                (first.0, first.2)
            }
        }
    }
}

/// The index of a session's row, from `i` on.
pub open spec fn row_of(rows: Seq<(SessionId, u16)>, id: SessionId, i: int) -> Option<int>
    decreases rows.len() - i,
{
    if i < 0 || i >= rows.len() {
        None
    } else if rows[i].0 == id {
        Some(i)
    } else {
        row_of(rows, id, i + 1)
    }
}

/// The place of a chat among others, the newest first: before the first that is
/// older.
pub open spec fn place_of(sorted: Seq<HeaderView>, h: HeaderView, i: int) -> int
    decreases sorted.len() - i,
{
    if i < 0 || i >= sorted.len() || sorted[i].updated_at < h.updated_at {
        i
    } else {
        place_of(sorted, h, i + 1)
    }
}

/// Chats with the newest first; those of the same time keep their order.
pub open spec fn newest_first(headers: Seq<HeaderView>) -> Seq<HeaderView>
    decreases headers.len(),
{
    if headers.len() == 0 {
        seq![]
    } else {
        let init = newest_first(headers.drop_last());
        init.insert(place_of(init, headers.last(), 0), headers.last())
    }
}

// ── Facts ────────────────────────────────────────────────────────────────────

/// A session that is found is where it is said to be, and none is before it.
pub proof fn lemma_entry_index(entries: Seq<EntryView>, id: SessionId, i: int)
    requires
        0 <= i,
    ensures
        entry_index(entries, id, i) matches Some(k) ==> i <= k < entries.len() && entries[k].id == id,
        entry_index(entries, id, i) is None ==> forall|k: int|
            i <= k < entries.len() ==> (#[trigger] entries[k]).id != id,
        entry_index(entries, id, i) matches Some(k) ==> forall|j: int|
            i <= j < k ==> (#[trigger] entries[j]).id != id,
    decreases entries.len() - i,
{
    if i < entries.len() && entries[i].id != id {
        lemma_entry_index(entries, id, i + 1);
    }
}

fn remove_id(ids: &Vec<SessionId>, id: SessionId) -> (r: Vec<SessionId>)
    ensures
        r@ == without_id(ids@, id),
{
    let mut out: Vec<SessionId> = Vec::new();
    let mut i: usize = 0;
    assert(ids@.take(0) =~= seq![]);
    while i < ids.len()
        invariant
            i <= ids@.len(),
            out@ == without_id(ids@.take(i as int), id),
        decreases ids.len() - i,
    {
        if ids[i] != id {
            out.push(ids[i]);
        }
        i += 1;
        assert(ids@.take(i as int).drop_last() =~= ids@.take(i - 1));
        assert(ids@.take(i as int).last() == ids@[i - 1]);
    }
    assert(ids@.take(ids@.len() as int) =~= ids@);
    out
}

fn has_session(ids: &Vec<SessionId>, id: SessionId) -> (r: bool)
    ensures
        r == ids@.contains(id),
{
    let mut i: usize = 0;
    while i < ids.len()
        invariant
            i <= ids@.len(),
            forall|k: int| 0 <= k < i ==> ids@[k] != id,
        decreases ids.len() - i,
    {
        if ids[i] == id {
            assert(ids@[i as int] == id);
            return true;
        }
        i += 1;
    }
    false
}

fn put_first(ids: &mut Vec<SessionId>, id: SessionId)
    ensures
        final(ids)@ == seq![id] + old(ids)@,
{
    ids.insert(0, id);
    assert(ids@ =~= seq![id] + old(ids)@);
}

/// Puts chats in order, the newest first.
pub fn sort_newest_first(headers: Vec<ChatHeader>) -> (r: Vec<ChatHeader>)
    ensures
        header_views(r@) == newest_first(header_views(headers@)),
{
    let ghost all = header_views(headers@);
    let mut rest = headers;
    let mut out: Vec<ChatHeader> = Vec::new();
    let n: usize = rest.len();
    let mut done: usize = 0;
    assert(all.take(0) =~= seq![]);
    assert(header_views(out@) =~= seq![]);
    while done < n
        invariant
            done <= n,
            n == all.len(),
            rest@.len() == n - done,
            out@.len() == done,
            header_views(rest@) == all.skip(done as int),
            header_views(out@) == newest_first(all.take(done as int)),
        decreases n - done,
    {
        let ghost before = out@;
        let ghost sorted = header_views(out@);
        let ghost rest_before = rest@;
        let h = rest.remove(0);
        assert(all[done as int] == all.skip(done as int)[0]);
        assert(header_views(rest_before)[0] == h@);
        let mut p: usize = 0;
        while p < out.len() && out[p].updated_at >= h.updated_at
            invariant
                sorted == header_views(out@),
                p <= out@.len(),
                place_of(sorted, h@, 0) == place_of(sorted, h@, p as int),
            decreases out.len() - p,
        {
            assert(sorted[p as int] == out@[p as int]@);
            p += 1;
        }
        proof {
            if p < out@.len() {
                assert(sorted[p as int] == out@[p as int]@);
            }
        }
        out.insert(p, h);
        done += 1;
        proof {
            assert(header_views(out@) =~= sorted.insert(p as int, h@));
            assert(all.take(done as int).drop_last() =~= all.take(done - 1));
            assert(all.take(done as int).last() == h@);
            assert(header_views(rest@) =~= all.skip(done as int)) by {
                assert(header_views(rest@) =~= header_views(rest_before).skip(1));
                assert(all.skip(done - 1).skip(1) =~= all.skip(done as int));
            }
        }
    }
    assert(all.take(n as int) =~= all);
    out
}

impl SessionManager {
    /// The sessions at the start: a blank one, which is active and is handed
    /// back so that it can be filled in before it is registered.
    pub fn new(id: SessionId, now: i64) -> (r: (SessionManager, SessionEntry))
        ensures
            r.0@ == (ManagerView {
                entries: seq![],
                order: seq![id],
                children: seq![],
                active_id: id,
                list_selected: 0,
            }),
            r.1@ == EntryView::blank(id, "New chat"@, now),
    {
        let mut order: Vec<SessionId> = Vec::new();
        order.push(id);
        let m = SessionManager {
            entries: Vec::new(),
            display_order: order,
            children: Vec::new(),
            active_id: id,
            list_selected: 0,
        };
        assert(m@.entries =~= seq![]);
        assert(m@.order =~= seq![id]);
        assert(m@.children =~= seq![]);
        (m, SessionEntry::new_blank(id, "New chat", now))
    }

    /// The index of a session.
    pub fn find(&self, id: SessionId) -> (r: Option<usize>)
        ensures
            entry_index(self@.entries, id, 0) == (match r {
                Some(i) => Some(i as int),
                None => None,
            }),
            r matches Some(i) ==> i < self.entries@.len() && self.entries@[i as int].id == id,
    {
        let ghost all = self@.entries;
        let n: usize = self.entries.len();
        let mut i: usize = 0;
        while i < n
            invariant
                n == self.entries@.len(),
                all == self@.entries,
                all.len() == n,
                i <= n,
                entry_index(all, id, 0) == entry_index(all, id, i as int),
            decreases n - i,
        {
            assert(all[i as int] == self.entries@[i as int]@);
            if self.entries[i].id == id {
                return Some(i);
            }
            i += 1;
        }
        None
    }

    /// A session.
    pub fn get(&self, id: SessionId) -> (r: Option<&SessionEntry>)
        ensures
            r is Some == self@.has(id),
            r matches Some(e) ==> e@ == self@.entry(id),
    {
        match self.find(id) {
            Some(i) => {
                assert(self@.entries[i as int] == self.entries@[i as int]@);
                Some(&self.entries[i])
            },
            None => None,
        }
    }

    /// A session, to be changed.
    pub fn get_mut(&mut self, id: SessionId) -> (r: Option<&mut SessionEntry>)
        ensures
            match r {
                Some(e) => {
                    &&& old(self)@.has(id)
                    &&& e@ == old(self)@.entry(id)
                    &&& final(self)@ == (ManagerView {
                        entries: old(self)@.entries.update(
                            entry_index(old(self)@.entries, id, 0)->0,
                            final(e)@,
                        ),
                        ..old(self)@
                    })
                },
                None => !old(self)@.has(id) && final(self)@ == old(self)@,
            },
    {
        match self.find(id) {
            Some(i) => {
                let ghost before = self.entries@;
                assert(self@.entries[i as int] == before[i as int]@);
                assert forall|x: SessionEntry| #[trigger]
                    entry_views(before.update(i as int, x)) == entry_views(before).update(
                        i as int,
                        x@,
                    ) by {
                    assert(entry_views(before.update(i as int, x)) =~= entry_views(before).update(
                        i as int,
                        x@,
                    ));
                }
                Some(&mut self.entries[i])
            },
            None => None,
        }
    }

    fn parent_at(&self, id: SessionId) -> (r: Option<usize>)
        ensures
            parent_index(self@.children, id, 0) == (match r {
                Some(i) => Some(i as int),
                None => None,
            }),
            r matches Some(i) ==> i < self.children@.len() && self.children@[i as int].0 == id,
    {
        let ghost all = self@.children;
        let n: usize = self.children.len();
        let mut i: usize = 0;
        while i < n
            invariant
                n == self.children@.len(),
                all == self@.children,
                all.len() == n,
                i <= n,
                parent_index(all, id, 0) == parent_index(all, id, i as int),
            decreases n - i,
        {
            assert(all[i as int] == (self.children@[i as int].0, self.children@[i as int].1@));
            if self.children[i].0 == id {
                return Some(i);
            }
            i += 1;
        }
        None
    }

    fn append_child_rows(&self, parent: usize, rows: &mut Vec<(SessionId, u16)>)
        requires
            parent < self.children@.len(),
        ensures
            ({
                let ids = self@.children[parent as int].1;
                final(rows)@ == old(rows)@ + self@.child_rows(ids, ids.len() as int)
            }),
    {
        let ghost ids = self@.children[parent as int].1;
        assert(ids == self.children@[parent as int].1@);
        let ghost before = rows@;
        let mut k: usize = 0;
        assert(before + self@.child_rows(ids, 0) =~= before);
        while k < self.children[parent].1.len()
            invariant
                parent < self.children@.len(),
                ids == self.children@[parent as int].1@,
                k <= ids.len(),
                rows@ == before + self@.child_rows(ids, k as int),
            decreases ids.len() - k,
        {
            let child = self.children[parent].1[k];
            if self.find(child).is_some() {
                rows.push((child, 1));
            }
            k += 1;
            assert(rows@ =~= before + self@.child_rows(ids, k as int));
        }
    }

    /// The rows of the list: each session with its depth.
    pub fn tree_rows(&self) -> (r: Vec<(SessionId, u16)>)
        ensures
            r@ == self@.rows(),
    {
        let mut rows: Vec<(SessionId, u16)> = Vec::new();
        let mut i: usize = 0;
        while i < self.display_order.len()
            invariant
                i <= self.display_order@.len(),
                rows@ == self@.rows_before(i as int),
            decreases self.display_order.len() - i,
        {
            let id = self.display_order[i];
            if self.find(id).is_some() {
                rows.push((id, 0));
                let ghost mid = rows@;
                if let Some(p) = self.parent_at(id) {
                    assert(self@.children[p as int] == (
                        self.children@[p as int].0,
                        self.children@[p as int].1@,
                    ));
                    self.append_child_rows(p, &mut rows);
                } else {
                    assert(mid + self@.child_rows(seq![], 0) =~= mid);
                }
            }
            i += 1;
        }
        rows
    }

    fn put_entry(&mut self, entry: SessionEntry)
        ensures
            final(self)@ == old(self)@.with(entry@),
    {
        let ghost before = self.entries@;
        match self.find(entry.id) {
            Some(i) => {
                self.entries.set(i, entry);
                assert(entry_views(self.entries@) =~= entry_views(before).update(
                    i as int,
                    entry@,
                ));
            },
            None => {
                self.entries.push(entry);
                assert(entry_views(self.entries@) =~= entry_views(before).push(entry@));
            },
        }
    }

    fn put_child(&mut self, parent: SessionId, id: SessionId)
        ensures
            final(self)@ == (ManagerView {
                children: with_child(old(self)@.children, parent, id),
                ..old(self)@
            }),
    {
        let ghost before = self.children@;
        match self.parent_at(parent) {
            Some(i) => {
                let mut ids: Vec<SessionId> = Vec::new();
                let mut k: usize = 0;
                assert(before[i as int].1@.take(0) =~= seq![]);
                while k < self.children[i].1.len()
                    invariant
                        self@ == old(self)@,
                        self.children@ == before,
                        i < before.len(),
                        k <= before[i as int].1@.len(),
                        ids@ == before[i as int].1@.take(k as int),
                    decreases before[i as int].1@.len() - k,
                {
                    ids.push(self.children[i].1[k]);
                    k += 1;
                    assert(ids@ =~= before[i as int].1@.take(k as int));
                }
                assert(ids@ =~= before[i as int].1@);
                ids.push(id);
                self.children.set(i, (parent, ids));
                assert(child_views(before)[i as int] == (before[i as int].0, before[i as int].1@));
                assert(child_views(self.children@) =~= child_views(before).update(
                    i as int,
                    (parent, ids@),
                ));
            },
            None => {
                let mut ids: Vec<SessionId> = Vec::new();
                ids.push(id);
                assert(ids@ =~= seq![id]);
                self.children.push((parent, ids));
                assert(child_views(self.children@) =~= child_views(before).push((parent, ids@)));
            },
        }
    }

    /// Makes a session known. One without a parent comes on top of the list.
    pub fn register(&mut self, entry: SessionEntry)
        ensures
            final(self)@ == old(self)@.registered(entry@),
    {
        let id = entry.id;
        match entry.parent_id {
            Some(p) => {
                self.put_child(p, id);
            },
            None => {
                if !has_session(&self.display_order, id) {
                    put_first(&mut self.display_order, id);
                }
            },
        }
        self.put_entry(entry);
    }

    /// Makes a session known below another.
    pub fn add_child_session(&mut self, parent_id: SessionId, entry: SessionEntry)
        ensures
            final(self)@ == old(self)@.with_child_session(parent_id, entry@),
    {
        let id = entry.id;
        self.put_child(parent_id, id);
        self.put_entry(entry);
    }

    /// Makes a blank session on top of the list.
    pub fn create_session(&mut self, id: SessionId, title: &str, now: i64)
        ensures
            final(self)@ == old(self)@.created(EntryView::blank(id, title@, now)),
    {
        let entry = SessionEntry::new_blank(id, title, now);
        put_first(&mut self.display_order, id);
        self.put_entry(entry);
    }

    /// Makes the saved chats known, the newest first, behind those in the list.
    /// Sessions that are known already stay as they are.
    pub fn load_from_disk(&mut self, headers: Vec<ChatHeader>)
        ensures
            final(self)@ == old(self)@.loaded(newest_first(header_views(headers@))),
    {
        let sorted = sort_newest_first(headers);
        let ghost all = header_views(sorted@);
        let n: usize = sorted.len();
        let mut i: usize = 0;
        assert(all.take(0) =~= seq![]);
        while i < n
            invariant
                n == sorted@.len(),
                all == header_views(sorted@),
                i <= n,
                self@ == old(self)@.loaded(all.take(i as int)),
            decreases n - i,
        {
            let h = &sorted[i];
            proof {
                assert(all.take(i + 1).drop_last() =~= all.take(i as int));
                assert(all.take(i + 1).last() == h@);
            }
            if self.find(h.id).is_none() {
                let ghost before = self.entries@;
                let mut e = SessionEntry::new_blank(h.id, h.title.as_str(), h.updated_at);
                e.status = h.status;
                e.yaml_path = Some(h.path.clone());
                self.display_order.push(h.id);
                self.entries.push(e);
                assert(entry_views(self.entries@) =~= entry_views(before).push(e@));
            }
            i += 1;
        }
        assert(all.take(n as int) =~= all);
    }

    /// Whether an agent in the background is busy.
    pub fn any_background_busy(&self) -> (r: bool)
        ensures
            r == exists|i: int|
                0 <= i < self@.entries.len() && (#[trigger] self@.entries[i]).id != self@.active_id
                    && self@.entries[i].busy,
            r == self@.works_behind(),
    {
        let ghost all = self@.entries;
        let mut i: usize = 0;
        while i < self.entries.len()
            invariant
                all == self@.entries,
                i <= self.entries@.len(),
                forall|k: int|
                    0 <= k < i ==> (#[trigger] all[k]).id == self.active_id || !all[k].busy,
            decreases self.entries.len() - i,
        {
            assert(all[i as int] == self.entries@[i as int]@);
            if self.entries[i].id != self.active_id && self.entries[i].busy {
                return true;
            }
            i += 1;
        }
        false
    }

    /// Selects the row above.
    pub fn select_prev(&mut self)
        ensures
            final(self)@ == old(self)@.row_up(),
    {
        if self.list_selected > 0 {
            self.list_selected = self.list_selected - 1;
        }
    }

    /// Selects the row below, not past the last.
    pub fn select_next(&mut self)
        ensures
            final(self)@ == old(self)@.row_down(),
    {
        let rows = self.tree_rows();
        if rows.len() > 0 && self.list_selected < rows.len() - 1 {
            self.list_selected = self.list_selected + 1;
        }
    }

    /// Selects the row of the active session, if it has one.
    pub fn sync_list_selection_to_active(&mut self)
        ensures
            final(self)@ == old(self)@.synced(),
    {
        let rows = self.tree_rows();
        let mut i: usize = 0;
        while i < rows.len()
            invariant
                self@ == old(self)@,
                rows@ == self@.rows(),
                i <= rows@.len(),
                row_of(rows@, self.active_id, 0) == row_of(rows@, self.active_id, i as int),
            decreases rows.len() - i,
        {
            if rows[i].0 == self.active_id {
                self.list_selected = i;
                return ;
            }
            i += 1;
        }
    }

    /// Puts a session on top of the list.
    pub fn promote_to_top(&mut self, id: SessionId)
        ensures
            final(self)@ == old(self)@.promoted(id),
    {
        let is_child = match self.get(id) {
            Some(e) => e.parent_id.is_some(),
            None => false,
        };
        if !is_child {
            let mut order = remove_id(&self.display_order, id);
            put_first(&mut order, id);
            self.display_order = order;
        }
        self.sync_list_selection_to_active();
    }

    /// Marks a session as archived.
    pub fn archive(&mut self, id: SessionId)
        ensures
            final(self)@ == (if old(self)@.has(id) {
                old(self)@.with(
                    EntryView { status: ChatStatus::Archived, ..old(self)@.entry(id) },
                )
            } else {
                old(self)@
            }),
            final(self)@ == old(self)@.archived(id),
    {
        if let Some(i) = self.find(id) {
            let ghost before = self.entries@;
            assert(entry_views(before)[i as int] == before[i as int]@);
            self.entries[i].status = ChatStatus::Archived;
            assert(entry_views(self.entries@) =~= entry_views(before).update(
                i as int,
                EntryView { status: ChatStatus::Archived, ..before[i as int]@ },
            ));
        }
    }

    /// Gives a session another title.
    pub fn set_title(&mut self, id: SessionId, title: String, now: i64)
        ensures
            final(self)@ == (if old(self)@.has(id) {
                old(self)@.with(
                    EntryView { title: title@, updated_at: now, ..old(self)@.entry(id) },
                )
            } else {
                old(self)@
            }),
            final(self)@ == old(self)@.titled(id, title@, now),
    {
        if let Some(i) = self.find(id) {
            let ghost before = self.entries@;
            assert(entry_views(before)[i as int] == before[i as int]@);
            let ghost t = title@;
            self.entries[i].title = title;
            self.entries[i].updated_at = now;
            assert(entry_views(self.entries@) =~= entry_views(before).update(
                i as int,
                EntryView { title: t, updated_at: now, ..before[i as int]@ },
            ));
        }
    }

    /// The first session whose subagent writes to a buffer.
    pub fn find_by_buffer_handle(&self, handle: &str) -> (r: Option<SessionId>)
        ensures
            r matches Some(id) ==> exists|i: int|
                0 <= i < self@.entries.len() && (#[trigger] self@.entries[i]).id == id
                    && self@.entries[i].buffer_handle == Some(handle@) && forall|j: int|
                    0 <= j < i ==> (#[trigger] self@.entries[j]).buffer_handle != Some(handle@),
            r is None ==> forall|i: int|
                0 <= i < self@.entries.len() ==> (#[trigger] self@.entries[i]).buffer_handle
                    != Some(handle@),
    {
        let ghost all = self@.entries;
        let mut i: usize = 0;
        while i < self.entries.len()
            invariant
                all == self@.entries,
                i <= self.entries@.len(),
                forall|k: int| 0 <= k < i ==> (#[trigger] all[k]).buffer_handle != Some(handle@),
            decreases self.entries.len() - i,
        {
            assert(all[i as int] == self.entries@[i as int]@);
            if let Some(h) = &self.entries[i].buffer_handle {
                if str_eq(h.as_str(), handle) {
                    return Some(self.entries[i].id);
                }
            }
            i += 1;
        }
        None
    }

    fn select_existing_row(&mut self)
        ensures
            final(self)@ == old(self)@.clamped(),
    {
        let rows = self.tree_rows();
        if rows.len() > 0 && self.list_selected >= rows.len() {
            self.list_selected = rows.len() - 1;
        }
    }

    /// Takes a session out of the list and the tree, and returns its subagents
    /// and its file.
    fn detach(&mut self, id: SessionId) -> (r: (Vec<SessionId>, Option<String>))
        requires
            old(self)@.has(id),
        ensures
            final(self)@ == old(self)@.detached(id),
            r.0@ == old(self)@.orphans(id),
            opt_string_view(r.1) == old(self)@.entry(id).yaml_path,
            final(self)@.entries.len() < old(self)@.entries.len(),
    {
        let ghost v = self@;
        proof {
            lemma_entry_index(v.entries, id, 0);
        }
        let mut kids: Vec<SessionId> = Vec::new();
        let mut path: Option<String> = None;
        if let Some(i) = self.find(id) {
            let ghost before = self.entries@;
            assert(v.entries[i as int] == before[i as int]@);
            let e = self.entries.remove(i);
            assert(entry_views(self.entries@) =~= entry_views(before).remove(i as int));
            path = e.yaml_path;
            match e.parent_id {
                Some(p) => {
                    if let Some(k) = self.parent_at(p) {
                        let ghost all = self.children@;
                        assert(child_views(all)[k as int] == (all[k as int].0, all[k as int].1@));
                        let left = remove_id(&self.children[k].1, id);
                        self.children.set(k, (p, left));
                        assert(child_views(self.children@) =~= child_views(all).update(
                            k as int,
                            (p, left@),
                        ));
                    }
                },
                None => {
                    self.display_order = remove_id(&self.display_order, id);
                },
            }
            if let Some(k) = self.parent_at(id) {
                let ghost all = self.children@;
                assert(child_views(all)[k as int] == (all[k as int].0, all[k as int].1@));
                let pair = self.children.remove(k);
                assert(child_views(self.children@) =~= child_views(all).remove(k as int));
                kids = pair.1;
            }
            assert(kids@ =~= v.orphans(id));
        }
        (kids, path)
    }

    /// Takes a session out, with its subagents, and collects the files that go
    /// with them. The active session cannot be taken out.
    pub fn delete(&mut self, id: SessionId, files: &mut Vec<String>) -> (r: bool)
        ensures
            final(self)@ == old(self)@.deleted(id).0,
            r == old(self)@.deleted(id).1,
            crate::text::views(final(files)@) == crate::text::views(old(files)@) + old(
                self,
            )@.deleted(id).2,
            final(self)@.entries.len() <= old(self)@.entries.len(),
        decreases old(self)@.entries.len(),
    {
        let ghost v = self@;
        let ghost f0 = crate::text::views(files@);
        if id == self.active_id || self.find(id).is_none() {
            assert(f0 + seq![] =~= f0);
            return false;
        }
        let (kids, path) = self.detach(id);
        let ghost d = self@;
        let ghost whole = d.deleted_all(kids@);
        let mut k: usize = 0;
        assert(kids@.skip(0) =~= kids@);
        assert(f0 + whole.1 =~= f0 + whole.1);
        while k < kids.len()
            invariant
                k <= kids@.len(),
                self@.entries.len() < v.entries.len(),
                v == old(self)@,
                f0 == crate::text::views(old(files)@),
                whole == d.deleted_all(kids@),
                self@.deleted_all(kids@.skip(k as int)).0 == whole.0,
                crate::text::views(files@) + self@.deleted_all(kids@.skip(k as int)).1 == f0
                    + whole.1,
            decreases kids.len() - k,
        {
            let ghost before = self@;
            let ghost ids = kids@.skip(k as int);
            let ghost files_before = crate::text::views(files@);
            assert(ids[0] == kids@[k as int]);
            assert(ids.skip(1) =~= kids@.skip(k + 1));
            let _ = self.delete(kids[k], files);
            k += 1;
            proof {
                let first = before.deleted(ids[0]);
                let rest = self@.deleted_all(ids.skip(1));
                assert(before.deleted_all(ids) == (rest.0, first.2 + rest.1));
                assert(files_before + first.2 + rest.1 =~= files_before + (first.2 + rest.1));
            }
        }
        proof {
            assert(kids@.skip(k as int) =~= seq![]);
            assert(crate::text::views(files@) + seq![] =~= crate::text::views(files@));
        }
        self.select_existing_row();
        let ghost mid = files@;
        if let Some(p) = path {
            files.push(p);
            assert(crate::text::views(files@) =~= crate::text::views(mid).push(p@));
            assert(crate::text::views(files@) =~= f0 + (whole.1 + seq![p@]));
        } else {
            assert(crate::text::views(files@) =~= f0 + (whole.1 + seq![]));
        }
        true
    }
}

// ── Laws ─────────────────────────────────────────────────────────────────────

proof fn lemma_has(m: ManagerView, id: SessionId)
    ensures
        m.has(id) <==> exists|i: int| 0 <= i < m.entries.len() && (#[trigger] m.entries[i]).id == id,
{
    lemma_entry_index(m.entries, id, 0);
}

/// A session that was made known is found as it was given, and no other one
/// changes.
pub proof fn law_registered_session_is_found(m: ManagerView, e: EntryView, other: SessionId)
    ensures
        m.registered(e).has(e.id),
        m.registered(e).entry(e.id) == e,
        other != e.id ==> m.registered(e).has(other) == m.has(other),
        other != e.id && m.has(other) ==> m.registered(e).entry(other) == m.entry(other),
        m.ids_distinct() ==> m.registered(e).ids_distinct(),
{
    let after = m.registered(e);
    lemma_entry_index(m.entries, e.id, 0);
    lemma_entry_index(m.entries, other, 0);
    lemma_entry_index(after.entries, e.id, 0);
    lemma_entry_index(after.entries, other, 0);
    assert(after.entries == with_entry(m.entries, e));
    match entry_index(m.entries, e.id, 0) {
        Some(i) => {
            assert(after.entries[i] == e);
            if let Some(k) = entry_index(after.entries, e.id, 0) {
                if k < i {
                    assert(m.entries[k].id != e.id);
                }
            }
        },
        None => {
            let n = m.entries.len() as int;
            assert(after.entries[n] == e);
            if let Some(k) = entry_index(after.entries, e.id, 0) {
                if k < n {
                    assert(after.entries[k] == m.entries[k]);
                }
            }
        },
    }
    if other != e.id {
        if let Some(k) = entry_index(m.entries, other, 0) {
            assert(after.entries[k] == m.entries[k]);
            if let Some(j) = entry_index(after.entries, other, 0) {
                if j < k {
                    assert(after.entries[j] == m.entries[j] || after.entries[j] == e);
                }
            }
        }
        if let Some(j) = entry_index(after.entries, other, 0) {
            assert(after.entries[j] != e);
            assert(j < m.entries.len() && after.entries[j] == m.entries[j]);
        }
    }
}

/// What a deletion keeps: nothing new comes, the active session stays, and
/// identifiers stay distinct.
pub open spec fn only_removes(before: ManagerView, after: ManagerView) -> bool {
    &&& after.active_id == before.active_id
    &&& after.entries.len() <= before.entries.len()
    &&& forall|i: int|
        0 <= i < after.entries.len() ==> before.entries.contains(#[trigger] after.entries[i])
    &&& before.has(before.active_id) ==> after.has(before.active_id)
    &&& before.ids_distinct() ==> after.ids_distinct()
}

proof fn lemma_only_removes_trans(a: ManagerView, b: ManagerView, c: ManagerView)
    requires
        only_removes(a, b),
        only_removes(b, c),
    ensures
        only_removes(a, c),
{
    assert forall|i: int| 0 <= i < c.entries.len() implies a.entries.contains(
        #[trigger] c.entries[i],
    ) by {
        assert(b.entries.contains(c.entries[i]));
        let j = choose|j: int| 0 <= j < b.entries.len() && b.entries[j] == c.entries[i];
        assert(a.entries.contains(b.entries[j]));
    }
}

proof fn lemma_detached_only_removes(m: ManagerView, id: SessionId)
    requires
        m.has(id),
        id != m.active_id,
    ensures
        only_removes(m, m.detached(id)),
        m.ids_distinct() ==> !m.detached(id).has(id),
        m.detached(id).entries.len() < m.entries.len(),
{
    let after = m.detached(id);
    lemma_entry_index(m.entries, id, 0);
    let k = entry_index(m.entries, id, 0)->0;
    assert forall|i: int| 0 <= i < after.entries.len() implies m.entries.contains(
        #[trigger] after.entries[i],
    ) by {
        if i < k {
            assert(after.entries[i] == m.entries[i]);
        } else {
            assert(after.entries[i] == m.entries[i + 1]);
        }
    }
    lemma_has(m, m.active_id);
    lemma_has(after, m.active_id);
    if m.has(m.active_id) {
        let a = choose|i: int|
            0 <= i < m.entries.len() && (#[trigger] m.entries[i]).id == m.active_id;
        if a < k {
            assert(after.entries[a] == m.entries[a]);
        } else {
            assert(after.entries[a - 1] == m.entries[a]);
        }
    }
    if m.ids_distinct() {
        assert forall|i: int, j: int| 0 <= i < j < after.entries.len() implies (
        #[trigger] after.entries[i]).id != (#[trigger] after.entries[j]).id by {
            let x = if i < k { i } else { i + 1 };
            let y = if j < k { j } else { j + 1 };
            assert(after.entries[i] == m.entries[x] && after.entries[j] == m.entries[y]);
        }
        lemma_entry_index(after.entries, id, 0);
        if let Some(i) = entry_index(after.entries, id, 0) {
            let x = if i < k { i } else { i + 1 };
            assert(after.entries[i] == m.entries[x]);
            assert(m.entries[x].id == m.entries[k].id);
        }
    }
}

proof fn lemma_clamped_only_removes(m: ManagerView)
    ensures
        only_removes(m, m.clamped()),
        m.clamped().entries == m.entries,
{
    assert forall|i: int| 0 <= i < m.entries.len() implies m.entries.contains(
        #[trigger] m.entries[i],
    ) by {}
}

pub proof fn lemma_deleted_only_removes(m: ManagerView, id: SessionId)
    ensures
        only_removes(m, m.deleted(id).0),
        m.deleted(id).1 && m.ids_distinct() ==> !m.deleted(id).0.has(id),
    decreases m.entries.len(), 0nat, 0nat,
{
    if id == m.active_id || !m.has(id) {
        lemma_clamped_only_removes(m);
        assert(only_removes(m, m)) by {
            assert forall|i: int| 0 <= i < m.entries.len() implies m.entries.contains(
                #[trigger] m.entries[i],
            ) by {}
        }
    } else {
        let d = m.detached(id);
        lemma_detached_only_removes(m, id);
        lemma_deleted_all_only_removes(d, m.orphans(id));
        let rest = d.deleted_all(m.orphans(id)).0;
        lemma_clamped_only_removes(rest);
        lemma_only_removes_trans(m, d, rest);
        lemma_only_removes_trans(m, rest, rest.clamped());
        if m.ids_distinct() {
            lemma_entry_index(rest.entries, id, 0);
            if let Some(i) = entry_index(rest.entries, id, 0) {
                assert(d.entries.contains(rest.entries[i]));
                let j = choose|j: int| 0 <= j < d.entries.len() && d.entries[j] == rest.entries[i];
                lemma_has(d, id);
                assert(d.entries[j].id == id);
            }
            assert(rest.clamped().entries == rest.entries);
        }
    }
}

proof fn lemma_deleted_all_only_removes(m: ManagerView, ids: Seq<SessionId>)
    ensures
        only_removes(m, m.deleted_all(ids).0),
    decreases m.entries.len(), 1nat, ids.len(),
{
    if ids.len() == 0 {
        assert forall|i: int| 0 <= i < m.entries.len() implies m.entries.contains(
            #[trigger] m.entries[i],
        ) by {}
    } else {
        lemma_deleted_only_removes(m, ids[0]);
        let first = m.deleted(ids[0]).0;
        lemma_deleted_all_only_removes(first, ids.skip(1));
        lemma_only_removes_trans(m, first, first.deleted_all(ids.skip(1)).0);
    }
}

/// Whatever is deleted, the active session stays the active one and stays known.
pub proof fn law_active_session_survives(m: ManagerView, id: SessionId)
    requires
        m.has(m.active_id),
    ensures
        m.deleted(id).0.active_id == m.active_id,
        m.deleted(id).0.has(m.active_id),
        id == m.active_id ==> !m.deleted(id).1,
{
    lemma_deleted_only_removes(m, id);
}

/// A deleted session is gone, and no session comes with a deletion.
pub proof fn law_deleted_session_is_gone(m: ManagerView, id: SessionId)
    requires
        m.ids_distinct(),
        m.deleted(id).1,
    ensures
        !m.deleted(id).0.has(id),
        only_removes(m, m.deleted(id).0),
{
    lemma_deleted_only_removes(m, id);
}

impl ManagerView {
    /// One session is listed as a subagent of another.
    pub open spec fn lists(self, parent: SessionId, child: SessionId) -> bool {
        children_of(self.children, parent).contains(child)
    }

    /// A session that a deletion can take: it exists and is not the active one.
    pub open spec fn deletable(self, id: SessionId) -> bool {
        self.has(id) && id != self.active_id
    }

    /// A session is another one or stands at most `n` levels below it, with only
    /// sessions between them that a deletion can take.
    pub open spec fn below_within(self, id: SessionId, other: SessionId, n: nat) -> bool
        decreases n,
    {
        self.deletable(id) && (id == other || (n > 0 && exists|c: SessionId| #[trigger]
            self.lists(id, c) && self.below_within(c, other, (n - 1) as nat)))
    }

    /// A session is another one or stands somewhere below it.
    pub open spec fn in_subtree(self, id: SessionId, other: SessionId) -> bool {
        exists|n: nat| self.below_within(id, other, n)
    }

    /// What is left of `self` in `after`: the same sessions under their
    /// identifiers, with the same ones listed below them.
    spec fn leaves(self, after: ManagerView) -> bool {
        &&& after.active_id == self.active_id
        &&& after.ids_distinct()
        &&& forall|x: SessionId| #[trigger]
            after.has(x) ==> self.has(x) && after.entry(x) == self.entry(x)
        &&& forall|a: SessionId, b: SessionId|
            after.has(a) && #[trigger] after.lists(a, b) ==> self.lists(a, b)
        &&& forall|a: SessionId, b: SessionId|
            after.has(a) && after.has(b) && #[trigger] self.lists(a, b) ==> after.lists(a, b)
    }

    /// A session was there and is not any more.
    spec fn loses(self, after: ManagerView, id: SessionId) -> bool {
        self.has(id) && !after.has(id)
    }

    /// With each session that was lost, those listed below it were lost that a
    /// deletion can take.
    spec fn loses_with_children(self, after: ManagerView) -> bool {
        forall|a: SessionId, b: SessionId|
            self.loses(after, a) && self.deletable(b) && #[trigger] self.lists(a, b)
                ==> self.loses(after, b)
    }
}

proof fn lemma_without_id(ids: Seq<SessionId>, id: SessionId, x: SessionId)
    ensures
        without_id(ids, id).contains(x) <==> ids.contains(x) && x != id,
    decreases ids.len(),
{
    if ids.len() > 0 {
        let init = ids.drop_last();
        lemma_without_id(init, id, x);
        let all = without_id(ids, id);
        let part = without_id(init, id);
        if ids.contains(x) && x != id {
            let i = choose|i: int| 0 <= i < ids.len() && ids[i] == x;
            if i < init.len() {
                assert(init[i] == x);
                let j = choose|j: int| 0 <= j < part.len() && part[j] == x;
                assert(all[j] == x);
            } else {
                assert(all[part.len() as int] == x);
            }
        }
        if all.contains(x) {
            let j = choose|j: int| 0 <= j < all.len() && all[j] == x;
            if j < part.len() {
                assert(part[j] == x);
                let i = choose|i: int| 0 <= i < init.len() && init[i] == x;
                assert(ids[i] == x);
            } else {
                assert(ids[ids.len() - 1] == x);
            }
        }
    }
}

pub proof fn lemma_parent_index(children: Seq<(SessionId, Seq<SessionId>)>, id: SessionId, i: int)
    requires
        0 <= i,
    ensures
        parent_index(children, id, i) matches Some(k) ==> i <= k < children.len()
            && children[k].0 == id,
        parent_index(children, id, i) is None ==> forall|k: int|
            i <= k < children.len() ==> (#[trigger] children[k]).0 != id,
        parent_index(children, id, i) matches Some(k) ==> forall|j: int|
            i <= j < k ==> (#[trigger] children[j]).0 != id,
    decreases children.len() - i,
{
    if i < children.len() && children[i].0 != id {
        lemma_parent_index(children, id, i + 1);
    }
}

/// Taking one session out below a parent leaves all other lists as they are.
proof fn lemma_without_child(
    children: Seq<(SessionId, Seq<SessionId>)>,
    parent: SessionId,
    id: SessionId,
    a: SessionId,
    b: SessionId,
)
    requires
        b != id,
    ensures
        children_of(without_child(children, parent, id), a).contains(b) <==> children_of(
            children,
            a,
        ).contains(b),
{
    let after = without_child(children, parent, id);
    lemma_parent_index(children, parent, 0);
    lemma_parent_index(children, a, 0);
    lemma_parent_index(after, a, 0);
    if let Some(i) = parent_index(children, parent, 0) {
        lemma_without_id(children[i].1, id, b);
        if let Some(k) = parent_index(children, a, 0) {
            assert(after[k].0 == a);
            if let Some(j) = parent_index(after, a, 0) {
                assert(after[j].0 == children[j].0);
                assert(j == k);
            }
        } else if let Some(j) = parent_index(after, a, 0) {
            assert(after[j].0 == children[j].0);
        }
    }
}

/// Taking the list of one parent out leaves those of the others as they are.
proof fn lemma_without_parent(
    children: Seq<(SessionId, Seq<SessionId>)>,
    id: SessionId,
    a: SessionId,
)
    requires
        a != id,
    ensures
        children_of(without_parent(children, id), a) == children_of(children, a),
{
    let after = without_parent(children, id);
    lemma_parent_index(children, id, 0);
    lemma_parent_index(children, a, 0);
    lemma_parent_index(after, a, 0);
    if let Some(i) = parent_index(children, id, 0) {
        if let Some(k) = parent_index(children, a, 0) {
            let kept = if k < i {
                k
            } else {
                k - 1
            };
            assert(after[kept] == children[k]);
            if let Some(j) = parent_index(after, a, 0) {
                let was = if j < i {
                    j
                } else {
                    j + 1
                };
                assert(after[j] == children[was]);
            }
        } else if let Some(j) = parent_index(after, a, 0) {
            let was = if j < i {
                j
            } else {
                j + 1
            };
            assert(after[j] == children[was]);
        }
    }
}

proof fn lemma_detached_leaves(m: ManagerView, id: SessionId)
    requires
        m.ids_distinct(),
        m.deletable(id),
    ensures
        m.leaves(m.detached(id)),
        m.loses(m.detached(id), id),
        forall|x: SessionId| #[trigger] m.loses(m.detached(id), x) ==> x == id,
        forall|b: SessionId| b != id ==> (#[trigger] m.lists(id, b) <==> m.orphans(id).contains(b)),
{
    let after = m.detached(id);
    lemma_detached_only_removes(m, id);
    lemma_entry_index(m.entries, id, 0);
    let k = entry_index(m.entries, id, 0)->0;
    assert forall|x: SessionId| #[trigger] after.has(x) <==> m.has(x) && x != id by {
        lemma_entry_index(m.entries, x, 0);
        lemma_entry_index(after.entries, x, 0);
        if let Some(j) = entry_index(after.entries, x, 0) {
            let was = if j < k {
                j
            } else {
                j + 1
            };
            assert(after.entries[j] == m.entries[was]);
            assert(m.entries[was].id == x);
        }
        if let Some(j) = entry_index(m.entries, x, 0) {
            if x != id {
                let now = if j < k {
                    j
                } else {
                    j - 1
                };
                assert(after.entries[now] == m.entries[j]);
            }
        }
    }
    assert forall|x: SessionId| #[trigger] after.has(x) implies m.has(x) && after.entry(x)
        == m.entry(x) by {
        lemma_entry_index(m.entries, x, 0);
        lemma_entry_index(after.entries, x, 0);
        let j = entry_index(after.entries, x, 0)->0;
        let was = if j < k {
            j
        } else {
            j + 1
        };
        assert(after.entries[j] == m.entries[was]);
        let i = entry_index(m.entries, x, 0)->0;
        assert(m.entries[i].id == m.entries[was].id);
        assert(i == was);
    }
    let middle = match m.entry(id).parent_id {
        Some(p) => without_child(m.children, p, id),
        None => m.children,
    };
    assert forall|a: SessionId, b: SessionId| b != id implies (children_of(middle, a).contains(b)
        <==> #[trigger] m.lists(a, b)) by {
        if let Some(p) = m.entry(id).parent_id {
            lemma_without_child(m.children, p, id, a, b);
        }
    }
    assert forall|a: SessionId, b: SessionId| a != id && #[trigger] after.lists(a, b) implies m.lists(
        a,
        b,
    ) by {
        lemma_without_parent(middle, id, a);
        if b == id {
            if let Some(p) = m.entry(id).parent_id {
                lemma_unlisted(m.children, p, id, a);
            }
        } else {
            assert(children_of(middle, a).contains(b) <==> m.lists(a, b));
        }
    }
    assert forall|a: SessionId, b: SessionId|
        a != id && b != id && #[trigger] m.lists(a, b) implies after.lists(a, b) by {
        lemma_without_parent(middle, id, a);
        assert(children_of(middle, a).contains(b) <==> m.lists(a, b));
    }
}

/// Taking a session out below a parent adds it nowhere.
proof fn lemma_unlisted(
    children: Seq<(SessionId, Seq<SessionId>)>,
    parent: SessionId,
    id: SessionId,
    a: SessionId,
)
    requires
        children_of(without_child(children, parent, id), a).contains(id),
    ensures
        children_of(children, a).contains(id),
{
    let after = without_child(children, parent, id);
    lemma_parent_index(children, parent, 0);
    lemma_parent_index(children, a, 0);
    lemma_parent_index(after, a, 0);
    if let Some(i) = parent_index(children, parent, 0) {
        lemma_without_id(children[i].1, id, id);
        let j = parent_index(after, a, 0)->0;
        assert(after[j].0 == children[j].0);
        if let Some(k) = parent_index(children, a, 0) {
            assert(after[k].0 == children[k].0);
            assert(j == k);
        }
    }
}

proof fn lemma_leaves_itself(m: ManagerView)
    requires
        m.ids_distinct(),
    ensures
        m.leaves(m),
        m.loses_with_children(m),
{
}

proof fn lemma_leaves_trans(a: ManagerView, b: ManagerView, c: ManagerView)
    requires
        a.leaves(b),
        b.leaves(c),
    ensures
        a.leaves(c),
{
    assert forall|x: SessionId| #[trigger] c.has(x) implies a.has(x) && c.entry(x) == a.entry(x) by {
        assert(b.has(x));
    }
    assert forall|x: SessionId, y: SessionId|
        c.has(x) && #[trigger] c.lists(x, y) implies a.lists(x, y) by {
        assert(b.has(x));
        assert(b.lists(x, y));
    }
    assert forall|x: SessionId, y: SessionId|
        c.has(x) && c.has(y) && #[trigger] a.lists(x, y) implies c.lists(x, y) by {
        assert(b.has(x) && b.has(y));
        assert(b.lists(x, y));
    }
}

/// What stands below a session afterwards stood there before.
proof fn lemma_below_before(
    m: ManagerView,
    after: ManagerView,
    id: SessionId,
    other: SessionId,
    n: nat,
)
    requires
        m.leaves(after),
        after.below_within(id, other, n),
    ensures
        m.below_within(id, other, n),
    decreases n,
{
    assert(after.has(id));
    if id != other {
        let c = choose|c: SessionId| #[trigger]
            after.lists(id, c) && after.below_within(c, other, (n - 1) as nat);
        assert(m.lists(id, c));
        lemma_below_before(m, after, c, other, (n - 1) as nat);
    }
}

/// A deletion takes nothing but what stands below, and with each session those
/// listed below it.
proof fn lemma_deleted_takes(m: ManagerView, id: SessionId)
    requires
        m.ids_distinct(),
    ensures
        m.deleted(id).0.ids_distinct(),
        m.leaves(m.deleted(id).0),
        m.loses_with_children(m.deleted(id).0),
        m.deletable(id) ==> m.loses(m.deleted(id).0, id),
        forall|x: SessionId| #[trigger] m.loses(m.deleted(id).0, x) ==> m.in_subtree(id, x),
    decreases m.entries.len(), 0nat, 0nat,
{
    let after = m.deleted(id).0;
    if !m.deletable(id) {
        lemma_leaves_itself(m);
    } else {
        let d = m.detached(id);
        let kids = m.orphans(id);
        lemma_detached_only_removes(m, id);
        lemma_detached_leaves(m, id);
        lemma_deleted_all_takes(d, kids);
        let rest = d.deleted_all(kids).0;
        lemma_leaves_trans(m, d, rest);
        assert(after == rest.clamped());
        assert forall|x: SessionId| #[trigger] after.has(x) == rest.has(x) by {}
        assert forall|x: SessionId, y: SessionId| #[trigger]
            after.lists(x, y) == rest.lists(x, y) by {}
        assert(m.leaves(after));
        assert(m.loses(after, id)) by {
            if rest.has(id) {
                assert(d.has(id));
            }
        }
        assert forall|x: SessionId| #[trigger] m.loses(after, x) implies m.in_subtree(id, x) by {
            if x == id {
                assert(m.below_within(id, x, 0));
            } else {
                assert(!m.loses(d, x));
                assert(d.loses(rest, x));
                let c = choose|c: SessionId| #[trigger] kids.contains(c) && d.in_subtree(c, x);
                let n = choose|n: nat| d.below_within(c, x, n);
                lemma_below_before(m, d, c, x, n);
                assert(c != id) by {
                    assert(d.has(c));
                }
                assert(m.lists(id, c));
                assert(m.below_within(id, x, n + 1)) by {
                    assert((n + 1 - 1) as nat == n);
                }
            }
        }
        assert forall|a: SessionId, b: SessionId|
            m.loses(after, a) && m.deletable(b) && #[trigger] m.lists(a, b) implies m.loses(
            after,
            b,
        ) by {
            if b != id {
                assert(!m.loses(d, b));
                assert(d.deletable(b));
                if a == id {
                    assert(kids.contains(b));
                    assert(d.loses(rest, b));
                } else {
                    assert(!m.loses(d, a));
                    assert(d.lists(a, b));
                    assert(d.loses(rest, a));
                    assert(d.loses(rest, b));
                }
            }
        }
    }
}

proof fn lemma_deleted_all_takes(m: ManagerView, ids: Seq<SessionId>)
    requires
        m.ids_distinct(),
    ensures
        m.leaves(m.deleted_all(ids).0),
        m.loses_with_children(m.deleted_all(ids).0),
        forall|x: SessionId| #[trigger]
            ids.contains(x) && m.deletable(x) ==> m.loses(m.deleted_all(ids).0, x),
        forall|x: SessionId| #[trigger]
            m.loses(m.deleted_all(ids).0, x) ==> exists|c: SessionId| #[trigger]
                ids.contains(c) && m.in_subtree(c, x),
    decreases m.entries.len(), 1nat, ids.len(),
{
    let after = m.deleted_all(ids).0;
    if ids.len() == 0 {
        lemma_leaves_itself(m);
    } else {
        lemma_deleted_only_removes(m, ids[0]);
        lemma_deleted_takes(m, ids[0]);
        let first = m.deleted(ids[0]).0;
        let tail = ids.skip(1);
        lemma_deleted_all_takes(first, tail);
        lemma_leaves_trans(m, first, after);
        assert(ids.contains(ids[0]));
        assert forall|x: SessionId| #[trigger] ids.contains(x) && m.deletable(x) implies m.loses(
            after,
            x,
        ) by {
            let i = choose|i: int| 0 <= i < ids.len() && ids[i] == x;
            if first.has(x) {
                if i == 0 {
                    assert(m.loses(first, x));
                }
                assert(tail[i - 1] == x);
                assert(tail.contains(x));
                assert(first.loses(after, x));
            } else if after.has(x) {
                assert(first.has(x));
            }
        }
        assert forall|x: SessionId| #[trigger] m.loses(after, x) implies exists|c: SessionId|
            #[trigger] ids.contains(c) && m.in_subtree(c, x) by {
            if first.has(x) {
                assert(first.loses(after, x));
                let c = choose|c: SessionId| #[trigger]
                    tail.contains(c) && first.in_subtree(c, x);
                let i = choose|i: int| 0 <= i < tail.len() && tail[i] == c;
                assert(ids[i + 1] == c);
                assert(ids.contains(c));
                let n = choose|n: nat| first.below_within(c, x, n);
                lemma_below_before(m, first, c, x, n);
                assert(m.in_subtree(c, x));
            } else {
                assert(m.loses(first, x));
                assert(ids.contains(ids[0]) && m.in_subtree(ids[0], x));
            }
        }
        assert forall|a: SessionId, b: SessionId|
            m.loses(after, a) && m.deletable(b) && #[trigger] m.lists(a, b) implies m.loses(
            after,
            b,
        ) by {
            if first.has(a) {
                if first.has(b) {
                    assert(first.lists(a, b));
                    assert(first.loses(after, a));
                    assert(first.loses(after, b));
                } else if after.has(b) {
                    assert(first.has(b));
                }
            } else {
                assert(m.loses(first, a));
                assert(m.loses(first, b));
                if after.has(b) {
                    assert(first.has(b));
                }
            }
        }
    }
}

/// Where a session is lost with all listed below it, what stands below is lost.
proof fn lemma_subtree_lost(
    m: ManagerView,
    after: ManagerView,
    id: SessionId,
    other: SessionId,
    n: nat,
)
    requires
        m.loses_with_children(after),
        m.loses(after, id),
        m.below_within(id, other, n),
    ensures
        m.loses(after, other),
    decreases n,
{
    if id != other {
        let c = choose|c: SessionId| #[trigger]
            m.lists(id, c) && m.below_within(c, other, (n - 1) as nat);
        assert(m.deletable(c));
        lemma_subtree_lost(m, after, c, other, (n - 1) as nat);
    }
}

/// A deletion takes exactly the session and what stands below it: every other
/// session is still there, as it was. The active session is never taken, and
/// nothing is taken that only stands below it.
pub proof fn law_deletion_takes_the_subtree(m: ManagerView, id: SessionId, other: SessionId)
    requires
        m.ids_distinct(),
        m.deleted(id).1,
    ensures
        m.deleted(id).0.has(other) <==> m.has(other) && !m.in_subtree(id, other),
        m.deleted(id).0.has(other) ==> m.deleted(id).0.entry(other) == m.entry(other),
{
    let after = m.deleted(id).0;
    lemma_deleted_takes(m, id);
    if m.in_subtree(id, other) {
        let n = choose|n: nat| m.below_within(id, other, n);
        lemma_subtree_lost(m, after, id, other, n);
    }
    if m.has(other) && !after.has(other) {
        assert(m.loses(after, other));
    }
}

/// After a deletion the selected row exists, if there is any.
pub proof fn law_selected_row_exists(m: ManagerView, id: SessionId)
    requires
        m.deleted(id).1,
        m.deleted(id).0.rows().len() > 0,
    ensures
        m.deleted(id).0.list_selected < m.deleted(id).0.rows().len(),
{
    let rest = m.detached(id).deleted_all(m.orphans(id)).0;
    lemma_rows_ignore_selection(rest, rest.clamped(), rest.order.len() as int);
}

proof fn lemma_rows_ignore_selection(a: ManagerView, b: ManagerView, n: int)
    requires
        a.entries == b.entries,
        a.order == b.order,
        a.children == b.children,
    ensures
        a.rows_before(n) == b.rows_before(n),
    decreases n,
{
    if n > 0 {
        lemma_rows_ignore_selection(a, b, n - 1);
        let kids = children_of(a.children, a.order[n - 1]);
        lemma_child_rows_ignore_selection(a, b, kids, kids.len() as int);
    }
}

proof fn lemma_child_rows_ignore_selection(
    a: ManagerView,
    b: ManagerView,
    ids: Seq<SessionId>,
    n: int,
)
    requires
        a.entries == b.entries,
    ensures
        a.child_rows(ids, n) == b.child_rows(ids, n),
    decreases n,
{
    if n > 0 {
        lemma_child_rows_ignore_selection(a, b, ids, n - 1);
    }
}

/// Loading saved chats changes no session that is known already.
pub proof fn law_loading_keeps_known_sessions(
    m: ManagerView,
    headers: Seq<HeaderView>,
    id: SessionId,
)
    requires
        m.has(id),
    ensures
        m.loaded(headers).has(id),
        m.loaded(headers).entry(id) == m.entry(id),
        m.loaded(headers).active_id == m.active_id,
    decreases headers.len(),
{
    if headers.len() > 0 {
        law_loading_keeps_known_sessions(m, headers.drop_last(), id);
        let init = m.loaded(headers.drop_last());
        let after = m.loaded(headers);
        if !init.has(headers.last().id) {
            lemma_entry_index(init.entries, id, 0);
            lemma_entry_index(after.entries, id, 0);
            let k = entry_index(init.entries, id, 0)->0;
            assert(after.entries[k] == init.entries[k]);
            let j = entry_index(after.entries, id, 0)->0;
            if j < k {
                assert(after.entries[j] == init.entries[j]);
            }
        }
    }
}

/// No chat in a list is older than one behind it.
pub open spec fn is_newest_first(headers: Seq<HeaderView>) -> bool {
    forall|i: int, j: int|
        0 <= i < j < headers.len() ==> (#[trigger] headers[i]).updated_at >= (
        #[trigger] headers[j]).updated_at
}

proof fn lemma_place_of(sorted: Seq<HeaderView>, h: HeaderView, i: int)
    requires
        0 <= i <= sorted.len(),
    ensures
        i <= place_of(sorted, h, i) <= sorted.len(),
        forall|j: int|
            i <= j < place_of(sorted, h, i) ==> (#[trigger] sorted[j]).updated_at >= h.updated_at,
        place_of(sorted, h, i) < sorted.len() ==> sorted[place_of(sorted, h, i)].updated_at
            < h.updated_at,
    decreases sorted.len() - i,
{
    if i < sorted.len() && sorted[i].updated_at >= h.updated_at {
        lemma_place_of(sorted, h, i + 1);
    }
}

/// Saved chats are put in order by their times, the newest first, and none is
/// lost or added.
pub proof fn law_saved_chats_come_newest_first(headers: Seq<HeaderView>)
    ensures
        is_newest_first(newest_first(headers)),
        newest_first(headers).to_multiset() == headers.to_multiset(),
    decreases headers.len(),
{
    broadcast use vstd::seq_lib::group_to_multiset_ensures;

    if headers.len() == 0 {
        assert(newest_first(headers) =~= headers);
    } else {
        let rest = headers.drop_last();
        let h = headers.last();
        law_saved_chats_come_newest_first(rest);
        let init = newest_first(rest);
        lemma_place_of(init, h, 0);
        let p = place_of(init, h, 0);
        let all = init.insert(p, h);
        assert forall|i: int, j: int| 0 <= i < j < all.len() implies (#[trigger] all[i]).updated_at
            >= (#[trigger] all[j]).updated_at by {
            if j < p {
            } else if i < p && j == p {
            } else if i < p {
                assert(all[j] == init[j - 1]);
            } else if i == p {
                assert(all[j] == init[j - 1]);
                if p < j - 1 {
                    assert(init[p].updated_at >= init[j - 1].updated_at);
                }
            } else {
                assert(all[i] == init[i - 1] && all[j] == init[j - 1]);
            }
        }
        assert(headers =~= rest.push(h));
        vstd::seq_lib::to_multiset_insert(init, p, h);
    }
}

} // verus!
