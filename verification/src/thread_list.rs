//! The thread list in the main window: pinned threads and the rest in two
//! sections, loaded page by page or as one search result, with hover and
//! delete-confirmation state.

use vstd::prelude::*;
use crate::text::{single_line, str_eq, to_single_line};
use crate::json::{json_bool, json_get, JsonValue};

verus! {

/// What the list keeps of a thread.
pub struct ThreadItem {
    pub id: String,
    pub title: String,
    pub preview: String,
    pub updated_at: String,
    pub pinned: bool,
    pub has_new_activity: bool,
}

/// A row of the list: its section and its place in it.
#[derive(Clone, Copy, PartialEq, Eq, Debug, Structural)]
pub struct IndexPath {
    pub section: usize,
    pub row: usize,
}

/// The two sections of the list.
#[derive(Clone, Copy, PartialEq, Eq, Debug, Structural)]
pub enum ThreadSection {
    Pinned,
    Unpinned,
}

impl ThreadSection {
    /// The header of the section.
    pub fn label(&self) -> (r: &'static str)
        ensures
            r@ == match self {
                ThreadSection::Pinned => "Pinned threads"@,
                ThreadSection::Unpinned => "Threads"@,
            },
    {
        proof {
            reveal_strlit("Pinned threads");
            reveal_strlit("Threads");
        }
        match self {
            ThreadSection::Pinned => "Pinned threads",
            ThreadSection::Unpinned => "Threads",
        }
    }
}

/// The title shown for a thread: `New Thread` when it has none, else the
/// title on one line.
pub open spec fn shown_thread_title(title: Seq<char>) -> Seq<char> {
    if title.len() == 0 { "New Thread"@ } else { single_line(title) }
}

/// The preview shown for a thread: `No messages yet` when it has none, else
/// the preview on one line.
pub open spec fn shown_preview(preview: Seq<char>) -> Seq<char> {
    if preview.len() == 0 { "No messages yet"@ } else { single_line(preview) }
}

/// The title a thread row shows.
pub fn thread_display_title(title: &str) -> (r: String)
    ensures
        r@ == shown_thread_title(title@),
{
    if title.is_empty() { "New Thread".to_owned() } else { to_single_line(title) }
}

/// The preview a thread row shows.
pub fn thread_display_preview(preview: &str) -> (r: String)
    ensures
        r@ == shown_preview(preview@),
{
    if preview.is_empty() { "No messages yet".to_owned() } else { to_single_line(preview) }
}

/// Whether a thread's metadata marks new activity: its `has_new_activity`
/// member is `true`; a missing or non-boolean member counts as no.
pub fn has_new_activity(metadata: Option<&JsonValue>) -> (r: bool)
    ensures
        r == match metadata {
            Some(md) => match json_get(*md, "has_new_activity"@) {
                Some(v) => json_bool(v) == Some(true),
                None => false,
            },
            None => false,
        },
{
    match metadata {
        Some(md) => match md.get("has_new_activity") {
            Some(v) => match v.as_bool() {
                Some(b) => b,
                None => false,
            },
            None => false,
        },
        None => false,
    }
}

/// Whether focusing the search field opens the workspace suggestions: only
/// while no workspace filter is set.
pub fn search_focus_opens_suggestions(has_filter: bool) -> (r: bool)
    ensures
        r == !has_filter,
{
    !has_filter
}

/// Whether no two items share an id.
pub open spec fn ids_distinct(items: Seq<ThreadItem>) -> bool {
    forall|i: int, j: int| 0 <= i < j < items.len() ==> #[trigger] items[i].id@ != #[trigger] items[j].id@
}

/// Whether some item has id `id`.
pub open spec fn has_id(items: Seq<ThreadItem>, id: Seq<char>) -> bool {
    exists|i: int| 0 <= i < items.len() && #[trigger] items[i].id@ == id
}

/// `items` with `incoming` added in order, each only when its id is not
/// there yet and it belongs to the section (`pinned` as asked).
pub open spec fn merged(items: Seq<ThreadItem>, incoming: Seq<ThreadItem>, pinned: bool) -> Seq<ThreadItem>
    decreases incoming.len(),
{
    if incoming.len() == 0 {
        items
    } else {
        let before = merged(items, incoming.drop_last(), pinned);
        let t = incoming.last();
        if t.pinned == pinned && !has_id(before, t.id@) { before.push(t) } else { before }
    }
}

/// The list's model of the threads on show and how far it has loaded.
pub struct ThreadListDelegate {
    pub query: String,
    pub workspace_filter: Option<String>,
    pub pinned: Vec<ThreadItem>,
    pub unpinned: Vec<ThreadItem>,
    pub selected_index: Option<IndexPath>,
    pub hovered_index: Option<IndexPath>,
    pub confirming_id: Option<String>,
    pub page: usize,
    pub per_page: usize,
    pub total: usize,
    pub eof: bool,
}

/// What the list asks the store for.
#[derive(Debug)]
pub enum ThreadQuery {
    /// A page of all threads, newest first.
    Page { page: usize, per_page: usize },
    /// Every thread matching the text, in the workspace when one is given.
    Search { query: String, workspace: Option<String> },
}

/// What the store answered the query of a refresh.
pub enum ThreadAnswer {
    /// A page of all threads: its number and size, the number of threads
    /// in all, and the page's threads.
    Page { page: usize, per_page: usize, total: usize, threads: Vec<ThreadItem> },
    /// Every thread the search found.
    Found(Vec<ThreadItem>),
    /// The store failed.
    Failed,
}

/// The section shown at position `section`: pinned threads first, then the
/// rest; an empty list takes no position.
pub open spec fn section_at(pinned_len: nat, unpinned_len: nat, section: int) -> Option<ThreadSection> {
    if pinned_len > 0 && section == 0 {
        Some(ThreadSection::Pinned)
    } else if unpinned_len > 0 && section == (if pinned_len > 0 { 1int } else { 0int }) {
        Some(ThreadSection::Unpinned)
    } else {
        None
    }
}

/// The sections of a list with threads are numbered densely over the
/// lists that have threads: every position below the number of sections
/// shows a list, a list shown is never empty, the two positions show
/// different lists, and together they show every thread.
pub proof fn lemma_sections_dense(pinned_len: nat, unpinned_len: nat)
    requires
        pinned_len + unpinned_len > 0,
    ensures
        forall|s: int| 0 <= s < (if pinned_len > 0 && unpinned_len > 0 { 2int } else { 1int })
            ==> #[trigger] section_at(pinned_len, unpinned_len, s) is Some,
        forall|s: int| section_at(pinned_len, unpinned_len, s) == Some(ThreadSection::Pinned) ==> pinned_len > 0,
        forall|s: int| section_at(pinned_len, unpinned_len, s) == Some(ThreadSection::Unpinned) ==> unpinned_len > 0,
        section_at(pinned_len, unpinned_len, 0) != section_at(pinned_len, unpinned_len, 1),
        (match section_at(pinned_len, unpinned_len, 0) {
            Some(ThreadSection::Pinned) => pinned_len,
            Some(ThreadSection::Unpinned) => unpinned_len,
            None => 0,
        }) + (match section_at(pinned_len, unpinned_len, 1) {
            Some(ThreadSection::Pinned) => pinned_len,
            Some(ThreadSection::Unpinned) => unpinned_len,
            None => 0,
        }) == pinned_len + unpinned_len,
{
}

impl ThreadListDelegate {
    /// Each section holds threads of its kind, none twice.
    pub open spec fn wf(&self) -> bool {
        &&& ids_distinct(self.pinned@)
        &&& ids_distinct(self.unpinned@)
        &&& forall|i: int| 0 <= i < self.pinned@.len() ==> (#[trigger] self.pinned@[i]).pinned
        &&& forall|i: int| 0 <= i < self.unpinned@.len() ==> !(#[trigger] self.unpinned@[i]).pinned
    }

    /// An empty list that loads twenty threads a page.
    pub fn new() -> (r: Self)
        ensures
            r.wf(),
            r.pinned@.len() == 0,
            r.unpinned@.len() == 0,
            r.page == 1,
            r.per_page == 20,
            r.total == 0,
            !r.eof,
            r.query@.len() == 0,
            r.workspace_filter is None,
            r.selected_index is None,
            r.hovered_index is None,
            r.confirming_id is None,
    {
        ThreadListDelegate {
            query: String::new(),
            workspace_filter: None,
            pinned: Vec::new(),
            unpinned: Vec::new(),
            selected_index: None,
            hovered_index: None,
            confirming_id: None,
            page: 1,
            per_page: 20,
            total: 0,
            eof: false,
        }
    }

    /// The pointer enters (`hovered`) or leaves row `ix`; leaving a row that
    /// is not the hovered one changes nothing.
    pub fn set_hovered(&mut self, ix: IndexPath, hovered: bool)
        ensures
            final(self).hovered_index == if hovered {
                Some(ix)
            } else if old(self).hovered_index == Some(ix) {
                None
            } else {
                old(self).hovered_index
            },
            final(self).pinned == old(self).pinned,
            final(self).unpinned == old(self).unpinned,
            final(self).selected_index == old(self).selected_index,
            final(self).confirming_id == old(self).confirming_id,
    {
        if hovered {
            self.hovered_index = Some(ix);
        } else if self.hovered_index == Some(ix) {
            self.hovered_index = None;
        }
    }

    /// The section shown at position `section`.
    pub fn section_for(&self, section: usize) -> (r: Option<ThreadSection>)
        ensures
            r == section_at(self.pinned@.len(), self.unpinned@.len(), section as int),
    {
        let mut i: usize = 0;
        if self.pinned.len() > 0 {
            if i == section {
                return Some(ThreadSection::Pinned);
            }
            i = i + 1;
        }
        if self.unpinned.len() > 0 {
            if i == section {
                return Some(ThreadSection::Unpinned);
            }
        }
        None
    }

    /// The thread shown at `ix`.
    pub fn thread_at(&self, ix: IndexPath) -> (r: Option<&ThreadItem>)
        ensures
            match section_at(self.pinned@.len(), self.unpinned@.len(), ix.section as int) {
                Some(ThreadSection::Pinned) => if ix.row < self.pinned@.len() {
                    r == Some(&self.pinned@[ix.row as int])
                } else {
                    r is None
                },
                Some(ThreadSection::Unpinned) => if ix.row < self.unpinned@.len() {
                    r == Some(&self.unpinned@[ix.row as int])
                } else {
                    r is None
                },
                None => r is None,
            },
    {
        match self.section_for(ix.section) {
            Some(ThreadSection::Pinned) => if ix.row < self.pinned.len() { Some(&self.pinned[ix.row]) } else { None },
            Some(ThreadSection::Unpinned) => if ix.row < self.unpinned.len() { Some(&self.unpinned[ix.row]) } else { None },
            None => None,
        }
    }

    /// How many sections are drawn: one per non-empty list, and one even
    /// when both are empty.
    pub fn sections_count(&self) -> (r: usize)
        ensures
            r == if self.pinned@.len() > 0 && self.unpinned@.len() > 0 { 2usize } else { 1usize },
    {
        let mut count: usize = 0;
        if self.pinned.len() > 0 {
            count = count + 1;
        }
        if self.unpinned.len() > 0 {
            count = count + 1;
        }
        if count < 1 { 1 } else { count }
    }

    /// How many threads section `section` shows.
    pub fn items_count(&self, section: usize) -> (r: usize)
        ensures
            r == match section_at(self.pinned@.len(), self.unpinned@.len(), section as int) {
                Some(ThreadSection::Pinned) => self.pinned@.len(),
                Some(ThreadSection::Unpinned) => self.unpinned@.len(),
                None => 0,
            },
    {
        match self.section_for(section) {
            Some(ThreadSection::Pinned) => self.pinned.len(),
            Some(ThreadSection::Unpinned) => self.unpinned.len(),
            None => 0,
        }
    }

    /// Whether scrolling to the end loads another page: only when listing
    /// all threads and the last page has not been reached.
    pub fn has_more(&self) -> (r: bool)
        ensures
            r == (!self.eof && self.query@.len() == 0),
    {
        !self.eof && self.query.as_str().is_empty()
    }

    /// Adds `threads` in order to their sections, skipping any whose id is
    /// already there.
    pub fn append_threads(&mut self, threads: Vec<ThreadItem>)
        requires
            old(self).wf(),
        ensures
            final(self).wf(),
            final(self).pinned@ == merged(old(self).pinned@, threads@, true),
            final(self).unpinned@ == merged(old(self).unpinned@, threads@, false),
            final(self).page == old(self).page,
            final(self).per_page == old(self).per_page,
            final(self).total == old(self).total,
            final(self).eof == old(self).eof,
            final(self).query == old(self).query,
    {
        let mut threads = threads;
        let ghost incoming = threads@;
        let ghost p0 = self.pinned@;
        let ghost u0 = self.unpinned@;
        let mut taken: Vec<ThreadItem> = Vec::new();
        // Take the items from the back so each can be moved out, then add
        // them in their original order.
        while threads.len() > 0
            invariant
                incoming == threads@ + taken@.reverse(),
            decreases threads.len(),
        {
            let t = threads.pop().unwrap();
            let ghost before = taken@;
            taken.push(t);
            assert(incoming =~= threads@ + taken@.reverse());
        }
        assert(taken@.reverse() =~= incoming);
        let mut k: usize = 0;
        let n = taken.len();
        while taken.len() > 0
            invariant
                k + taken.len() == n,
                n == incoming.len(),
                forall|i: int| 0 <= i < taken@.len() ==> taken@[i] == incoming[n - 1 - i],
                self.wf(),
                self.pinned@ == merged(p0, incoming.take(k as int), true),
                self.unpinned@ == merged(u0, incoming.take(k as int), false),
                self.page == old(self).page,
                self.per_page == old(self).per_page,
                self.total == old(self).total,
                self.eof == old(self).eof,
                self.query == old(self).query,
            decreases taken.len(),
        {
            let t = taken.pop().unwrap();
            assert(t == incoming[k as int]);
            assert(incoming.take(k + 1).drop_last() =~= incoming.take(k as int));
            assert(incoming.take(k + 1).last() == t);
            if t.pinned {
                if !contains_id(&self.pinned, t.id.as_str()) {
                    proof { lemma_push_distinct(self.pinned@, t); }
                    self.pinned.push(t);
                }
            } else {
                if !contains_id(&self.unpinned, t.id.as_str()) {
                    proof { lemma_push_distinct(self.unpinned@, t); }
                    self.unpinned.push(t);
                }
            }
            k = k + 1;
        }
        assert(incoming.take(n as int) =~= incoming);
    }

    /// Replaces the threads on show with `threads`.
    pub fn set_threads(&mut self, threads: Vec<ThreadItem>)
        requires
            old(self).wf(),
        ensures
            final(self).wf(),
            final(self).pinned@ == merged(Seq::empty(), threads@, true),
            final(self).unpinned@ == merged(Seq::empty(), threads@, false),
            final(self).page == old(self).page,
            final(self).per_page == old(self).per_page,
            final(self).total == old(self).total,
            final(self).eof == old(self).eof,
            final(self).query == old(self).query,
    {
        self.pinned = Vec::new();
        self.unpinned = Vec::new();
        self.append_threads(threads);
    }

    /// Starts showing the threads for `query`: with no query and no
    /// workspace filter, page one of all threads; otherwise one search that
    /// brings everything at once. Selection, hover and confirmation go.
    pub fn start_refresh(&mut self, query: &str) -> (r: ThreadQuery)
        ensures
            final(self).query@ == query@,
            final(self).page == 1,
            final(self).confirming_id is None,
            final(self).hovered_index is None,
            final(self).selected_index is None,
            final(self).pinned == old(self).pinned,
            final(self).unpinned == old(self).unpinned,
            final(self).per_page == old(self).per_page,
            final(self).total == old(self).total,
            final(self).workspace_filter == old(self).workspace_filter,
            if query@.len() == 0 && old(self).workspace_filter is None {
                &&& !final(self).eof
                &&& r matches ThreadQuery::Page { page, per_page }
                &&& page == 1
                &&& per_page == if old(self).per_page < 1 { 1 } else { old(self).per_page }
            } else {
                &&& final(self).eof
                &&& r matches ThreadQuery::Search { query: q, workspace }
                &&& q@ == query@
                &&& workspace == old(self).workspace_filter
            },
    {
        self.query = query.to_owned();
        self.confirming_id = None;
        self.hovered_index = None;
        self.selected_index = None;
        self.page = 1;
        if query.is_empty() && self.workspace_filter.is_none() {
            self.eof = false;
            ThreadQuery::Page { page: 1, per_page: if self.per_page < 1 { 1 } else { self.per_page } }
        } else {
            self.eof = true;
            let workspace = match &self.workspace_filter {
                Some(w) => Some(w.clone()),
                None => None,
            };
            ThreadQuery::Search { query: query.to_owned(), workspace }
        }
    }

    /// A page of threads arrived: it replaces what was shown, and the list
    /// has reached its end once `page * per_page` covers `total`.
    pub fn set_paginated(&mut self, page: usize, per_page: usize, total: usize, threads: Vec<ThreadItem>)
        requires
            old(self).wf(),
            page * per_page <= usize::MAX,
        ensures
            final(self).wf(),
            final(self).page == page,
            final(self).per_page == per_page,
            final(self).total == total,
            final(self).eof == (page * per_page >= total),
            final(self).pinned@ == merged(Seq::empty(), threads@, true),
            final(self).unpinned@ == merged(Seq::empty(), threads@, false),
            final(self).query == old(self).query,
    {
        self.page = page;
        self.per_page = per_page;
        self.total = total;
        self.eof = page * per_page >= total;
        self.set_threads(threads);
    }

    /// A search result arrived: everything is shown at once.
    pub fn set_search_results(&mut self, threads: Vec<ThreadItem>)
        requires
            old(self).wf(),
        ensures
            final(self).wf(),
            final(self).total == threads@.len(),
            final(self).per_page == if threads@.len() < 1 { 1 } else { threads@.len() },
            final(self).pinned@ == merged(Seq::empty(), threads@, true),
            final(self).unpinned@ == merged(Seq::empty(), threads@, false),
            final(self).page == old(self).page,
            final(self).eof == old(self).eof,
            final(self).query == old(self).query,
    {
        let n = threads.len();
        self.total = n;
        self.per_page = if n < 1 { 1 } else { n };
        self.set_threads(threads);
    }

    /// Loading failed: nothing is shown. A failed page load also ends the
    /// list (`end_list`).
    pub fn clear_after_error(&mut self, end_list: bool)
        ensures
            final(self).wf(),
            final(self).pinned@.len() == 0,
            final(self).unpinned@.len() == 0,
            final(self).total == 0,
            final(self).eof == (end_list || old(self).eof),
            final(self).page == old(self).page,
            final(self).query == old(self).query,
    {
        self.pinned = Vec::new();
        self.unpinned = Vec::new();
        self.total = 0;
        if end_list {
            self.eof = true;
        }
    }

    /// The store's answer to the query `asked` of a refresh arrived: a page
    /// replaces the list, search results show all at once, and a failure
    /// empties it; a failed page load also ends the list.
    pub fn finish_refresh(&mut self, asked: &ThreadQuery, answer: ThreadAnswer)
        requires
            old(self).wf(),
            answer matches ThreadAnswer::Page { page, per_page, .. } ==> page * per_page <= usize::MAX,
        ensures
            final(self).wf(),
            final(self).query == old(self).query,
            match answer {
                ThreadAnswer::Page { page, per_page, total, threads } => {
                    &&& final(self).page == page
                    &&& final(self).per_page == per_page
                    &&& final(self).total == total
                    &&& final(self).eof == (page * per_page >= total)
                    &&& final(self).pinned@ == merged(Seq::empty(), threads@, true)
                    &&& final(self).unpinned@ == merged(Seq::empty(), threads@, false)
                },
                ThreadAnswer::Found(threads) => {
                    &&& final(self).total == threads@.len()
                    &&& final(self).per_page == if threads@.len() < 1 { 1 } else { threads@.len() }
                    &&& final(self).pinned@ == merged(Seq::empty(), threads@, true)
                    &&& final(self).unpinned@ == merged(Seq::empty(), threads@, false)
                    &&& final(self).page == old(self).page
                    &&& final(self).eof == old(self).eof
                },
                ThreadAnswer::Failed => {
                    &&& final(self).pinned@.len() == 0
                    &&& final(self).unpinned@.len() == 0
                    &&& final(self).total == 0
                    &&& final(self).eof == (asked is Page || old(self).eof)
                    &&& final(self).page == old(self).page
                },
            },
    {
        match answer {
            ThreadAnswer::Page { page, per_page, total, threads } => self.set_paginated(page, per_page, total, threads),
            ThreadAnswer::Found(threads) => self.set_search_results(threads),
            ThreadAnswer::Failed => {
                let end_list = match asked {
                    ThreadQuery::Page { .. } => true,
                    ThreadQuery::Search { .. } => false,
                };
                self.clear_after_error(end_list);
            },
        }
    }

    /// The next page to load when the list is scrolled to its end: none
    /// while searching or once the end is reached.
    pub fn load_more_request(&self) -> (r: Option<(usize, usize)>)
        requires
            self.page < usize::MAX,
        ensures
            match r {
                Some((page, per_page)) => {
                    &&& self.query@.len() == 0 && !self.eof
                    &&& page == self.page + 1
                    &&& per_page == if self.per_page < 1 { 1 } else { self.per_page }
                },
                None => self.query@.len() > 0 || self.eof,
            },
    {
        if !self.query.as_str().is_empty() || self.eof {
            None
        } else {
            Some((self.page + 1, if self.per_page < 1 { 1 } else { self.per_page }))
        }
    }

    /// The next page arrived: its threads are added after those shown.
    pub fn append_page(&mut self, page: usize, per_page: usize, total: usize, threads: Vec<ThreadItem>)
        requires
            old(self).wf(),
            page * per_page <= usize::MAX,
        ensures
            final(self).wf(),
            final(self).page == page,
            final(self).per_page == per_page,
            final(self).total == total,
            final(self).eof == (page * per_page >= total),
            final(self).pinned@ == merged(old(self).pinned@, threads@, true),
            final(self).unpinned@ == merged(old(self).unpinned@, threads@, false),
            final(self).query == old(self).query,
    {
        self.page = page;
        self.per_page = per_page;
        self.total = total;
        self.eof = page * per_page >= total;
        self.append_threads(threads);
    }

    /// Lists only the threads of `workspace` (all threads for none); the
    /// list must then be refreshed.
    pub fn set_workspace_filter(&mut self, workspace: Option<String>)
        ensures
            final(self).workspace_filter == workspace,
            final(self).pinned == old(self).pinned,
            final(self).unpinned == old(self).unpinned,
            final(self).query == old(self).query,
            final(self).page == old(self).page,
            final(self).eof == old(self).eof,
    {
        self.workspace_filter = workspace;
    }

    /// Whether the row of thread `id` asks to confirm its deletion.
    pub fn is_confirming(&self, id: &str) -> (r: bool)
        ensures
            r == (self.confirming_id matches Some(c) && c@ == id@),
    {
        match &self.confirming_id {
            Some(c) => str_eq(c.as_str(), id),
            None => false,
        }
    }
}

proof fn lemma_push_distinct(items: Seq<ThreadItem>, t: ThreadItem)
    requires
        ids_distinct(items),
        !has_id(items, t.id@),
    ensures
        ids_distinct(items.push(t)),
{
    let after = items.push(t);
    assert forall|i: int, j: int| 0 <= i < j < after.len() implies #[trigger] after[i].id@ != #[trigger] after[j].id@ by {
        if j == after.len() - 1 {
            assert(after[i] == items[i]);
            if items[i].id@ == t.id@ {
                assert(has_id(items, t.id@));
            }
        } else {
            assert(after[i] == items[i] && after[j] == items[j]);
        }
    }
}

fn contains_id(items: &Vec<ThreadItem>, id: &str) -> (r: bool)
    ensures
        r == has_id(items@, id@),
{
    let mut k: usize = 0;
    while k < items.len()
        invariant
            k <= items.len(),
            forall|i: int| 0 <= i < k ==> items@[i].id@ != id@,
        decreases items.len() - k,
    {
        if str_eq(items[k].id.as_str(), id) {
            assert(items@[k as int].id@ == id@);
            return true;
        }
        k = k + 1;
    }
    false
}

/// Adding a page never shows a thread twice, and every thread already shown
/// stays, in its place.
pub proof fn lemma_merge_keeps_and_dedups(items: Seq<ThreadItem>, incoming: Seq<ThreadItem>, pinned: bool)
    requires
        ids_distinct(items),
    ensures
        ids_distinct(merged(items, incoming, pinned)),
        merged(items, incoming, pinned).len() >= items.len(),
        forall|i: int| 0 <= i < items.len() ==> #[trigger] merged(items, incoming, pinned)[i] == items[i],
    decreases incoming.len(),
{
    if incoming.len() > 0 {
        lemma_merge_keeps_and_dedups(items, incoming.drop_last(), pinned);
        let before = merged(items, incoming.drop_last(), pinned);
        let t = incoming.last();
        if t.pinned == pinned && !has_id(before, t.id@) {
            let after = before.push(t);
            assert forall|i: int, j: int| 0 <= i < j < after.len() implies #[trigger] after[i].id@ != #[trigger] after[j].id@ by {
                if j == after.len() - 1 {
                    assert(before[i].id@ != t.id@);
                }
            }
        }
    }
}

} // verus!
