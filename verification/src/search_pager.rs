//! The paging and search bookkeeping shared by the extension and skill
//! installers: which page is shown, the cursors that reach later pages,
//! and the generation counter that drops the answers of superseded requests.

use vstd::prelude::*;
use crate::text::{trim_whitespace, trim_by, whitespace_pred};

verus! {

/// What a fetch must be asked for: the request's generation, the search
/// text (absent for the default listing) and the cursor of the page.
pub struct PageRequest {
    pub generation: usize,
    pub query: Option<String>,
    pub cursor: Option<String>,
}

/// The search state of an installer window, over items of type `T`.
pub struct SearchPager<T> {
    pub loading: bool,
    pub error: Option<String>,
    pub items: Vec<T>,
    pub current_query: String,
    pub current_page: usize,
    /// `page_cursors[p - 1]` reaches page `p + 1`.
    pub page_cursors: Vec<String>,
    pub has_more: bool,
    pub search_generation: usize,
}

/// The texts of a list of cursors.
pub open spec fn cursor_texts(cursors: Seq<String>) -> Seq<Seq<char>> {
    cursors.map_values(|c: String| c@)
}

/// `texts` with `c` at `slot`, padded with empty texts up to it.
pub open spec fn with_cursor(texts: Seq<Seq<char>>, slot: int, c: Seq<char>) -> Seq<Seq<char>> {
    if texts.len() <= slot {
        (texts + Seq::new((slot - texts.len()) as nat, |k: int| Seq::<char>::empty())).push(c)
    } else {
        texts.update(slot, c)
    }
}

/// The cursor text that fetches `page` from the stored `texts`.
pub open spec fn cursor_text_for_page(texts: Seq<Seq<char>>, page: int) -> Option<Seq<char>> {
    if page <= 1 {
        None
    } else if page - 2 < texts.len() {
        Some(texts[page - 2])
    } else {
        None
    }
}

/// Stores `cursor` at `idx`, padding with empty strings up to it.
fn put_cursor(cursors: &mut Vec<String>, idx: usize, cursor: String)
    requires
        idx < usize::MAX,
    ensures
        cursor_texts(final(cursors)@) == with_cursor(cursor_texts(old(cursors)@), idx as int, cursor@),
        final(cursors)@.len() == if old(cursors)@.len() <= idx { idx + 1 } else { old(cursors)@.len() as int },
{
    let ghost before = cursors@;
    while cursors.len() < idx + 1
        invariant
            idx < usize::MAX,
            before == old(cursors)@,
            before.len() <= cursors@.len(),
            cursors@.len() <= if before.len() <= idx { idx + 1 } else { before.len() as int },
            forall|k: int| 0 <= k < before.len() ==> cursors@[k] == before[k],
            forall|k: int| before.len() <= k < cursors@.len() ==> cursors@[k]@.len() == 0,
        decreases idx + 1 - cursors.len(),
    {
        cursors.push(String::new());
    }
    cursors.set(idx, cursor);
    proof {
        let t = with_cursor(cursor_texts(before), idx as int, cursor@);
        assert(cursor_texts(cursors@) =~= t) by {
            assert forall|k: int| 0 <= k < t.len() implies cursor_texts(cursors@)[k] == t[k] by {
                if k < before.len() && k != idx {
                    assert(cursors@[k] == before[k]);
                } else if k != idx {
                    assert(cursors@[k]@ =~= Seq::<char>::empty());
                }
            }
        }
    }
}

/// The generation that follows `g`, wrapping at the top of `usize`.
pub open spec fn next_generation(g: usize) -> usize {
    if g == usize::MAX { 0 } else { (g + 1) as usize }
}

/// The slot of `page_cursors` that a cursor stored for `page` goes to.
pub open spec fn cursor_slot(page: usize) -> int {
    if page == 0 { 0 } else { page - 1 }
}

impl<T> SearchPager<T> {
    /// The shape the pager keeps: the current page is at least one and at
    /// most one past the stored cursors, and the cursor list has room to grow.
    pub open spec fn wf(&self) -> bool {
        &&& 1 <= self.current_page <= self.page_cursors.len() + 1
        &&& self.page_cursors.len() + 1 < usize::MAX
    }

    /// The number of pages the pager offers.
    pub open spec fn spec_total_pages(&self) -> int {
        if self.has_more {
            self.page_cursors.len() + 1
        } else if self.current_page < 1 {
            1
        } else {
            self.current_page as int
        }
    }

    /// The cursor that fetches `page`: none for the first page, else the
    /// cursor stored for the page before it, when one is stored.
    pub open spec fn spec_cursor_for_page(&self, page: usize) -> Option<String> {
        if page <= 1 {
            None
        } else if page - 2 < self.page_cursors.len() {
            Some(self.page_cursors@[page - 2])
        } else {
            None
        }
    }

    /// The query sent for the current search: none when the search box is empty.
    pub open spec fn spec_request_query(&self) -> Option<Seq<char>> {
        if self.current_query@.len() == 0 { None } else { Some(self.current_query@) }
    }

    /// A pager that is loading the default listing's first page.
    pub fn new() -> (r: Self)
        ensures
            r.wf(),
            r.loading,
            r.error is None,
            r.items@.len() == 0,
            r.current_query@.len() == 0,
            r.current_page == 1,
            r.page_cursors@.len() == 0,
            !r.has_more,
            r.search_generation == 1,
    {
        SearchPager {
            loading: true,
            error: None,
            items: Vec::new(),
            current_query: String::new(),
            current_page: 1,
            page_cursors: Vec::new(),
            has_more: false,
            search_generation: 1,
        }
    }

    /// The number of pages: one past the stored cursors while more results
    /// exist, else the current page (at least one).
    pub fn total_pages(&self) -> (r: usize)
        requires
            self.wf(),
        ensures
            r == self.spec_total_pages(),
    {
        if self.has_more {
            self.page_cursors.len() + 1
        } else if self.current_page < 1 {
            1
        } else {
            self.current_page
        }
    }

    /// The cursor that fetches `page`.
    pub fn cursor_for_page(&self, page: usize) -> (r: Option<String>)
        ensures
            r == self.spec_cursor_for_page(page),
            match r {
                Some(c) => cursor_text_for_page(cursor_texts(self.page_cursors@), page as int) == Some(c@),
                None => cursor_text_for_page(cursor_texts(self.page_cursors@), page as int) is None,
            },
    {
        if page <= 1 {
            None
        } else if page - 2 < self.page_cursors.len() {
            Some(self.page_cursors[page - 2].clone())
        } else {
            None
        }
    }

    /// Records whether more results follow the page `page`, and the cursor
    /// that reaches the page after it.
    pub fn store_page_cursor(&mut self, page: usize, next_cursor: Option<String>)
        ensures
            final(self).has_more == next_cursor is Some,
            final(self).loading == old(self).loading,
            final(self).error == old(self).error,
            final(self).items == old(self).items,
            final(self).current_query == old(self).current_query,
            final(self).current_page == old(self).current_page,
            final(self).search_generation == old(self).search_generation,
            match next_cursor {
                None => final(self).page_cursors@ == old(self).page_cursors@,
                Some(c) => cursor_texts(final(self).page_cursors@)
                    == with_cursor(cursor_texts(old(self).page_cursors@), cursor_slot(page), c@),
            },
            final(self).page_cursors@.len() >= old(self).page_cursors@.len(),
            final(self).page_cursors@.len() <= if old(self).page_cursors@.len() <= cursor_slot(page) {
                cursor_slot(page) + 1
            } else {
                old(self).page_cursors@.len() as int
            },
    {
        self.has_more = next_cursor.is_some();
        if let Some(cursor) = next_cursor {
            let idx = if page == 0 { 0 } else { page - 1 };
            put_cursor(&mut self.page_cursors, idx, cursor);
        }
    }

    /// Moves the generation on and returns it; any answer to an earlier
    /// request is then stale.
    pub fn next_search_generation(&mut self) -> (r: usize)
        ensures
            r == next_generation(old(self).search_generation),
            final(self).search_generation == r,
            final(self).loading == old(self).loading,
            final(self).error == old(self).error,
            final(self).items == old(self).items,
            final(self).current_query == old(self).current_query,
            final(self).current_page == old(self).current_page,
            final(self).page_cursors == old(self).page_cursors,
            final(self).has_more == old(self).has_more,
    {
        self.search_generation = if self.search_generation == usize::MAX {
            0
        } else {
            self.search_generation + 1
        };
        self.search_generation
    }

    /// The page a request for `page` moves to, or none when it would stay:
    /// the page is raised to at least one and clamped to the last page.
    pub open spec fn spec_page_target(&self, page: usize) -> Option<usize> {
        let target = if page < 1 { 1usize } else { page };
        if target == self.current_page {
            None
        } else {
            let total = self.spec_total_pages();
            let clamped = if target > total { total as usize } else { target };
            if clamped == self.current_page { None } else { Some(clamped) }
        }
    }

    /// Moves to `page`. When the page changes, the pager starts loading it
    /// under a new generation and returns what to fetch; otherwise nothing
    /// changes and nothing is fetched.
    pub fn go_to_page(&mut self, page: usize) -> (r: Option<PageRequest>)
        requires
            old(self).wf(),
        ensures
            final(self).wf(),
            match old(self).spec_page_target(page) {
                None => r is None && *final(self) == *old(self),
                Some(target) => {
                    &&& r matches Some(req) && {
                        &&& req.generation == next_generation(old(self).search_generation)
                        &&& req.cursor == old(self).spec_cursor_for_page(target)
                        &&& match req.query {
                            Some(q) => old(self).spec_request_query() == Some(q@),
                            None => old(self).spec_request_query() is None,
                        }
                    }
                    &&& 1 <= target <= old(self).spec_total_pages()
                    &&& final(self).current_page == target
                    &&& final(self).loading
                    &&& final(self).error is None
                    &&& final(self).search_generation == next_generation(old(self).search_generation)
                    &&& final(self).items == old(self).items
                    &&& final(self).current_query == old(self).current_query
                    &&& final(self).page_cursors == old(self).page_cursors
                    &&& final(self).has_more == old(self).has_more
                },
            },
    {
        let target = if page < 1 { 1 } else { page };
        if target == self.current_page {
            return None;
        }
        let max_reachable = self.total_pages();
        let target = if target > max_reachable { max_reachable } else { target };
        if target == self.current_page {
            return None;
        }
        let cursor = self.cursor_for_page(target);
        self.current_page = target;
        self.loading = true;
        self.error = None;
        let generation = self.next_search_generation();
        let query = self.request_query();
        Some(PageRequest { generation, query, cursor })
    }

    /// Starts a new search for the trimmed `query_text` from the first page,
    /// under a new generation; returns what to fetch once the typing pause
    /// has passed.
    pub fn schedule_search(&mut self, query_text: &str) -> (r: PageRequest)
        requires
            old(self).wf(),
        ensures
            final(self).wf(),
            final(self).current_query@ == trim_by(query_text@, whitespace_pred()),
            final(self).current_page == 1,
            final(self).page_cursors@.len() == 0,
            final(self).loading,
            final(self).error is None,
            final(self).search_generation == next_generation(old(self).search_generation),
            final(self).items == old(self).items,
            final(self).has_more == old(self).has_more,
            r.generation == final(self).search_generation,
            r.cursor is None,
            match r.query {
                Some(q) => q@ == final(self).current_query@ && q@.len() > 0,
                None => final(self).current_query@.len() == 0,
            },
    {
        self.current_query = trim_whitespace(query_text);
        self.current_page = 1;
        self.page_cursors.clear();
        self.loading = true;
        self.error = None;
        let generation = self.next_search_generation();
        let query = self.request_query();
        PageRequest { generation, query, cursor: None }
    }

    /// Whether `generation` is the latest request's: a fetch that waited for
    /// the typing pause runs only then.
    pub fn is_current(&self, generation: usize) -> (r: bool)
        ensures
            r == (generation == self.search_generation),
    {
        generation == self.search_generation
    }

    /// Takes the answer of the request `generation`. A stale answer changes
    /// nothing. Otherwise loading ends; on success the items are replaced
    /// and the next cursor is stored for the first page (`first_page`) or
    /// the current page; on failure the error is kept. Returns whether the
    /// answer was taken.
    pub fn apply_result(&mut self, generation: usize, first_page: bool, result: Result<(Vec<T>, Option<String>), String>) -> (applied: bool)
        requires
            old(self).wf(),
            old(self).page_cursors.len() + 2 < usize::MAX,
        ensures
            final(self).wf(),
            applied == (generation == old(self).search_generation),
            !applied ==> *final(self) == *old(self),
            applied ==> {
                &&& !final(self).loading
                &&& final(self).current_query == old(self).current_query
                &&& final(self).current_page == old(self).current_page
                &&& final(self).search_generation == old(self).search_generation
                &&& match result {
                    Ok((items, next)) => {
                        &&& final(self).items == items
                        &&& final(self).error == old(self).error
                        &&& final(self).has_more == next is Some
                        &&& match next {
                            None => final(self).page_cursors@ == old(self).page_cursors@,
                            Some(c) => cursor_texts(final(self).page_cursors@) == with_cursor(
                                cursor_texts(old(self).page_cursors@),
                                cursor_slot(if first_page { 1 } else { old(self).current_page }),
                                c@,
                            ),
                        }
                    },
                    Err(e) => {
                        &&& final(self).error == Some(e)
                        &&& final(self).items == old(self).items
                        &&& final(self).page_cursors == old(self).page_cursors
                        &&& final(self).has_more == old(self).has_more
                    },
                }
            },
    {
        if generation != self.search_generation {
            return false;
        }
        self.loading = false;
        match result {
            Ok((items, next_cursor)) => {
                let page = if first_page { 1 } else { self.current_page };
                self.store_page_cursor(page, next_cursor);
                self.items = items;
            },
            Err(e) => {
                self.error = Some(e);
            },
        }
        true
    }

    fn request_query(&self) -> (r: Option<String>)
        ensures
            match r {
                Some(q) => self.spec_request_query() == Some(q@),
                None => self.spec_request_query() is None,
            },
    {
        if self.current_query.as_str().is_empty() {
            None
        } else {
            Some(self.current_query.clone())
        }
    }
}


/// The cursor stored with the results of page `page` is the one that
/// fetches page `page + 1`.
pub proof fn lemma_stored_cursor_fetches_next_page(texts: Seq<Seq<char>>, page: int, c: Seq<char>)
    requires
        page >= 1,
    ensures
        cursor_text_for_page(with_cursor(texts, page - 1, c), page + 1) == Some(c),
{
}

/// Storing a cursor for one page leaves the cursors of the other stored
/// pages as they were.
pub proof fn lemma_store_keeps_other_cursors(texts: Seq<Seq<char>>, slot: int, c: Seq<char>, page: int)
    requires
        0 <= slot,
        2 <= page,
        page - 2 < texts.len(),
        page - 2 != slot,
    ensures
        cursor_text_for_page(with_cursor(texts, slot, c), page) == cursor_text_for_page(texts, page),
{
    let t = with_cursor(texts, slot, c);
    if texts.len() <= slot {
        assert(t[page - 2] == texts[page - 2]);
    }
}

/// Each new request gets a generation different from the one before, so
/// the answer to the superseded request is dropped.
pub proof fn lemma_new_generation_differs(g: usize)
    ensures
        next_generation(g) != g,
{
}

/// What the body of the extension window shows.
#[derive(Debug)]
pub enum ExtensionBody {
    /// Loading with nothing shown yet.
    Searching,
    /// The search failed.
    Failed(String),
    /// Nothing matched.
    NoneFound,
    /// The list: its items unless a page is loading, and a loader while one is.
    List { show_items: bool, show_loader: bool },
}

/// What the body of the skill window shows: an error or a "none found"
/// notice, and (possibly beside the error) the list.
pub struct SkillBody {
    pub error: Option<String>,
    pub none_found: bool,
    pub list: Option<(bool, bool)>,
}

impl<T> SearchPager<T> {
    /// The extension window's body: a first load shows the searching
    /// notice, then an error wins over the list.
    pub fn extension_body(&self) -> (r: ExtensionBody)
        ensures
            if self.loading && self.items@.len() == 0 {
                r is Searching
            } else if self.error is Some {
                r matches ExtensionBody::Failed(e) && Some(e) == self.error
            } else if self.items@.len() == 0 && !self.loading {
                r is NoneFound
            } else {
                r matches ExtensionBody::List { show_items, show_loader } && show_items == !self.loading && show_loader == self.loading
            },
    {
        if self.loading && self.items.len() == 0 {
            ExtensionBody::Searching
        } else if let Some(e) = &self.error {
            ExtensionBody::Failed(e.clone())
        } else if self.items.len() == 0 && !self.loading {
            ExtensionBody::NoneFound
        } else {
            ExtensionBody::List { show_items: !self.loading, show_loader: self.loading }
        }
    }

    /// The skill window's body: the error (or, without one, the notice
    /// that nothing matched when idle), and the list whenever there are
    /// items or a page is loading (items hidden while loading).
    pub fn skill_body(&self) -> (r: SkillBody)
        ensures
            r.error == self.error,
            r.none_found == (self.error is None && self.items@.len() == 0 && !self.loading),
            match r.list {
                Some((show_items, show_loader)) => (self.items@.len() > 0 || self.loading)
                    && show_items == !self.loading && show_loader == self.loading,
                None => self.items@.len() == 0 && !self.loading,
            },
    {
        let error = match &self.error {
            Some(e) => Some(e.clone()),
            None => None,
        };
        let none_found = self.error.is_none() && self.items.len() == 0 && !self.loading;
        let list = if self.items.len() > 0 || self.loading {
            Some((!self.loading, self.loading))
        } else {
            None
        };
        SkillBody { error, none_found, list }
    }

    /// Whether the pagination control shows: more than one page.
    pub fn shows_pagination(&self) -> (r: bool)
        requires
            self.wf(),
        ensures
            r == (self.spec_total_pages() > 1),
    {
        self.total_pages() > 1
    }
}

/// Whether the row of `name` shows its install running.
pub fn is_installing(installing: &Option<String>, name: &str) -> (r: bool)
    ensures
        r == (*installing matches Some(n) && n@ == name@),
{
    match installing {
        Some(n) => crate::text::str_eq(n.as_str(), name),
        None => false,
    }
}

/// The version label of a package or skill: `v` and the version.
pub fn version_label(version: &str) -> (r: String)
    ensures
        r@ == "v"@ + version@,
{
    let mut out: Vec<char> = Vec::new();
    crate::text::push_str(&mut out, "v");
    crate::text::push_str(&mut out, version);
    crate::text::string_of(out.as_slice())
}

} // verus!
