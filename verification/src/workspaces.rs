//! Workspaces: the folders a chat runs in, which one a chat uses, and the
//! manager dialog that adds and deletes them.

use vstd::prelude::*;
use vstd::utf8::encode_utf8;
use crate::text::{bytes_lt, lemma_bytes_lt_asymmetric, lemma_bytes_lt_transitive, str_eq, str_less};

verus! {

/// A workspace folder known to the store.
pub struct WorkspaceMeta {
    pub id: String,
    pub name: String,
    pub path: String,
}

impl WorkspaceMeta {
    /// A copy of this workspace.
    pub fn duplicate(&self) -> (r: Self)
        ensures
            r == *self,
    {
        WorkspaceMeta { id: self.id.clone(), name: self.name.clone(), path: self.path.clone() }
    }
}

/// What the workspace manager asks its owner to do.
pub enum WorkspaceManagerEvent {
    AddRequested,
    CloseRequested,
    DeleteRequested { workspace_id: String },
}

/// The workspace manager dialog: the workspaces it lists and the one whose
/// deletion waits for a confirmation.
pub struct WorkspaceManager {
    pub workspaces: Vec<WorkspaceMeta>,
    pub confirming_id: Option<String>,
}

/// The index of the first workspace with the given id, from index `k`.
pub open spec fn index_of_id(ws: Seq<WorkspaceMeta>, id: Seq<char>, k: int) -> Option<int>
    decreases ws.len() - k,
{
    if k < 0 || k >= ws.len() {
        None
    } else if ws[k].id@ == id {
        Some(k)
    } else {
        index_of_id(ws, id, k + 1)
    }
}

/// The index of the first workspace with the given name, from index `k`.
pub open spec fn index_of_name(ws: Seq<WorkspaceMeta>, name: Seq<char>, k: int) -> Option<int>
    decreases ws.len() - k,
{
    if k < 0 || k >= ws.len() {
        None
    } else if ws[k].name@ == name {
        Some(k)
    } else {
        index_of_name(ws, name, k + 1)
    }
}

/// Whether the workspace is the built-in `Default` one.
pub open spec fn is_default_workspace(w: WorkspaceMeta) -> bool {
    w.name@ == "Default"@
}

/// The workspaces the manager lists: all but `Default`, in order.
pub open spec fn listed_workspaces(ws: Seq<WorkspaceMeta>) -> Seq<WorkspaceMeta>
    decreases ws.len(),
{
    if ws.len() == 0 {
        Seq::empty()
    } else {
        let r = listed_workspaces(ws.drop_last());
        if is_default_workspace(ws.last()) { r } else { r.push(ws.last()) }
    }
}

/// The workspace a chat starts in: the one saved on the thread when it still
/// exists, else `Default`, else the first; none when there is no workspace.
pub open spec fn initial_selection(ws: Seq<WorkspaceMeta>, saved: Option<Seq<char>>) -> Option<int> {
    let by_saved = match saved {
        Some(id) => index_of_id(ws, id, 0),
        None => None,
    };
    match by_saved {
        Some(k) => Some(k),
        None => match index_of_name(ws, "Default"@, 0) {
            Some(k) => Some(k),
            None => if ws.len() > 0 { Some(0int) } else { None },
        },
    }
}

/// `ws` without the workspaces whose id is `id`.
pub open spec fn without_id(ws: Seq<WorkspaceMeta>, id: Seq<char>) -> Seq<WorkspaceMeta>
    decreases ws.len(),
{
    if ws.len() == 0 {
        Seq::empty()
    } else {
        let r = without_id(ws.drop_last(), id);
        if ws.last().id@ == id { r } else { r.push(ws.last()) }
    }
}

proof fn lemma_index_of_id(ws: Seq<WorkspaceMeta>, id: Seq<char>, k: int)
    ensures
        index_of_id(ws, id, k) matches Some(j) ==> 0 <= k <= j < ws.len() && ws[j].id@ == id,
    decreases ws.len() - k,
{
    if k >= 0 && k < ws.len() && ws[k].id@ != id {
        lemma_index_of_id(ws, id, k + 1);
    }
}

proof fn lemma_index_of_name(ws: Seq<WorkspaceMeta>, name: Seq<char>, k: int)
    ensures
        index_of_name(ws, name, k) matches Some(j) ==> 0 <= k <= j < ws.len() && ws[j].name@ == name,
    decreases ws.len() - k,
{
    if k >= 0 && k < ws.len() && ws[k].name@ != name {
        lemma_index_of_name(ws, name, k + 1);
    }
}

/// The index of the workspace with id `id`.
pub fn find_workspace(ws: &Vec<WorkspaceMeta>, id: &str) -> (r: Option<usize>)
    ensures
        match r {
            Some(k) => index_of_id(ws@, id@, 0) == Some(k as int),
            None => index_of_id(ws@, id@, 0) is None,
        },
{
    let mut k: usize = 0;
    while k < ws.len()
        invariant
            k <= ws.len(),
            index_of_id(ws@, id@, 0) == index_of_id(ws@, id@, k as int),
        decreases ws.len() - k,
    {
        if str_eq(ws[k].id.as_str(), id) {
            return Some(k);
        }
        k = k + 1;
    }
    None
}

fn find_workspace_named(ws: &Vec<WorkspaceMeta>, name: &str) -> (r: Option<usize>)
    ensures
        match r {
            Some(k) => index_of_name(ws@, name@, 0) == Some(k as int),
            None => index_of_name(ws@, name@, 0) is None,
        },
{
    let mut k: usize = 0;
    while k < ws.len()
        invariant
            k <= ws.len(),
            index_of_name(ws@, name@, 0) == index_of_name(ws@, name@, k as int),
        decreases ws.len() - k,
    {
        if str_eq(ws[k].name.as_str(), name) {
            return Some(k);
        }
        k = k + 1;
    }
    None
}

/// The workspace a chat has created before it opens: `Default` when the
/// store lists no workspace, none otherwise.
pub open spec fn default_workspace_request(listed: Seq<WorkspaceMeta>) -> Option<Seq<char>> {
    if listed.len() == 0 {
        Some("Default"@)
    } else {
        None
    }
}

/// The name of the workspace to create before a chat opens, when the store
/// lists none.
pub fn default_workspace_to_create(listed: &Vec<WorkspaceMeta>) -> (r: Option<&'static str>)
    ensures
        match r {
            Some(name) => default_workspace_request(listed@) == Some(name@),
            None => default_workspace_request(listed@) is None,
        },
{
    if listed.len() == 0 {
        Some("Default")
    } else {
        None
    }
}

/// The workspaces a chat opens with: those listed, or, when none were, the
/// `Default` workspace the store created (none if creating it failed).
pub open spec fn workspaces_with_default(listed: Seq<WorkspaceMeta>, created: Option<WorkspaceMeta>) -> Seq<WorkspaceMeta> {
    if listed.len() == 0 {
        match created {
            Some(w) => seq![w],
            None => Seq::empty(),
        }
    } else {
        listed
    }
}

/// The listed workspaces, or the created `Default` one when none were listed.
pub fn with_created_default(listed: Vec<WorkspaceMeta>, created: Option<WorkspaceMeta>) -> (r: Vec<WorkspaceMeta>)
    ensures
        r@ == workspaces_with_default(listed@, created),
{
    if listed.len() == 0 {
        let mut out: Vec<WorkspaceMeta> = Vec::new();
        if let Some(w) = created {
            out.push(w);
        }
        out
    } else {
        listed
    }
}

/// The id of the workspace a chat starts in.
pub fn initial_workspace_id(ws: &Vec<WorkspaceMeta>, saved: Option<&str>) -> (r: Option<String>)
    ensures
        match initial_selection(ws@, match saved { Some(s) => Some(s@), None => None }) {
            Some(k) => 0 <= k < ws@.len() && r == Some(ws@[k].id),
            None => r is None,
        },
{
    let by_saved = match saved {
        Some(id) => find_workspace(ws, id),
        None => None,
    };
    let pick = match by_saved {
        Some(k) => Some(k),
        None => match find_workspace_named(ws, "Default") {
            Some(k) => Some(k),
            None => if ws.len() > 0 { Some(0) } else { None },
        },
    };
    proof {
        if let Some(id) = saved {
            lemma_index_of_id(ws@, id@, 0);
        }
        lemma_index_of_name(ws@, "Default"@, 0);
    }
    match pick {
        Some(k) => Some(ws[k].id.clone()),
        None => None,
    }
}

/// The folder of the selected workspace, when one is selected and exists.
pub fn selected_workspace_path(ws: &Vec<WorkspaceMeta>, selected: &Option<String>) -> (r: Option<String>)
    ensures
        match selected {
            Some(id) => match index_of_id(ws@, id@, 0) {
                Some(k) => 0 <= k < ws@.len() && r == Some(ws@[k].path),
                None => r is None,
            },
            None => r is None,
        },
{
    match selected {
        Some(id) => match find_workspace(ws, id.as_str()) {
            Some(k) => {
                proof { lemma_index_of_id(ws@, id@, 0); }
                Some(ws[k].path.clone())
            },
            None => None,
        },
        None => None,
    }
}

/// Removes the workspace `id` from a chat's list; when it was the selected
/// one, the selection moves to the first remaining workspace.
pub fn remove_workspace(ws: &mut Vec<WorkspaceMeta>, selected: &mut Option<String>, id: &str)
    ensures
        final(ws)@ == without_id(old(ws)@, id@),
        match *old(selected) {
            Some(s) => if s@ == id@ {
                match *final(selected) {
                    Some(n) => final(ws)@.len() > 0 && n == final(ws)@[0].id,
                    None => final(ws)@.len() == 0,
                }
            } else {
                *final(selected) == *old(selected)
            },
            None => *final(selected) == *old(selected),
        },
{
    let mut kept: Vec<WorkspaceMeta> = Vec::new();
    let n = ws.len();
    let mut k: usize = 0;
    while k < n
        invariant
            k <= n,
            n == ws.len(),
            ws@ == old(ws)@,
            kept@ == without_id(ws@.take(k as int), id@),
        decreases n - k,
    {
        assert(ws@.take(k + 1).drop_last() =~= ws@.take(k as int));
        if !str_eq(ws[k].id.as_str(), id) {
            kept.push(ws[k].duplicate());
        }
        k = k + 1;
    }
    assert(ws@.take(n as int) =~= ws@);
    *ws = kept;
    let was_selected = match selected {
        Some(s) => str_eq(s.as_str(), id),
        None => false,
    };
    if was_selected {
        *selected = if ws.len() > 0 { Some(ws[0].id.clone()) } else { None };
    }
}

impl WorkspaceManager {
    /// A manager listing `workspaces`, with no deletion pending.
    pub fn new(workspaces: Vec<WorkspaceMeta>) -> (r: Self)
        ensures
            r.workspaces == workspaces,
            r.confirming_id is None,
    {
        WorkspaceManager { workspaces, confirming_id: None }
    }

    /// Replaces the listed workspaces; a pending deletion is dropped.
    pub fn set_workspaces(&mut self, workspaces: Vec<WorkspaceMeta>)
        ensures
            final(self).workspaces == workspaces,
            final(self).confirming_id is None,
    {
        self.workspaces = workspaces;
        self.confirming_id = None;
    }

    /// Sets the workspace whose deletion waits for a confirmation.
    pub fn set_confirming(&mut self, workspace_id: Option<String>)
        ensures
            final(self).confirming_id == workspace_id,
            final(self).workspaces == old(self).workspaces,
    {
        self.confirming_id = workspace_id;
    }

    /// Whether the row of `workspace_id` asks "Delete?".
    pub fn is_confirming(&self, workspace_id: &str) -> (r: bool)
        ensures
            r == (self.confirming_id matches Some(c) && c@ == workspace_id@),
    {
        match &self.confirming_id {
            Some(c) => str_eq(c.as_str(), workspace_id),
            None => false,
        }
    }

    /// The workspaces the dialog lists: all but `Default`.
    pub fn listed(&self) -> (r: Vec<&WorkspaceMeta>)
        ensures
            r@.len() == listed_workspaces(self.workspaces@).len(),
            forall|i: int| 0 <= i < r@.len() ==> *r@[i] == listed_workspaces(self.workspaces@)[i],
    {
        let mut r: Vec<&WorkspaceMeta> = Vec::new();
        let mut k: usize = 0;
        while k < self.workspaces.len()
            invariant
                k <= self.workspaces.len(),
                r@.len() == listed_workspaces(self.workspaces@.take(k as int)).len(),
                forall|i: int| 0 <= i < r@.len() ==> *r@[i] == listed_workspaces(self.workspaces@.take(k as int))[i],
            decreases self.workspaces.len() - k,
        {
            assert(self.workspaces@.take(k + 1).drop_last() =~= self.workspaces@.take(k as int));
            let w = &self.workspaces[k];
            if !str_eq(w.name.as_str(), "Default") {
                r.push(w);
            }
            k = k + 1;
        }
        assert(self.workspaces@.take(self.workspaces@.len() as int) =~= self.workspaces@);
        r
    }

    /// The delete button of a row: its deletion now waits for a confirmation.
    pub fn request_delete(&mut self, workspace_id: String)
        ensures
            final(self).confirming_id == Some(workspace_id),
            final(self).workspaces == old(self).workspaces,
    {
        self.confirming_id = Some(workspace_id);
    }

    /// "Yes" on a row: the pending deletion ends and the owner is asked to
    /// delete the workspace.
    pub fn confirm_delete(&mut self, workspace_id: String) -> (e: WorkspaceManagerEvent)
        ensures
            final(self).confirming_id is None,
            final(self).workspaces == old(self).workspaces,
            e == (WorkspaceManagerEvent::DeleteRequested { workspace_id }),
    {
        self.confirming_id = None;
        WorkspaceManagerEvent::DeleteRequested { workspace_id }
    }

    /// "No" on a row: the pending deletion ends.
    pub fn cancel_delete(&mut self)
        ensures
            final(self).confirming_id is None,
            final(self).workspaces == old(self).workspaces,
    {
        self.confirming_id = None;
    }
}


/// Whether `a` is listed before `b`: `Default` first, then by name.
pub open spec fn ws_before(a: WorkspaceMeta, b: WorkspaceMeta) -> bool {
    if is_default_workspace(a) {
        !is_default_workspace(b)
    } else if is_default_workspace(b) {
        false
    } else {
        bytes_lt(encode_utf8(a.name@), encode_utf8(b.name@))
    }
}

/// The first index from `k` whose workspace `x` goes before, or the end.
pub open spec fn insert_position(s: Seq<WorkspaceMeta>, x: WorkspaceMeta, k: int) -> int
    decreases s.len() - k,
{
    if k < 0 || k >= s.len() {
        s.len() as int
    } else if ws_before(x, s[k]) {
        k
    } else {
        insert_position(s, x, k + 1)
    }
}

/// The workspaces in display order: inserted one by one, each before the
/// first workspace it goes before, so equal keys keep their order.
pub open spec fn sorted_workspaces(s: Seq<WorkspaceMeta>) -> Seq<WorkspaceMeta>
    decreases s.len(),
{
    if s.len() == 0 {
        s
    } else {
        let t = sorted_workspaces(s.drop_last());
        t.insert(insert_position(t, s.last(), 0), s.last())
    }
}

/// Whether no workspace of `s` goes before one listed earlier.
pub open spec fn in_display_order(s: Seq<WorkspaceMeta>) -> bool {
    forall|i: int, j: int| 0 <= i < j < s.len() ==> !ws_before(#[trigger] s[j], #[trigger] s[i])
}

proof fn lemma_ws_before_asymmetric(a: WorkspaceMeta, b: WorkspaceMeta)
    ensures
        !(ws_before(a, b) && ws_before(b, a)),
{
    lemma_bytes_lt_asymmetric(encode_utf8(a.name@), encode_utf8(b.name@));
}

proof fn lemma_ws_before_transitive(a: WorkspaceMeta, b: WorkspaceMeta, c: WorkspaceMeta)
    requires
        ws_before(a, b),
        ws_before(b, c),
    ensures
        ws_before(a, c),
{
    if !is_default_workspace(a) && !is_default_workspace(b) && !is_default_workspace(c) {
        lemma_bytes_lt_transitive(encode_utf8(a.name@), encode_utf8(b.name@), encode_utf8(c.name@));
    }
}

proof fn lemma_insert_position(s: Seq<WorkspaceMeta>, x: WorkspaceMeta, k: int)
    requires
        0 <= k <= s.len(),
    ensures
        k <= insert_position(s, x, k) <= s.len(),
        forall|i: int| k <= i < insert_position(s, x, k) ==> !ws_before(x, #[trigger] s[i]),
        insert_position(s, x, k) < s.len() ==> ws_before(x, s[insert_position(s, x, k)]),
    decreases s.len() - k,
{
    if k < s.len() && !ws_before(x, s[k]) {
        lemma_insert_position(s, x, k + 1);
    }
}

proof fn lemma_insert_keeps_order(s: Seq<WorkspaceMeta>, x: WorkspaceMeta)
    requires
        in_display_order(s),
    ensures
        in_display_order(s.insert(insert_position(s, x, 0), x)),
{
    let p = insert_position(s, x, 0);
    lemma_insert_position(s, x, 0);
    let t = s.insert(p, x);
    assert forall|i: int, j: int| 0 <= i < j < t.len() implies !ws_before(#[trigger] t[j], #[trigger] t[i]) by {
        if j < p {
            assert(t[i] == s[i] && t[j] == s[j]);
        } else if j == p {
            assert(t[i] == s[i]);
        } else if i < p {
            assert(t[i] == s[i] && t[j] == s[j - 1]);
        } else if i == p {
            assert(t[j] == s[j - 1]);
            if ws_before(s[j - 1], x) {
                lemma_ws_before_asymmetric(x, s[p]);
                if j - 1 > p {
                    lemma_ws_before_transitive(s[j - 1], x, s[p]);
                    assert(!ws_before(s[j - 1], s[p]));
                }
            }
        } else {
            assert(t[i] == s[i - 1] && t[j] == s[j - 1]);
        }
    }
}

/// Sorting keeps the workspaces (as a multiset) and puts them in display
/// order: `Default` first, then by name.
pub proof fn lemma_sorted_workspaces(s: Seq<WorkspaceMeta>)
    ensures
        in_display_order(sorted_workspaces(s)),
        sorted_workspaces(s).to_multiset() == s.to_multiset(),
    decreases s.len(),
{
    broadcast use vstd::seq_lib::to_multiset_insert, vstd::seq_lib::to_multiset_build;
    if s.len() > 0 {
        lemma_sorted_workspaces(s.drop_last());
        let t = sorted_workspaces(s.drop_last());
        lemma_insert_keeps_order(t, s.last());
        lemma_insert_position(t, s.last(), 0);
        assert(s.drop_last().push(s.last()) =~= s);
    }
}

/// Sorted for display, the workspaces are the same ones, every workspace
/// named `Default` comes before every other, and any two others stand in
/// the order of their whole names as strings (byte-wise, as `str`
/// compares): a name never follows one that is greater.
pub proof fn lemma_display_order_by_full_name(s: Seq<WorkspaceMeta>)
    ensures
        sorted_workspaces(s).to_multiset() == s.to_multiset(),
        forall|i: int, j: int| 0 <= i < j < sorted_workspaces(s).len()
            && #[trigger] sorted_workspaces(s)[j].name@ == "Default"@
            ==> #[trigger] sorted_workspaces(s)[i].name@ == "Default"@,
        forall|i: int, j: int| 0 <= i < j < sorted_workspaces(s).len()
            && #[trigger] sorted_workspaces(s)[i].name@ != "Default"@
            && #[trigger] sorted_workspaces(s)[j].name@ != "Default"@
            ==> !bytes_lt(encode_utf8(sorted_workspaces(s)[j].name@), encode_utf8(sorted_workspaces(s)[i].name@)),
{
    lemma_sorted_workspaces(s);
    let t = sorted_workspaces(s);
    assert forall|i: int, j: int| 0 <= i < j < t.len() && #[trigger] t[j].name@ == "Default"@
        implies #[trigger] t[i].name@ == "Default"@ by {
        assert(!ws_before(t[j], t[i]));
    }
    assert forall|i: int, j: int| 0 <= i < j < t.len() && #[trigger] t[i].name@ != "Default"@
        && #[trigger] t[j].name@ != "Default"@
        implies !bytes_lt(encode_utf8(t[j].name@), encode_utf8(t[i].name@)) by {
        assert(!ws_before(t[j], t[i]));
    }
}

/// Puts the workspaces in display order: `Default` first, then by name;
/// workspaces that tie keep their order.
pub fn sort_workspaces(ws: &mut Vec<WorkspaceMeta>)
    ensures
        final(ws)@ == sorted_workspaces(old(ws)@),
{
    let mut out: Vec<WorkspaceMeta> = Vec::new();
    let n = ws.len();
    let mut k: usize = 0;
    while k < n
        invariant
            k <= n,
            n == ws.len(),
            ws@ == old(ws)@,
            out@ == sorted_workspaces(ws@.take(k as int)),
        decreases n - k,
    {
        assert(ws@.take(k + 1).drop_last() =~= ws@.take(k as int));
        let x = ws[k].duplicate();
        let x_default = str_eq(x.name.as_str(), "Default");
        let mut p: usize = 0;
        while p < out.len()
            invariant
                p <= out.len(),
                k < ws@.len(),
                x == ws@[k as int],
                x_default == is_default_workspace(x),
                insert_position(out@, x, 0) == insert_position(out@, x, p as int),
            ensures
                p <= out.len(),
                insert_position(out@, x, 0) == p,
            decreases out.len() - p,
        {
            let y_default = str_eq(out[p].name.as_str(), "Default");
            let before = if x_default {
                !y_default
            } else if y_default {
                false
            } else {
                str_less(x.name.as_str(), out[p].name.as_str())
            };
            if before {
                break;
            }
            p = p + 1;
        }
        proof { lemma_insert_position(out@, x, 0); }
        out.insert(p, x);
        k = k + 1;
    }
    assert(ws@.take(n as int) =~= ws@);
    *ws = out;
}


/// One entry of the workspace filter popover.
#[derive(Clone, Copy, PartialEq, Eq, Debug, Structural)]
pub enum FilterEntry {
    /// "All workspaces": clears the filter.
    AllWorkspaces,
    /// The workspace at this index of the popover's list.
    Workspace(usize),
}

/// The popover that picks the workspace the thread list is filtered by:
/// its workspaces in display order (`Default` first, then by name).
pub struct WorkspaceFilterPopover {
    pub workspaces: Vec<WorkspaceMeta>,
}

impl WorkspaceFilterPopover {
    pub fn new(workspaces: Vec<WorkspaceMeta>) -> (r: Self)
        ensures
            r.workspaces@ == sorted_workspaces(workspaces@),
    {
        let mut workspaces = workspaces;
        sort_workspaces(&mut workspaces);
        WorkspaceFilterPopover { workspaces }
    }

    /// The entries listed: "All workspaces" first, then each workspace in
    /// display order.
    pub fn entries(&self) -> (r: Vec<FilterEntry>)
        ensures
            r@.len() == self.workspaces@.len() + 1,
            r@[0] == FilterEntry::AllWorkspaces,
            forall|i: int| 0 <= i < self.workspaces@.len() ==> #[trigger] r@[i + 1] == FilterEntry::Workspace(i as usize),
    {
        let mut out: Vec<FilterEntry> = Vec::new();
        out.push(FilterEntry::AllWorkspaces);
        let mut k: usize = 0;
        while k < self.workspaces.len()
            invariant
                k <= self.workspaces@.len(),
                out@.len() == k + 1,
                out@[0] == FilterEntry::AllWorkspaces,
                forall|i: int| 0 <= i < k ==> #[trigger] out@[i + 1] == FilterEntry::Workspace(i as usize),
            decreases self.workspaces@.len() - k,
        {
            out.push(FilterEntry::Workspace(k));
            k = k + 1;
        }
        out
    }

    /// The filter that picking `entry` sets: none for "All workspaces",
    /// else the workspace listed there.
    pub fn pick(&self, entry: FilterEntry) -> (r: Option<WorkspaceMeta>)
        requires
            entry matches FilterEntry::Workspace(i) ==> i < self.workspaces@.len(),
        ensures
            match entry {
                FilterEntry::AllWorkspaces => r is None,
                FilterEntry::Workspace(i) => r == Some(self.workspaces@[i as int]),
            },
    {
        match entry {
            FilterEntry::AllWorkspaces => None,
            FilterEntry::Workspace(i) => Some(self.workspaces[i].duplicate()),
        }
    }
}

} // verus!
