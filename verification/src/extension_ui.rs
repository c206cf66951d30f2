//! Requests that agent extensions make of the chat window: dialogs to
//! open, notifications, editor text, status lines, widgets and the title,
//! and the answers sent back.

use vstd::prelude::*;
use crate::json::{json_get, json_str, json_str_member, str_member, JsonValue};
use crate::keyed::KeyedList;
use crate::text::str_eq;

verus! {

/// The kind of a notification an extension asks for.
#[derive(Clone, Copy, PartialEq, Eq, Debug, Structural)]
pub enum NotifyLevel {
    Info,
    Warning,
    Error,
}

/// What the chat window does for one extension request.
pub enum ExtensionUiAction {
    /// A choice with no options: answered as cancelled at once.
    CancelEmptySelect,
    Select { title: String, options: Vec<String> },
    Confirm { title: String, message: String },
    Input { title: String, placeholder: String },
    Editor { title: String, prefill: String },
    Notify { level: NotifyLevel, message: String },
    SetEditorText { text: String },
    /// Sets (`Some`) or clears (`None`) the status line filed under `key`.
    SetStatus { key: String, status: Option<String> },
    /// Sets (`Some`) or clears (`None`) the widget filed under `key`: its
    /// lines and where it is placed.
    SetWidget { key: String, widget: Option<(Vec<String>, String)> },
    /// Renames the window when the title is not empty.
    SetTitle { title: String },
    /// A method the window does not know: answered as cancelled.
    Unknown,
}

/// The meaning of an `ExtensionUiAction`, with texts as character sequences.
pub enum ExtensionUiModel {
    CancelEmptySelect,
    Select { title: Seq<char>, options: Seq<Seq<char>> },
    Confirm { title: Seq<char>, message: Seq<char> },
    Input { title: Seq<char>, placeholder: Seq<char> },
    Editor { title: Seq<char>, prefill: Seq<char> },
    Notify { level: NotifyLevel, message: Seq<char> },
    SetEditorText { text: Seq<char> },
    SetStatus { key: Seq<char>, status: Option<Seq<char>> },
    SetWidget { key: Seq<char>, widget: Option<(Seq<Seq<char>>, Seq<char>)> },
    SetTitle { title: Seq<char> },
    Unknown,
}

/// The answer an extension receives.
#[derive(Debug)]
pub enum ExtensionResponse {
    Cancelled,
    Confirmed,
    Value(String),
}

/// The meaning of an `ExtensionResponse`.
pub enum ResponseModel {
    Cancelled,
    Confirmed,
    Value(Seq<char>),
}

impl ExtensionResponse {
    pub open spec fn view(&self) -> ResponseModel {
        match self {
            ExtensionResponse::Cancelled => ResponseModel::Cancelled,
            ExtensionResponse::Confirmed => ResponseModel::Confirmed,
            ExtensionResponse::Value(v) => ResponseModel::Value(v@),
        }
    }

    /// The JSON object sent back: `{"cancelled": true}`, `{"confirmed": true}`
    /// or `{"value": v}`.
    pub fn to_json(&self) -> (r: JsonValue)
        ensures
            r matches JsonValue::Object(m) && m@.len() == 1 && match self.view() {
                ResponseModel::Cancelled => m@[0].0@ == "cancelled"@ && m@[0].1 == JsonValue::Bool(true),
                ResponseModel::Confirmed => m@[0].0@ == "confirmed"@ && m@[0].1 == JsonValue::Bool(true),
                ResponseModel::Value(v) => m@[0].0@ == "value"@ && json_str(m@[0].1) == Some(v),
            },
    {
        let member = match self {
            ExtensionResponse::Cancelled => ("cancelled".to_owned(), JsonValue::Bool(true)),
            ExtensionResponse::Confirmed => ("confirmed".to_owned(), JsonValue::Bool(true)),
            ExtensionResponse::Value(v) => ("value".to_owned(), JsonValue::Str(v.clone())),
        };
        let mut members: Vec<(String, JsonValue)> = Vec::new();
        members.push(member);
        JsonValue::Object(members)
    }
}

/// A one-shot guard shared by the ways a dialog can close (OK, Cancel,
/// Escape): only the first of them sends the answer.
pub struct AnswerGuard {
    pub answered: bool,
}

/// What claiming a guard gives: whether this was the first claim, and the
/// guard afterwards.
pub open spec fn claimed(g: AnswerGuard) -> (bool, AnswerGuard) {
    (!g.answered, AnswerGuard { answered: true })
}

/// A request is answered at most once: whatever claimed the guard first,
/// every later claim is refused.
pub proof fn lemma_answered_at_most_once(g: AnswerGuard)
    ensures
        !claimed(claimed(g).1).0,
        !claimed(claimed(claimed(g).1).1).0,
{
}

impl AnswerGuard {
    pub fn new() -> (r: Self)
        ensures
            !r.answered,
    {
        AnswerGuard { answered: false }
    }

    /// Marks the request answered; true only on the first call, so the
    /// answer is sent exactly once whichever close path fires first.
    pub fn claim(&mut self) -> (first: bool)
        ensures
            (first, *final(self)) == claimed(*old(self)),
    {
        let first = !self.answered;
        self.answered = true;
        first
    }
}

/// The kind of dialog an extension request opens, with what its answer
/// is made from.
pub enum DialogKind {
    /// A choice among `options`.
    Select { options: Vec<String> },
    /// A yes/no question.
    Confirm,
    /// A one-line input or a multi-line editor.
    Text,
}

/// A dialog open for the extension request `request_id`. All its close
/// paths (OK, Cancel, Escape, the close button) share `guard`; `connected`
/// says whether a session was there to answer when it opened.
pub struct PendingDialog {
    pub request_id: String,
    pub kind: DialogKind,
    pub connected: bool,
    pub guard: AnswerGuard,
}

/// The answer a dialog gives when closed: on OK, the picked option (the
/// first when none was picked; cancelled when out of range), `confirmed`,
/// or the typed text; on any other close, cancelled.
pub open spec fn dialog_reply(kind: DialogKind, ok: bool, text: Seq<char>, selected: Option<usize>) -> ResponseModel {
    if !ok {
        ResponseModel::Cancelled
    } else {
        match kind {
            DialogKind::Select { options } => if 0 <= picked_index(selected) < options@.len() {
                ResponseModel::Value(options@[picked_index(selected)]@)
            } else {
                ResponseModel::Cancelled
            },
            DialogKind::Confirm => ResponseModel::Confirmed,
            DialogKind::Text => ResponseModel::Value(text),
        }
    }
}

/// What one close of the dialog `d` sends to the session: the dialog's
/// answer when it is the first close and a session is there; nothing
/// otherwise.
pub open spec fn close_reply(d: PendingDialog, ok: bool, text: Seq<char>, selected: Option<usize>) -> Option<ResponseModel> {
    if d.guard.answered || !d.connected {
        None
    } else {
        Some(dialog_reply(d.kind, ok, text, selected))
    }
}

/// `d` once one of its close paths has fired.
pub open spec fn after_close(d: PendingDialog) -> PendingDialog {
    PendingDialog { guard: AnswerGuard { answered: true }, ..d }
}

/// What each of a sequence of closes (OK or not, the text, the picked
/// option) of the dialog `d` sends, in order.
pub open spec fn close_replies(d: PendingDialog, closes: Seq<(bool, Seq<char>, Option<usize>)>) -> Seq<Option<ResponseModel>>
    decreases closes.len(),
{
    if closes.len() == 0 {
        Seq::empty()
    } else {
        seq![close_reply(d, closes[0].0, closes[0].1, closes[0].2)] + close_replies(after_close(d), closes.drop_first())
    }
}

/// An answer in text, when there is one.
pub open spec fn reply_view(r: Option<ExtensionResponse>) -> Option<ResponseModel> {
    match r {
        Some(x) => Some(x.view()),
        None => None,
    }
}

proof fn lemma_closed_dialog_silent(d: PendingDialog, closes: Seq<(bool, Seq<char>, Option<usize>)>)
    requires
        d.guard.answered,
    ensures
        close_replies(d, closes).len() == closes.len(),
        forall|i: int| 0 <= i < closes.len() ==> #[trigger] close_replies(d, closes)[i] is None,
    decreases closes.len(),
{
    if closes.len() > 0 {
        lemma_closed_dialog_silent(after_close(d), closes.drop_first());
        let rest = close_replies(after_close(d), closes.drop_first());
        assert forall|i: int| 0 <= i < closes.len() implies #[trigger] close_replies(d, closes)[i] is None by {
            if i > 0 {
                assert(close_replies(d, closes)[i] == rest[i - 1]);
            }
        }
    }
}

/// An extension request that opened a dialog is answered at most once, by
/// the first of the dialog's closes, and only when a session was there:
/// whatever sequence of OK, Cancel and Escape follows, the first close
/// sends the dialog's answer and no later close sends anything.
pub proof fn lemma_dialog_answered_once(d: PendingDialog, closes: Seq<(bool, Seq<char>, Option<usize>)>)
    requires
        !d.guard.answered,
        closes.len() > 0,
    ensures
        close_replies(d, closes).len() == closes.len(),
        close_replies(d, closes)[0] == (if d.connected {
            Some(dialog_reply(d.kind, closes[0].0, closes[0].1, closes[0].2))
        } else {
            None
        }),
        forall|i: int| 1 <= i < closes.len() ==> #[trigger] close_replies(d, closes)[i] is None,
{
    lemma_closed_dialog_silent(after_close(d), closes.drop_first());
    let rest = close_replies(after_close(d), closes.drop_first());
    assert forall|i: int| 1 <= i < closes.len() implies #[trigger] close_replies(d, closes)[i] is None by {
        assert(close_replies(d, closes)[i] == rest[i - 1]);
    }
}

/// The dialog an extension request opens, if any: a choice, a yes/no
/// question, or a text input or editor; `connected` says whether a session
/// is there to answer.
pub fn open_dialog(request_id: String, action: &ExtensionUiAction, connected: bool) -> (r: Option<PendingDialog>)
    ensures
        match *action {
            ExtensionUiAction::Select { options, .. } => r matches Some(d)
                && d.kind matches DialogKind::Select { options: o } && o@ == options@,
            ExtensionUiAction::Confirm { .. } => r matches Some(d) && d.kind is Confirm,
            ExtensionUiAction::Input { .. } | ExtensionUiAction::Editor { .. } => r matches Some(d) && d.kind is Text,
            _ => r is None,
        },
        r matches Some(d) ==> d.request_id == request_id && d.connected == connected && !d.guard.answered,
{
    let kind = match action {
        ExtensionUiAction::Select { options, .. } => DialogKind::Select { options: clone_lines(options) },
        ExtensionUiAction::Confirm { .. } => DialogKind::Confirm,
        ExtensionUiAction::Input { .. } | ExtensionUiAction::Editor { .. } => DialogKind::Text,
        _ => return None,
    };
    Some(PendingDialog { request_id, kind, connected, guard: AnswerGuard::new() })
}

impl PendingDialog {
    /// One of the dialog's close paths fires: OK when `ok`, else Cancel or
    /// Escape; `text` is what the input holds, `selected` the option picked.
    /// Returns the answer to send: only on the first close, and only when a
    /// session is there.
    pub fn close(&mut self, ok: bool, text: String, selected: Option<usize>) -> (r: Option<ExtensionResponse>)
        ensures
            reply_view(r) == close_reply(*old(self), ok, text@, selected),
            *final(self) == after_close(*old(self)),
    {
        let first = self.guard.claim();
        if !first || !self.connected {
            return None;
        }
        if !ok {
            return Some(ExtensionResponse::Cancelled);
        }
        match &self.kind {
            DialogKind::Select { options } => {
                let idx: usize = match selected {
                    Some(i) => i,
                    None => 0,
                };
                if idx < options.len() {
                    Some(ExtensionResponse::Value(options[idx].clone()))
                } else {
                    Some(ExtensionResponse::Cancelled)
                }
            },
            DialogKind::Confirm => Some(ExtensionResponse::Confirmed),
            DialogKind::Text => Some(ExtensionResponse::Value(text)),
        }
    }
}

pub open spec fn texts_of(v: Seq<String>) -> Seq<Seq<char>> {
    v.map_values(|s: String| s@)
}

impl ExtensionUiAction {
    pub open spec fn view(&self) -> ExtensionUiModel {
        match self {
            ExtensionUiAction::CancelEmptySelect => ExtensionUiModel::CancelEmptySelect,
            ExtensionUiAction::Select { title, options } =>
                ExtensionUiModel::Select { title: title@, options: texts_of(options@) },
            ExtensionUiAction::Confirm { title, message } =>
                ExtensionUiModel::Confirm { title: title@, message: message@ },
            ExtensionUiAction::Input { title, placeholder } =>
                ExtensionUiModel::Input { title: title@, placeholder: placeholder@ },
            ExtensionUiAction::Editor { title, prefill } =>
                ExtensionUiModel::Editor { title: title@, prefill: prefill@ },
            ExtensionUiAction::Notify { level, message } =>
                ExtensionUiModel::Notify { level: *level, message: message@ },
            ExtensionUiAction::SetEditorText { text } => ExtensionUiModel::SetEditorText { text: text@ },
            ExtensionUiAction::SetStatus { key, status } => ExtensionUiModel::SetStatus {
                key: key@,
                status: match status { Some(t) => Some(t@), None => None },
            },
            ExtensionUiAction::SetWidget { key, widget } => ExtensionUiModel::SetWidget {
                key: key@,
                widget: match widget { Some(w) => Some((texts_of(w.0@), w.1@)), None => None },
            },
            ExtensionUiAction::SetTitle { title } => ExtensionUiModel::SetTitle { title: title@ },
            ExtensionUiAction::Unknown => ExtensionUiModel::Unknown,
        }
    }
}

/// The string member `key` of the payload, or `default`.
pub open spec fn str_or(payload: JsonValue, key: Seq<char>, default: Seq<char>) -> Seq<char> {
    match json_str_member(payload, key) {
        Some(s) => s,
        None => default,
    }
}

/// The string elements of a JSON array, in order; other elements are skipped.
pub open spec fn string_elements(elems: Seq<JsonValue>) -> Seq<Seq<char>>
    decreases elems.len(),
{
    if elems.len() == 0 {
        Seq::empty()
    } else {
        let r = string_elements(elems.drop_last());
        match json_str(elems.last()) {
            Some(s) => r.push(s),
            None => r,
        }
    }
}

/// The string elements of the array member `key`, when the member is an array.
pub open spec fn string_list_member(payload: JsonValue, key: Seq<char>) -> Option<Seq<Seq<char>>> {
    match json_get(payload, key) {
        Some(JsonValue::Array(a)) => Some(string_elements(a@)),
        _ => None,
    }
}

/// What the window does for the request `method` with `payload`.
pub open spec fn extension_ui_model(method: Seq<char>, payload: JsonValue) -> ExtensionUiModel {
    if method == "select"@ {
        let options = match string_list_member(payload, "options"@) {
            Some(o) => o,
            None => Seq::empty(),
        };
        if options.len() == 0 {
            ExtensionUiModel::CancelEmptySelect
        } else {
            ExtensionUiModel::Select { title: str_or(payload, "title"@, "Select"@), options }
        }
    } else if method == "confirm"@ {
        ExtensionUiModel::Confirm {
            title: str_or(payload, "title"@, "Confirm"@),
            message: str_or(payload, "message"@, Seq::empty()),
        }
    } else if method == "input"@ {
        ExtensionUiModel::Input {
            title: str_or(payload, "title"@, "Input"@),
            placeholder: str_or(payload, "placeholder"@, Seq::empty()),
        }
    } else if method == "editor"@ {
        ExtensionUiModel::Editor {
            title: str_or(payload, "title"@, "Editor"@),
            prefill: str_or(payload, "prefill"@, Seq::empty()),
        }
    } else if method == "notify"@ {
        let t = str_or(payload, "notifyType"@, "info"@);
        ExtensionUiModel::Notify {
            level: if t == "warning"@ { NotifyLevel::Warning } else if t == "error"@ { NotifyLevel::Error } else { NotifyLevel::Info },
            message: str_or(payload, "message"@, Seq::empty()),
        }
    } else if method == "setEditorText"@ {
        ExtensionUiModel::SetEditorText { text: str_or(payload, "text"@, Seq::empty()) }
    } else if method == "setStatus"@ {
        ExtensionUiModel::SetStatus {
            key: str_or(payload, "statusKey"@, Seq::empty()),
            status: json_str_member(payload, "statusText"@),
        }
    } else if method == "setWidget"@ {
        ExtensionUiModel::SetWidget {
            key: str_or(payload, "widgetKey"@, Seq::empty()),
            widget: match string_list_member(payload, "widgetLines"@) {
                Some(lines) => Some((lines, str_or(payload, "widgetPlacement"@, "aboveEditor"@))),
                None => None,
            },
        }
    } else if method == "setTitle"@ {
        ExtensionUiModel::SetTitle { title: str_or(payload, "title"@, Seq::empty()) }
    } else {
        ExtensionUiModel::Unknown
    }
}

fn string_or(payload: &JsonValue, key: &str, default: &str) -> (r: String)
    ensures
        r@ == str_or(*payload, key@, default@),
{
    match str_member(payload, key) {
        Some(s) => s,
        None => default.to_owned(),
    }
}

fn strings_of(elems: &Vec<JsonValue>) -> (r: Vec<String>)
    ensures
        texts_of(r@) == string_elements(elems@),
{
    let mut r: Vec<String> = Vec::new();
    let mut k: usize = 0;
    while k < elems.len()
        invariant
            k <= elems.len(),
            texts_of(r@) == string_elements(elems@.take(k as int)),
        decreases elems.len() - k,
    {
        assert(elems@.take(k + 1).drop_last() =~= elems@.take(k as int));
        if let Some(s) = elems[k].as_str() {
            let ghost before = r@;
            r.push(s.clone());
            assert(texts_of(r@) =~= texts_of(before).push(s@));
        }
        k = k + 1;
    }
    assert(elems@.take(elems@.len() as int) =~= elems@);
    r
}

fn string_list(payload: &JsonValue, key: &str) -> (r: Option<Vec<String>>)
    ensures
        match r {
            Some(v) => string_list_member(*payload, key@) == Some(texts_of(v@)),
            None => string_list_member(*payload, key@) is None,
        },
{
    match payload.get(key) {
        Some(m) => match m.as_array() {
            Some(a) => Some(strings_of(a)),
            None => None,
        },
        None => None,
    }
}

/// What the chat window does for the extension request `method` with `payload`.
pub fn plan_extension_ui(method: &str, payload: &JsonValue) -> (r: ExtensionUiAction)
    ensures
        r.view() == extension_ui_model(method@, *payload),
{
    proof {
        reveal_strlit("");
        assert(""@ =~= Seq::<char>::empty());
    }
    if str_eq(method, "select") {
        let options = match string_list(payload, "options") {
            Some(o) => o,
            None => Vec::new(),
        };
        if options.len() == 0 {
            proof {
                if let Some(o) = string_list_member(*payload, "options"@) {
                    assert(o.len() == 0);
                }
            }
            ExtensionUiAction::CancelEmptySelect
        } else {
            ExtensionUiAction::Select { title: string_or(payload, "title", "Select"), options }
        }
    } else if str_eq(method, "confirm") {
        ExtensionUiAction::Confirm {
            title: string_or(payload, "title", "Confirm"),
            message: string_or(payload, "message", ""),
        }
    } else if str_eq(method, "input") {
        ExtensionUiAction::Input {
            title: string_or(payload, "title", "Input"),
            placeholder: string_or(payload, "placeholder", ""),
        }
    } else if str_eq(method, "editor") {
        ExtensionUiAction::Editor {
            title: string_or(payload, "title", "Editor"),
            prefill: string_or(payload, "prefill", ""),
        }
    } else if str_eq(method, "notify") {
        let t = string_or(payload, "notifyType", "info");
        let level = if str_eq(t.as_str(), "warning") {
            NotifyLevel::Warning
        } else if str_eq(t.as_str(), "error") {
            NotifyLevel::Error
        } else {
            NotifyLevel::Info
        };
        ExtensionUiAction::Notify { level, message: string_or(payload, "message", "") }
    } else if str_eq(method, "setEditorText") {
        ExtensionUiAction::SetEditorText { text: string_or(payload, "text", "") }
    } else if str_eq(method, "setStatus") {
        ExtensionUiAction::SetStatus {
            key: string_or(payload, "statusKey", ""),
            status: str_member(payload, "statusText"),
        }
    } else if str_eq(method, "setWidget") {
        let key = string_or(payload, "widgetKey", "");
        let widget = match string_list(payload, "widgetLines") {
            Some(lines) => Some((lines, string_or(payload, "widgetPlacement", "aboveEditor"))),
            None => None,
        };
        ExtensionUiAction::SetWidget { key, widget }
    } else if str_eq(method, "setTitle") {
        ExtensionUiAction::SetTitle { title: string_or(payload, "title", "") }
    } else {
        ExtensionUiAction::Unknown
    }
}

/// A widget as its lines and placement, in text.
pub open spec fn widget_view(w: Option<(Vec<String>, String)>) -> Option<(Seq<Seq<char>>, Seq<char>)> {
    match w {
        Some((lines, placement)) => Some((texts_of(lines@), placement@)),
        None => None,
    }
}

/// A copy of widget lines.
pub fn clone_lines(lines: &Vec<String>) -> (r: Vec<String>)
    ensures
        r@ == lines@,
{
    let mut out: Vec<String> = Vec::new();
    let mut k: usize = 0;
    while k < lines.len()
        invariant
            k <= lines.len(),
            out@ == lines@.take(k as int),
        decreases lines.len() - k,
    {
        out.push(lines[k].clone());
        assert(out@ =~= lines@.take(k + 1));
        k = k + 1;
    }
    assert(lines@.take(lines@.len() as int) =~= lines@);
    out
}

/// The answer sent at once, without a dialog: a choice with no options and
/// an unknown method are both answered as cancelled.
pub fn immediate_response(action: &ExtensionUiAction) -> (r: Option<ExtensionResponse>)
    ensures
        match action.view() {
            ExtensionUiModel::CancelEmptySelect | ExtensionUiModel::Unknown =>
                r matches Some(x) && x.view() == ResponseModel::Cancelled,
            _ => r is None,
        },
{
    match action {
        ExtensionUiAction::CancelEmptySelect | ExtensionUiAction::Unknown => Some(ExtensionResponse::Cancelled),
        _ => None,
    }
}

/// The answer of an `input` or `editor` dialog: the text on OK, cancelled
/// otherwise.
pub fn text_dialog_response(ok: bool, value: String) -> (r: ExtensionResponse)
    ensures
        r.view() == (if ok { ResponseModel::Value(value@) } else { ResponseModel::Cancelled }),
{
    if ok { ExtensionResponse::Value(value) } else { ExtensionResponse::Cancelled }
}

/// The answer of a `confirm` dialog.
pub fn confirm_response(ok: bool) -> (r: ExtensionResponse)
    ensures
        r.view() == (if ok { ResponseModel::Confirmed } else { ResponseModel::Cancelled }),
{
    if ok { ExtensionResponse::Confirmed } else { ExtensionResponse::Cancelled }
}

/// What the chat window keeps of extension requests: the option picked in
/// an open choice dialog, and the status lines and widgets filed by key.
pub struct ExtensionUiState {
    pub select_selected: Option<usize>,
    pub status: KeyedList<String>,
    pub widgets: KeyedList<(Vec<String>, String)>,
}

/// The option a choice dialog answers with: the picked one, the first when
/// none was picked.
pub open spec fn picked_index(selected: Option<usize>) -> int {
    match selected {
        Some(i) => i as int,
        None => 0,
    }
}

impl ExtensionUiState {
    pub open spec fn wf(&self) -> bool {
        self.status.wf() && self.widgets.wf()
    }

    /// No dialog open, no status line, no widget.
    pub fn new() -> (r: Self)
        ensures
            r.wf(),
            r.select_selected is None,
            forall|k: Seq<char>| r.status.lookup(k) is None,
            forall|k: Seq<char>| r.widgets.lookup(k) is None,
    {
        ExtensionUiState {
            select_selected: None,
            status: KeyedList::new(),
            widgets: KeyedList::new(),
        }
    }

    /// Carries out the part of `action` that this state keeps (the title is
    /// the window's own).
    pub fn apply(&mut self, action: &ExtensionUiAction)
        requires
            old(self).wf(),
        ensures
            final(self).wf(),
            match *action {
                ExtensionUiAction::CancelEmptySelect => final(self).select_selected is None,
                ExtensionUiAction::Select { .. } => final(self).select_selected == Some(0usize),
                _ => final(self).select_selected == old(self).select_selected,
            },
            match *action {
                ExtensionUiAction::SetStatus { key, status } => forall|k: Seq<char>|
                    #[trigger] final(self).status.lookup(k) == if k == key@ { status } else { old(self).status.lookup(k) },
                _ => final(self).status == old(self).status,
            },
            match *action {
                ExtensionUiAction::SetWidget { key, widget } => forall|k: Seq<char>|
                    #[trigger] widget_view(final(self).widgets.lookup(k)) == if k == key@ {
                        widget_view(widget)
                    } else {
                        widget_view(old(self).widgets.lookup(k))
                    },
                _ => final(self).widgets == old(self).widgets,
            },
    {
        match action {
            ExtensionUiAction::CancelEmptySelect => {
                self.select_selected = None;
            },
            ExtensionUiAction::Select { .. } => {
                self.select_selected = Some(0);
            },
            ExtensionUiAction::SetStatus { key, status } => match status {
                Some(text) => self.status.insert(key.clone(), text.clone()),
                None => self.status.remove(key.as_str()),
            },
            ExtensionUiAction::SetWidget { key, widget } => match widget {
                Some(w) => {
                    let lines = clone_lines(&w.0);
                    self.widgets.insert(key.clone(), (lines, w.1.clone()));
                },
                None => self.widgets.remove(key.as_str()),
            },
            _ => {},
        }
    }

    /// The user picks option `idx` in the open choice dialog.
    pub fn pick_option(&mut self, idx: usize)
        ensures
            final(self).select_selected == Some(idx),
            final(self).status == old(self).status,
            final(self).widgets == old(self).widgets,
    {
        self.select_selected = Some(idx);
    }

    /// The answer of the choice dialog among `options`: the picked option on
    /// OK (cancelled when it is out of range), cancelled otherwise. The
    /// dialog is closed.
    pub fn close_select(&mut self, ok: bool, options: &Vec<String>) -> (r: ExtensionResponse)
        ensures
            r.view() == (if ok && 0 <= picked_index(old(self).select_selected) < options@.len() {
                ResponseModel::Value(options@[picked_index(old(self).select_selected)]@)
            } else {
                ResponseModel::Cancelled
            }),
            final(self).select_selected is None,
            final(self).status == old(self).status,
            final(self).widgets == old(self).widgets,
    {
        let idx: usize = match self.select_selected {
            Some(i) => i,
            None => 0,
        };
        self.select_selected = None;
        if ok && idx < options.len() {
            ExtensionResponse::Value(options[idx].clone())
        } else {
            ExtensionResponse::Cancelled
        }
    }
}

} // verus!
