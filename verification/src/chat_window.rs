//! The chat window's model: its messages, title and state, the workspace it
//! runs in, the in-place editing of a user message (which forks the
//! conversation there), and the requests extensions make of it.

use vstd::prelude::*;
use crate::chat::{
    combined_content, combined_text, file_views, first_id_from, shown_title, stop_streaming,
    thread_title, ChatState, EditRejection,
};
use crate::extension_ui::{
    after_close, close_reply, extension_ui_model, plan_extension_ui, reply_view, widget_view, DialogKind,
    ExtensionResponse, ExtensionUiAction, ExtensionUiModel, ExtensionUiState, PendingDialog,
};
use crate::chat::MarkdownUpdate;
use crate::display_slots::{
    kept_rows, markdown_row_plan, markdown_synced, reasoning_synced, row_at, slot_of, sync_markdown_row, sync_reasoning_row,
    SlotGrid,
};
use crate::json::JsonValue;
use crate::reasoning::Reasoning;
use crate::message_layout::{message_layout, plan_message_layout, LayoutItem, PartKind, PartState};
use crate::text::str_eq;
use crate::workspaces::{
    index_of_id, initial_selection, initial_workspace_id, remove_workspace, selected_workspace_path,
    sort_workspaces, sorted_workspaces, with_created_default, without_id, workspaces_with_default,
    WorkspaceMeta,
};

verus! {

/// Who wrote a message.
#[derive(Clone, Copy, PartialEq, Eq, Debug, Structural)]
pub enum Role {
    User,
    Assistant,
}

/// One part of a message.
pub enum MessagePart {
    Text { text: String, state: Option<PartState> },
    Reasoning { text: String, state: Option<PartState> },
    ToolCall { name: String, args: String, state: Option<PartState> },
    ToolResult { name: String, output: String, details: Option<JsonValue>, state: Option<PartState> },
}

/// An image attached to a message: its base64 data and MIME type.
pub struct MediaItem {
    pub data: String,
    pub mime_type: String,
}

/// A message of the conversation.
pub struct ChatMessage {
    pub id: String,
    pub role: Role,
    pub parts: Vec<MessagePart>,
    /// The images the user attached.
    pub media: Vec<MediaItem>,
}

/// The kind of a message part.
pub open spec fn part_kind(part: MessagePart) -> PartKind {
    match part {
        MessagePart::Text { .. } => PartKind::Text,
        MessagePart::Reasoning { .. } => PartKind::Reasoning,
        MessagePart::ToolCall { .. } => PartKind::ToolCall,
        MessagePart::ToolResult { .. } => PartKind::ToolResult,
    }
}

/// The kinds of the parts, in order.
pub open spec fn part_kinds(parts: Seq<MessagePart>) -> Seq<PartKind> {
    parts.map_values(|p: MessagePart| part_kind(p))
}

/// How a message renders: its rows of parts, then, when `media` holds, the
/// block of its images.
pub struct MessageRender {
    pub rows: Vec<LayoutItem>,
    pub media: bool,
}

/// How `msg` renders: its parts laid out as `plan_message_layout` says
/// (each tool call with its answer, every part once, in order), followed
/// by its images when it is the user's and has some.
pub fn render_plan(msg: &ChatMessage) -> (r: MessageRender)
    ensures
        r.rows@ == message_layout(part_kinds(msg.parts@)),
        r.media == (msg.role == Role::User && msg.media@.len() > 0),
{
    let mut kinds: Vec<PartKind> = Vec::new();
    let mut k: usize = 0;
    while k < msg.parts.len()
        invariant
            k <= msg.parts@.len(),
            kinds@ == part_kinds(msg.parts@.take(k as int)),
        decreases msg.parts@.len() - k,
    {
        let kind = match &msg.parts[k] {
            MessagePart::Text { .. } => PartKind::Text,
            MessagePart::Reasoning { .. } => PartKind::Reasoning,
            MessagePart::ToolCall { .. } => PartKind::ToolCall,
            MessagePart::ToolResult { .. } => PartKind::ToolResult,
        };
        kinds.push(kind);
        proof {
            assert(kinds@ =~= part_kinds(msg.parts@.take(k + 1)));
        }
        k = k + 1;
    }
    proof {
        assert(msg.parts@.take(msg.parts@.len() as int) =~= msg.parts@);
    }
    MessageRender { rows: plan_message_layout(&kinds), media: msg.role == Role::User && msg.media.len() > 0 }
}

/// The ids of `messages`, in order.
pub open spec fn message_ids(messages: Seq<ChatMessage>) -> Seq<String> {
    messages.map_values(|m: ChatMessage| m.id)
}

/// What a send asks of the session.
pub enum SendPlan {
    /// Nothing to send.
    Nothing,
    /// The message being edited cannot be: the edit is dropped.
    EditRejected(EditRejection),
    /// Fork the conversation at `message_id` and send `content` there.
    Edit { message_id: String, content: String },
    /// Send a new message.
    Send { content: String },
}

/// The markdown refreshes a sync of `messages` makes, message by message
/// up to `k`, from the views `old`.
pub open spec fn markdown_sync_plan(
    messages: Seq<ChatMessage>,
    old: Seq<Vec<Option<String>>>,
    k: int,
) -> Seq<(usize, usize, MarkdownUpdate)>
    decreases k,
{
    if k <= 0 {
        Seq::empty()
    } else {
        let msg = messages[k - 1];
        markdown_sync_plan(messages, old, k - 1) + markdown_row_plan(
            k - 1,
            msg.role == Role::Assistant,
            msg.parts@,
            row_at(old, k - 1),
            msg.parts@.len() as int,
        )
    }
}

/// What the message composer reports of its suggestion popup.
#[derive(Clone, Copy, PartialEq, Eq, Debug, Structural)]
pub struct ComposerFlags {
    /// A mention was just picked from the popup with the Enter key.
    pub just_selected_mention: bool,
    /// The mention suggestion popup is open.
    pub popup_visible: bool,
}

/// The chat window's model.
pub struct ChatWindow {
    pub thread_id: Option<String>,
    pub title: String,
    pub messages: Vec<ChatMessage>,
    pub state: ChatState,
    /// Whether the list follows new output.
    pub scroll_locked: bool,
    pub workspaces: Vec<WorkspaceMeta>,
    pub selected_workspace_id: Option<String>,
    pub editing_message_id: Option<String>,
    pub extension: ExtensionUiState,
    pub composer: ComposerFlags,
    /// The reasoning block of each reasoning part.
    pub reasoning_displays: SlotGrid<Reasoning>,
    /// The markdown view of each assistant text part, as the text it shows.
    pub markdown_displays: SlotGrid<String>,
}

fn one_text(content: String) -> (r: Vec<MessagePart>)
    ensures
        r@.len() == 1,
        r@[0] == (MessagePart::Text { text: content, state: Some(PartState::Done) }),
{
    let mut v: Vec<MessagePart> = Vec::new();
    v.push(MessagePart::Text { text: content, state: Some(PartState::Done) });
    v
}

impl ChatWindow {
    /// Whether the composer lets the Enter key send: no mention was just
    /// picked and the suggestion popup is closed.
    pub open spec fn composer_ready(&self) -> bool {
        !self.composer.just_selected_mention && !self.composer.popup_visible
    }

    /// Messages may be edited only while the window's state is consistent.
    pub open spec fn wf(&self) -> bool {
        self.extension.wf()
    }

    /// A window on a thread (its id and title) or on a new conversation:
    /// titled `New Thread` when untitled. Its workspaces are those the store
    /// lists or, when it lists none, the `Default` workspace created for it
    /// (`default_workspace_to_create` says when; `created_default` is what
    /// creating it gave), in display order. The chat runs in the thread's
    /// saved workspace when it still exists, else in `Default`, else in the
    /// first.
    pub fn new(
        thread_id: Option<String>,
        title: Option<&str>,
        listed: Vec<WorkspaceMeta>,
        created_default: Option<WorkspaceMeta>,
        saved_workspace: Option<&str>,
    ) -> (r: Self)
        ensures
            r.wf(),
            r.thread_id == thread_id,
            r.title@ == shown_title(match title { Some(t) => Some(t@), None => None }),
            r.workspaces@ == sorted_workspaces(workspaces_with_default(listed@, created_default)),
            match initial_selection(r.workspaces@, match saved_workspace { Some(s) => Some(s@), None => None }) {
                Some(k) => r.selected_workspace_id == Some(r.workspaces@[k].id),
                None => r.selected_workspace_id is None,
            },
            r.messages@.len() == 0,
            r.state is Idle,
            r.scroll_locked,
            r.editing_message_id is None,
            r.extension.select_selected is None,
            r.composer == (ComposerFlags { just_selected_mention: false, popup_visible: false }),
            r.reasoning_displays.rows@.len() == 0,
            r.markdown_displays.rows@.len() == 0,
    {
        let mut workspaces = with_created_default(listed, created_default);
        sort_workspaces(&mut workspaces);
        let selected = initial_workspace_id(&workspaces, saved_workspace);
        ChatWindow {
            thread_id,
            title: thread_title(title),
            messages: Vec::new(),
            state: ChatState::Idle,
            scroll_locked: true,
            workspaces,
            selected_workspace_id: selected,
            editing_message_id: None,
            extension: ExtensionUiState::new(),
            composer: ComposerFlags { just_selected_mention: false, popup_visible: false },
            reasoning_displays: SlotGrid::new(),
            markdown_displays: SlotGrid::new(),
        }
    }

    fn find_message(&self, id: &str) -> (r: Option<usize>)
        ensures
            match r {
                Some(i) => first_id_from(message_ids(self.messages@), id@, 0) == Some(i as int) && i < self.messages@.len(),
                None => first_id_from(message_ids(self.messages@), id@, 0) is None,
            },
    {
        let ghost ids = message_ids(self.messages@);
        let mut k: usize = 0;
        while k < self.messages.len()
            invariant
                k <= self.messages.len(),
                ids == message_ids(self.messages@),
                first_id_from(ids, id@, 0) == first_id_from(ids, id@, k as int),
            decreases self.messages.len() - k,
        {
            assert(ids[k as int] == self.messages@[k as int].id);
            if str_eq(self.messages[k].id.as_str(), id) {
                return Some(k);
            }
            k = k + 1;
        }
        None
    }

    /// Replaces message `i` with one finished text part and drops the later
    /// messages.
    fn fork_at_message(&mut self, i: usize, content: String)
        requires
            i < old(self).messages.len(),
        ensures
            final(self).messages@.len() == i + 1,
            forall|j: int| 0 <= j < i ==> final(self).messages@[j] == old(self).messages@[j],
            final(self).messages@[i as int].id == old(self).messages@[i as int].id,
            final(self).messages@[i as int].role == old(self).messages@[i as int].role,
            final(self).messages@[i as int].parts@ == seq![MessagePart::Text { text: content, state: Some(PartState::Done) }],
            final(self).title == old(self).title,
            final(self).workspaces == old(self).workspaces,
            final(self).selected_workspace_id == old(self).selected_workspace_id,
            final(self).state == old(self).state,
            final(self).extension == old(self).extension,
            final(self).editing_message_id == old(self).editing_message_id,
            final(self).scroll_locked == old(self).scroll_locked,
            final(self).thread_id == old(self).thread_id,
            final(self).composer == old(self).composer,
            final(self).reasoning_displays.rows@ == kept_rows(old(self).reasoning_displays.rows@, i + 1),
            final(self).markdown_displays.rows@ == kept_rows(old(self).markdown_displays.rows@, i + 1),
    {
        self.reasoning_displays.rows.truncate(i + 1);
        self.markdown_displays.rows.truncate(i + 1);
        self.messages.truncate(i + 1);
        let mut m = self.messages.pop().unwrap();
        m.parts = one_text(content);
        self.messages.push(m);
        assert(final(self).messages@[i as int].parts@ =~= seq![MessagePart::Text { text: content, state: Some(PartState::Done) }]);
    }

    /// The user sends `content` with `attachment_count` attachments, of which
    /// `files` are text files (path, content). The Enter key that just
    /// picked a mention sends nothing (the composer forgets that pick), nor
    /// does one pressed while the suggestion popup is open. With nothing to
    /// send nothing happens. While a user message is being edited, the send becomes the
    /// edit: the conversation forks at that message (attachments are not
    /// carried over); the edit is dropped when the message is gone or is not
    /// the user's. Otherwise the text and the files go out as one message.
    /// Either way the list follows the new output.
    pub fn send_message(&mut self, content: String, files: &Vec<(String, String)>, attachment_count: usize) -> (r: SendPlan)
        requires
            old(self).wf(),
        ensures
            final(self).wf(),
            *final(self) == (ChatWindow { messages: final(self).messages, editing_message_id: final(self).editing_message_id, scroll_locked: final(self).scroll_locked, composer: final(self).composer, reasoning_displays: final(self).reasoning_displays, markdown_displays: final(self).markdown_displays, ..*old(self) }),
            old(self).composer_ready() ==> final(self).composer == old(self).composer,
            final(self).title == old(self).title,
            final(self).workspaces == old(self).workspaces,
            final(self).state == old(self).state,
            final(self).reasoning_displays.rows@ == if r is Edit {
                kept_rows(old(self).reasoning_displays.rows@, final(self).messages@.len() as int)
            } else {
                old(self).reasoning_displays.rows@
            },
            final(self).markdown_displays.rows@ == if r is Edit {
                kept_rows(old(self).markdown_displays.rows@, final(self).messages@.len() as int)
            } else {
                old(self).markdown_displays.rows@
            },
            old(self).composer.just_selected_mention ==> r is Nothing && *final(self) == (ChatWindow {
                composer: ComposerFlags { just_selected_mention: false, popup_visible: old(self).composer.popup_visible },
                ..*old(self)
            }),
            !old(self).composer.just_selected_mention && old(self).composer.popup_visible ==>
                r is Nothing && *final(self) == *old(self),
            old(self).composer_ready() && content@.len() == 0 && attachment_count == 0 ==>
                r is Nothing && *final(self) == *old(self),
            old(self).composer_ready() && !(content@.len() == 0 && attachment_count == 0) ==> match old(self).editing_message_id {
                Some(eid) => {
                    &&& final(self).editing_message_id is None
                    &&& match first_id_from(message_ids(old(self).messages@), eid@, 0) {
                        None => r == SendPlan::EditRejected(EditRejection::NotFound)
                            && final(self).messages == old(self).messages,
                        Some(i) => if old(self).messages@[i].role == Role::User {
                            &&& (r matches SendPlan::Edit { message_id, content: c } && message_id == eid && c == content)
                            &&& final(self).messages@.len() == i + 1
                            &&& forall|j: int| 0 <= j < i ==> final(self).messages@[j] == old(self).messages@[j]
                            &&& final(self).messages@[i].id == old(self).messages@[i].id
                            &&& final(self).messages@[i].parts@ == seq![MessagePart::Text { text: content, state: Some(PartState::Done) }]
                            &&& final(self).scroll_locked
                        } else {
                            r == SendPlan::EditRejected(EditRejection::NotUser) && final(self).messages == old(self).messages
                        },
                    }
                },
                None => {
                    &&& (r matches SendPlan::Send { content: c } && c@ == combined_text(content@, file_views(files@)))
                    &&& final(self).messages == old(self).messages
                    &&& final(self).scroll_locked
                    &&& final(self).editing_message_id is None
                },
            },
    {
        if self.composer.just_selected_mention {
            self.composer.just_selected_mention = false;
            return SendPlan::Nothing;
        }
        if self.composer.popup_visible {
            return SendPlan::Nothing;
        }
        if content.as_str().is_empty() && attachment_count == 0 {
            return SendPlan::Nothing;
        }
        match self.editing_message_id.take() {
            Some(eid) => {
                match self.find_message(eid.as_str()) {
                    None => SendPlan::EditRejected(EditRejection::NotFound),
                    Some(i) => {
                        if self.messages[i].role != Role::User {
                            return SendPlan::EditRejected(EditRejection::NotUser);
                        }
                        let kept = content.clone();
                        self.fork_at_message(i, content);
                        self.scroll_locked = true;
                        SendPlan::Edit { message_id: eid, content: kept }
                    },
                }
            },
            None => {
                self.scroll_locked = true;
                SendPlan::Send { content: combined_content(content.as_str(), files) }
            },
        }
    }

    /// The Save button of an edit in place, with the text typed there:
    /// empty text, a vanished message or another author's message drop the
    /// edit; otherwise the conversation forks at the message.
    pub fn confirm_inline_edit(&mut self, content: String) -> (r: SendPlan)
        requires
            old(self).wf(),
        ensures
            final(self).wf(),
            *final(self) == (ChatWindow { messages: final(self).messages, editing_message_id: final(self).editing_message_id, scroll_locked: final(self).scroll_locked, reasoning_displays: final(self).reasoning_displays, markdown_displays: final(self).markdown_displays, ..*old(self) }),
            final(self).editing_message_id is None,
            final(self).title == old(self).title,
            final(self).state == old(self).state,
            final(self).reasoning_displays.rows@ == if r is Edit {
                kept_rows(old(self).reasoning_displays.rows@, final(self).messages@.len() as int)
            } else {
                old(self).reasoning_displays.rows@
            },
            final(self).markdown_displays.rows@ == if r is Edit {
                kept_rows(old(self).markdown_displays.rows@, final(self).messages@.len() as int)
            } else {
                old(self).markdown_displays.rows@
            },
            match old(self).editing_message_id {
                None => r is Nothing && final(self).messages == old(self).messages,
                Some(eid) => match first_id_from(message_ids(old(self).messages@), eid@, 0) {
                    None => r == SendPlan::EditRejected(EditRejection::NotFound) && final(self).messages == old(self).messages,
                    Some(i) => if old(self).messages@[i].role != Role::User {
                        r == SendPlan::EditRejected(EditRejection::NotUser) && final(self).messages == old(self).messages
                    } else if content@.len() == 0 {
                        r is Nothing && final(self).messages == old(self).messages
                    } else {
                        &&& (r matches SendPlan::Edit { message_id, content: c } && message_id == eid && c == content)
                        &&& final(self).messages@.len() == i + 1
                        &&& forall|j: int| 0 <= j < i ==> final(self).messages@[j] == old(self).messages@[j]
                        &&& final(self).messages@[i].id == old(self).messages@[i].id
                        &&& final(self).messages@[i].parts@ == seq![MessagePart::Text { text: content, state: Some(PartState::Done) }]
                        &&& final(self).scroll_locked
                    },
                },
            },
    {
        let eid = match self.editing_message_id.take() {
            Some(e) => e,
            None => return SendPlan::Nothing,
        };
        let i = match self.find_message(eid.as_str()) {
            Some(i) => i,
            None => return SendPlan::EditRejected(EditRejection::NotFound),
        };
        if self.messages[i].role != Role::User {
            return SendPlan::EditRejected(EditRejection::NotUser);
        }
        if content.as_str().is_empty() {
            return SendPlan::Nothing;
        }
        let kept = content.clone();
        self.fork_at_message(i, content);
        self.scroll_locked = true;
        SendPlan::Edit { message_id: eid, content: kept }
    }

    /// The Cancel button of an edit in place.
    pub fn cancel_inline_edit(&mut self)
        ensures
            *final(self) == (ChatWindow { editing_message_id: final(self).editing_message_id, ..*old(self) }),
            final(self).editing_message_id is None,
            final(self).messages == old(self).messages,
            final(self).title == old(self).title,
            final(self).extension == old(self).extension,
    {
        self.editing_message_id = None;
    }

    /// Starts editing the message `msg_id` in place, when it exists and
    /// begins with text; returns that text for the editor.
    pub fn start_edit_message(&mut self, msg_id: String) -> (r: Option<String>)
        ensures
            *final(self) == (ChatWindow { editing_message_id: final(self).editing_message_id, ..*old(self) }),
            final(self).messages == old(self).messages,
            final(self).extension == old(self).extension,
            match first_id_from(message_ids(old(self).messages@), msg_id@, 0) {
                Some(i) => match if old(self).messages@[i].parts@.len() > 0 { Some(old(self).messages@[i].parts@[0]) } else { None } {
                    Some(MessagePart::Text { text, .. }) => r == Some(text) && final(self).editing_message_id == Some(msg_id),
                    _ => r is None && final(self).editing_message_id == old(self).editing_message_id,
                },
                None => r is None && final(self).editing_message_id == old(self).editing_message_id,
            },
    {
        let i = match self.find_message(msg_id.as_str()) {
            Some(i) => i,
            None => return None,
        };
        if self.messages[i].parts.len() == 0 {
            return None;
        }
        let text = match &self.messages[i].parts[0] {
            MessagePart::Text { text, .. } => text.clone(),
            _ => return None,
        };
        self.editing_message_id = Some(msg_id);
        Some(text)
    }

    /// Stops a streaming reply; returns whether the session must abort.
    pub fn stop_streaming(&mut self) -> (stopped: bool)
        ensures
            *final(self) == (ChatWindow { state: final(self).state, ..*old(self) }),
            stopped == (old(self).state is Streaming),
            stopped ==> final(self).state is Idle,
            !stopped ==> final(self).state == old(self).state,
            final(self).messages == old(self).messages,
            final(self).title == old(self).title,
    {
        stop_streaming(&mut self.state)
    }

    /// Renames the thread (an empty name gives `New Thread`).
    pub fn rename_thread(&mut self, new_title: &str)
        ensures
            *final(self) == (ChatWindow { title: final(self).title, ..*old(self) }),
            final(self).title@ == shown_title(Some(new_title@)),
            final(self).messages == old(self).messages,
            final(self).state == old(self).state,
    {
        self.title = thread_title(Some(new_title));
    }

    /// The session reports its messages, state and title.
    pub fn sync_from_session(&mut self, messages: Vec<ChatMessage>, state: ChatState, title: String)
        ensures
            *final(self) == (ChatWindow { messages: final(self).messages, state: final(self).state, title: final(self).title, ..*old(self) }),
            final(self).messages == messages,
            final(self).state == state,
            final(self).title == title,
            final(self).workspaces == old(self).workspaces,
            final(self).editing_message_id == old(self).editing_message_id,
            final(self).extension == old(self).extension,
    {
        self.messages = messages;
        self.state = state;
        self.title = title;
    }

    /// An extension asks something of the window: the choice dialog,
    /// status lines, widgets and the title change here; what needs a
    /// dialog, a notification or the editor is returned for the view to
    /// carry out.
    pub fn handle_extension_ui_request(&mut self, method: &str, payload: &JsonValue) -> (r: ExtensionUiAction)
        requires
            old(self).wf(),
        ensures
            final(self).wf(),
            r.view() == extension_ui_model(method@, *payload),
            *final(self) == (ChatWindow { title: final(self).title, extension: final(self).extension, ..*old(self) }),
            match r.view() {
                ExtensionUiModel::SetTitle { title } => final(self).title@ == if title.len() > 0 { title } else { old(self).title@ },
                _ => final(self).title == old(self).title,
            },
            match r {
                ExtensionUiAction::CancelEmptySelect => final(self).extension.select_selected is None,
                ExtensionUiAction::Select { .. } => final(self).extension.select_selected == Some(0usize),
                _ => final(self).extension.select_selected == old(self).extension.select_selected,
            },
            match r {
                ExtensionUiAction::SetStatus { key, status } => forall|k: Seq<char>|
                    #[trigger] final(self).extension.status.lookup(k) == if k == key@ { status } else { old(self).extension.status.lookup(k) },
                _ => final(self).extension.status == old(self).extension.status,
            },
            match r {
                ExtensionUiAction::SetWidget { key, widget } => forall|k: Seq<char>|
                    #[trigger] widget_view(final(self).extension.widgets.lookup(k)) == if k == key@ {
                        widget_view(widget)
                    } else {
                        widget_view(old(self).extension.widgets.lookup(k))
                    },
                _ => final(self).extension.widgets == old(self).extension.widgets,
            },
            final(self).messages == old(self).messages,
    {
        let action = plan_extension_ui(method, payload);
        self.extension.apply(&action);
        if let ExtensionUiAction::SetTitle { title } = &action {
            if !title.as_str().is_empty() {
                self.title = title.clone();
            }
        }
        action
    }

    /// One close path of a dialog opened for an extension request fires
    /// (OK when `ok`, else Cancel or Escape; `text` is what its input
    /// holds). A choice dialog answers with the option picked in this
    /// window and forgets the pick. Returns the answer to send: only the
    /// dialog's first close sends one, and only when a session is there.
    pub fn close_extension_dialog(&mut self, dialog: &mut PendingDialog, ok: bool, text: String) -> (r: Option<ExtensionResponse>)
        requires
            old(self).wf(),
        ensures
            final(self).wf(),
            reply_view(r) == close_reply(*old(dialog), ok, text@, old(self).extension.select_selected),
            *final(self) == (ChatWindow { extension: final(self).extension, ..*old(self) }),
            *final(dialog) == after_close(*old(dialog)),
            old(dialog).kind is Select ==> final(self).extension.select_selected is None,
            !(old(dialog).kind is Select) ==> final(self).extension.select_selected == old(self).extension.select_selected,
            final(self).extension.status == old(self).extension.status,
            final(self).extension.widgets == old(self).extension.widgets,
            final(self).messages == old(self).messages,
            final(self).title == old(self).title,
            final(self).state == old(self).state,
    {
        let r = dialog.close(ok, text, self.extension.select_selected);
        if let DialogKind::Select { .. } = &dialog.kind {
            self.extension.select_selected = None;
        }
        r
    }

    /// Brings the display objects in line with the messages: each
    /// reasoning part has a reasoning block showing its text and state
    /// (keeping the fold of the block it had); each text part of an
    /// assistant message that is done has a markdown view showing its text,
    /// while one that is still streaming has none (markdown parsing is too
    /// costly to run on every token; it shows as plain text meanwhile); and
    /// every other part has neither. Returns how each markdown view is
    /// created or rebuilt, in order.
    pub fn sync_display_entities(&mut self) -> (r: Vec<(usize, usize, MarkdownUpdate)>)
        ensures
            final(self).reasoning_displays.rows@.len() == old(self).messages@.len(),
            final(self).markdown_displays.rows@.len() == old(self).messages@.len(),
            forall|m: int| 0 <= m < old(self).messages@.len() ==> {
                &&& #[trigger] final(self).reasoning_displays.rows@[m]@.len() == old(self).messages@[m].parts@.len()
                &&& final(self).markdown_displays.rows@[m]@.len() == old(self).messages@[m].parts@.len()
            },
            forall|m: int, p: int| 0 <= m < old(self).messages@.len() && 0 <= p < old(self).messages@[m].parts@.len()
                ==> reasoning_synced(
                    #[trigger] slot_of(final(self).reasoning_displays.rows@, m, p),
                    slot_of(old(self).reasoning_displays.rows@, m, p),
                    m,
                    p,
                    old(self).messages@[m].parts@[p],
                ),
            forall|m: int, p: int| 0 <= m < old(self).messages@.len() && 0 <= p < old(self).messages@[m].parts@.len()
                ==> markdown_synced(
                    #[trigger] slot_of(final(self).markdown_displays.rows@, m, p),
                    old(self).messages@[m].role == Role::Assistant,
                    old(self).messages@[m].parts@[p],
                ),
            *final(self) == (ChatWindow { reasoning_displays: final(self).reasoning_displays, markdown_displays: final(self).markdown_displays, ..*old(self) }),
            r@ == markdown_sync_plan(
                old(self).messages@,
                old(self).markdown_displays.rows@,
                old(self).messages@.len() as int,
            ),
            final(self).messages == old(self).messages,
            final(self).title == old(self).title,
            final(self).state == old(self).state,
            final(self).workspaces == old(self).workspaces,
            final(self).selected_workspace_id == old(self).selected_workspace_id,
            final(self).editing_message_id == old(self).editing_message_id,
            final(self).extension == old(self).extension,
            final(self).composer == old(self).composer,
            final(self).scroll_locked == old(self).scroll_locked,
            final(self).thread_id == old(self).thread_id,
    {
        let ghost old_r = self.reasoning_displays.rows@;
        let ghost old_md = self.markdown_displays.rows@;
        let mut r_rest: Vec<Vec<Option<Reasoning>>> = Vec::new();
        std::mem::swap(&mut r_rest, &mut self.reasoning_displays.rows);
        let mut md_rest: Vec<Vec<Option<String>>> = Vec::new();
        std::mem::swap(&mut md_rest, &mut self.markdown_displays.rows);
        let mut updates: Vec<(usize, usize, MarkdownUpdate)> = Vec::new();
        let mut new_r: Vec<Vec<Option<Reasoning>>> = Vec::new();
        let mut new_md: Vec<Vec<Option<String>>> = Vec::new();
        let msgs = &self.messages;
        let n = msgs.len();
        let mut m: usize = 0;
        while m < n
            invariant
                m <= n,
                n == msgs@.len(),
                r_rest@ == if m <= old_r.len() { old_r.skip(m as int) } else { Seq::empty() },
                md_rest@ == if m <= old_md.len() { old_md.skip(m as int) } else { Seq::empty() },
                new_r@.len() == m,
                new_md@.len() == m,
                forall|i: int| 0 <= i < m ==> #[trigger] new_r@[i]@.len() == msgs@[i].parts@.len(),
                forall|i: int| 0 <= i < m ==> #[trigger] new_md@[i]@.len() == msgs@[i].parts@.len(),
                forall|i: int, p: int| 0 <= i < m && 0 <= p < msgs@[i].parts@.len() ==> reasoning_synced(
                    #[trigger] slot_of(new_r@, i, p),
                    slot_of(old_r, i, p),
                    i,
                    p,
                    msgs@[i].parts@[p],
                ),
                forall|i: int, p: int| 0 <= i < m && 0 <= p < msgs@[i].parts@.len() ==> markdown_synced(
                    #[trigger] slot_of(new_md@, i, p),
                    msgs@[i].role == Role::Assistant,
                    msgs@[i].parts@[p],
                ),
                updates@ == markdown_sync_plan(msgs@, old_md, m as int),
            decreases n - m,
        {
            let r_old: Vec<Option<Reasoning>> = if r_rest.len() > 0 { r_rest.remove(0) } else { Vec::new() };
            let md_old: Vec<Option<String>> = if md_rest.len() > 0 { md_rest.remove(0) } else { Vec::new() };
            proof {
                if m < old_r.len() {
                    assert(r_old@ == old_r[m as int]@);
                    assert(r_rest@ =~= old_r.skip(m + 1));
                } else {
                    assert(r_old@ =~= row_at(old_r, m as int));
                }
                if m < old_md.len() {
                    assert(md_old@ == old_md[m as int]@);
                    assert(md_rest@ =~= old_md.skip(m + 1));
                } else {
                    assert(md_old@ =~= row_at(old_md, m as int));
                }
            }
            let ghost r_old_v = r_old@;
            let row_r = sync_reasoning_row(m, &msgs[m].parts, r_old);
            let assistant = msgs[m].role == Role::Assistant;
            let row_md = sync_markdown_row(m, assistant, &msgs[m].parts, md_old, &mut updates);
            let ghost new_r_before = new_r@;
            let ghost new_md_before = new_md@;
            new_r.push(row_r);
            new_md.push(row_md);
            proof {
                assert forall|i: int, p: int| 0 <= i < m + 1 && 0 <= p < msgs@[i].parts@.len() implies reasoning_synced(
                    #[trigger] slot_of(new_r@, i, p),
                    slot_of(old_r, i, p),
                    i,
                    p,
                    msgs@[i].parts@[p],
                ) by {
                    if i < m {
                        assert(new_r@[i] == new_r_before[i]);
                        assert(slot_of(new_r@, i, p) == slot_of(new_r_before, i, p));
                    } else {
                        assert(slot_of(old_r, i, p) == (if p < r_old_v.len() { r_old_v[p] } else { None }));
                    }
                }
                assert forall|i: int, p: int| 0 <= i < m + 1 && 0 <= p < msgs@[i].parts@.len() implies markdown_synced(
                    #[trigger] slot_of(new_md@, i, p),
                    msgs@[i].role == Role::Assistant,
                    msgs@[i].parts@[p],
                ) by {
                    if i < m {
                        assert(new_md@[i] == new_md_before[i]);
                        assert(slot_of(new_md@, i, p) == slot_of(new_md_before, i, p));
                    }
                }
                assert forall|i: int| 0 <= i < m + 1 implies #[trigger] new_r@[i]@.len() == msgs@[i].parts@.len() by {
                    if i < m {
                        assert(new_r@[i] == new_r_before[i]);
                    }
                }
                assert forall|i: int| 0 <= i < m + 1 implies #[trigger] new_md@[i]@.len() == msgs@[i].parts@.len() by {
                    if i < m {
                        assert(new_md@[i] == new_md_before[i]);
                    }
                }
            }
            m = m + 1;
        }
        self.reasoning_displays.rows = new_r;
        self.markdown_displays.rows = new_md;
        updates
    }

    /// The workspace a `send_file` path resolves against.
    pub fn workspace_dir_for_send_file(&self) -> (r: Option<String>)
        ensures
            match self.selected_workspace_id {
                Some(id) => match index_of_id(self.workspaces@, id@, 0) {
                    Some(k) => 0 <= k < self.workspaces@.len() && r == Some(self.workspaces@[k].path),
                    None => r is None,
                },
                None => r is None,
            },
    {
        selected_workspace_path(&self.workspaces, &self.selected_workspace_id)
    }

    /// A workspace was added: it joins the list in display order and
    /// becomes the selected one.
    pub fn add_workspace(&mut self, workspace: WorkspaceMeta)
        ensures
            *final(self) == (ChatWindow { workspaces: final(self).workspaces, selected_workspace_id: final(self).selected_workspace_id, ..*old(self) }),
            final(self).workspaces@ == sorted_workspaces(old(self).workspaces@.push(workspace)),
            final(self).selected_workspace_id == Some(workspace.id),
            final(self).messages == old(self).messages,
    {
        let id = workspace.id.clone();
        self.workspaces.push(workspace);
        sort_workspaces(&mut self.workspaces);
        self.selected_workspace_id = Some(id);
    }

    /// A workspace was deleted: it leaves the list, and when it was the
    /// selected one the first remaining workspace is selected.
    pub fn delete_workspace(&mut self, workspace_id: &str)
        ensures
            *final(self) == (ChatWindow { workspaces: final(self).workspaces, selected_workspace_id: final(self).selected_workspace_id, ..*old(self) }),
            final(self).workspaces@ == without_id(old(self).workspaces@, workspace_id@),
            match old(self).selected_workspace_id {
                Some(s) => if s@ == workspace_id@ {
                    match final(self).selected_workspace_id {
                        Some(n) => final(self).workspaces@.len() > 0 && n == final(self).workspaces@[0].id,
                        None => final(self).workspaces@.len() == 0,
                    }
                } else {
                    final(self).selected_workspace_id == old(self).selected_workspace_id
                },
                None => final(self).selected_workspace_id is None,
            },
            final(self).messages == old(self).messages,
    {
        remove_workspace(&mut self.workspaces, &mut self.selected_workspace_id, workspace_id);
    }

    /// The user picks workspace `id`; returns its folder, for the composer.
    pub fn select_workspace(&mut self, id: String) -> (r: Option<String>)
        ensures
            *final(self) == (ChatWindow { selected_workspace_id: final(self).selected_workspace_id, ..*old(self) }),
            final(self).selected_workspace_id == Some(id),
            match index_of_id(old(self).workspaces@, id@, 0) {
                Some(k) => 0 <= k < old(self).workspaces@.len() && r == Some(old(self).workspaces@[k].path),
                None => r is None,
            },
            final(self).workspaces == old(self).workspaces,
    {
        self.selected_workspace_id = Some(id);
        selected_workspace_path(&self.workspaces, &self.selected_workspace_id)
    }
}

} // verus!
