//! The chat window's decisions: its title, the status line, what a send
//! carries, the edit-and-fork flow and how streamed markdown is refreshed.

use vstd::prelude::*;
use base64::Engine;
use crate::text::{decimal, push_decimal, push_str, string_of};

verus! {

/// Where a conversation stands.
pub enum ChatState {
    Idle,
    Loading,
    Streaming,
    Error(String),
}

/// The status line: nothing when idle, `Loading...`, `Thinking...` while
/// streaming, or the error message.
pub open spec fn status_line(state: ChatState) -> Option<Seq<char>> {
    match state {
        ChatState::Idle => None,
        ChatState::Loading => Some("Loading..."@),
        ChatState::Streaming => Some("Thinking..."@),
        ChatState::Error(msg) => Some(msg@),
    }
}

/// The status line shown for `state`.
pub fn chat_status_text(state: &ChatState) -> (r: Option<String>)
    ensures
        match r {
            Some(s) => status_line(*state) == Some(s@),
            None => status_line(*state) is None,
        },
{
    match state {
        ChatState::Idle => None,
        ChatState::Loading => Some("Loading...".to_owned()),
        ChatState::Streaming => Some("Thinking...".to_owned()),
        ChatState::Error(msg) => Some(msg.clone()),
    }
}

/// Stops a streaming reply: only a streaming conversation is stopped (and
/// becomes idle); any other state is left as it is. Returns whether the
/// session must be aborted.
pub fn stop_streaming(state: &mut ChatState) -> (stopped: bool)
    ensures
        stopped == (*old(state) is Streaming),
        stopped ==> *final(state) is Idle,
        !stopped ==> *final(state) == *old(state),
{
    if let ChatState::Streaming = state {
        *state = ChatState::Idle;
        true
    } else {
        false
    }
}

/// The title a thread is shown under: its own, or `New Thread` when it has
/// none or an empty one.
pub open spec fn shown_title(title: Option<Seq<char>>) -> Seq<char> {
    match title {
        Some(t) => if t.len() == 0 { "New Thread"@ } else { t },
        None => "New Thread"@,
    }
}

/// The title of a window opened on a thread (or on none), and the title a
/// rename leaves.
pub fn thread_title(title: Option<&str>) -> (r: String)
    ensures
        r@ == shown_title(match title { Some(t) => Some(t@), None => None }),
{
    match title {
        Some(t) => if t.is_empty() { "New Thread".to_owned() } else { t.to_owned() },
        None => "New Thread".to_owned(),
    }
}

/// The workspace a thread was last used in, as its metadata records it:
/// the `workspace_id` member when it is a string.
pub fn saved_workspace_id(metadata: Option<&crate::json::JsonValue>) -> (r: Option<String>)
    ensures
        match r {
            Some(s) => (metadata matches Some(md) && crate::json::json_str_member(*md, "workspace_id"@) == Some(s@)),
            None => match metadata {
                Some(md) => crate::json::json_str_member(*md, "workspace_id"@) is None,
                None => true,
            },
        },
{
    match metadata {
        Some(md) => crate::json::str_member(md, "workspace_id"),
        None => None,
    }
}

/// The thinking level a new window starts with: a restored thread keeps its
/// own (`thread` is `Some`), a new one takes the agent's default, else `off`.
pub fn initial_thinking_level(thread: Option<Option<String>>, agent_default: Option<String>) -> (r: Option<String>)
    ensures
        match thread {
            Some(level) => r == level,
            None => match agent_default {
                Some(d) => r == Some(d),
                None => r matches Some(s) && s@ == "off"@,
            },
        },
{
    match thread {
        Some(level) => level,
        None => match agent_default {
            Some(d) => Some(d),
            None => Some("off".to_owned()),
        },
    }
}

/// The text an attached file contributes to a message.
pub open spec fn file_block(path: Seq<char>, content: Seq<char>) -> Seq<char> {
    "<file path=\""@ + path + "\">\n"@ + content + "\n</file>"@
}

/// The file blocks joined by blank lines.
pub open spec fn joined_blocks(files: Seq<(Seq<char>, Seq<char>)>) -> Seq<char>
    decreases files.len(),
{
    if files.len() == 0 {
        Seq::empty()
    } else if files.len() == 1 {
        file_block(files[0].0, files[0].1)
    } else {
        joined_blocks(files.drop_last()) + "\n\n"@ + file_block(files.last().0, files.last().1)
    }
}

/// What is sent: the typed text, then the attached text files, separated by
/// a blank line.
pub open spec fn combined_text(content: Seq<char>, files: Seq<(Seq<char>, Seq<char>)>) -> Seq<char> {
    if files.len() == 0 {
        content
    } else if content.len() == 0 {
        joined_blocks(files)
    } else {
        content + "\n\n"@ + joined_blocks(files)
    }
}

pub open spec fn file_views(files: Seq<(String, String)>) -> Seq<(Seq<char>, Seq<char>)> {
    files.map_values(|f: (String, String)| (f.0@, f.1@))
}

/// The message text sent for `content` with the attached text files
/// `files` (path, content).
pub fn combined_content(content: &str, files: &Vec<(String, String)>) -> (r: String)
    ensures
        r@ == combined_text(content@, file_views(files@)),
{
    proof {
        reveal_strlit("<file path=\"");
        reveal_strlit("\">\n");
        reveal_strlit("\n</file>");
        reveal_strlit("\n\n");
    }
    if files.len() == 0 {
        return content.to_owned();
    }
    let mut out: Vec<char> = Vec::new();
    if !content.is_empty() {
        push_str(&mut out, content);
        push_str(&mut out, "\n\n");
    }
    let ghost start = out@;
    let mut k: usize = 0;
    while k < files.len()
        invariant
            1 <= files.len(),
            k <= files.len(),
            k == 0 ==> out@ == start,
            k > 0 ==> out@ == start + joined_blocks(file_views(files@.take(k as int))),
        decreases files.len() - k,
    {
        let ghost before = out@;
        if k > 0 {
            push_str(&mut out, "\n\n");
        }
        push_str(&mut out, "<file path=\"");
        push_str(&mut out, files[k].0.as_str());
        push_str(&mut out, "\">\n");
        push_str(&mut out, files[k].1.as_str());
        push_str(&mut out, "\n</file>");
        proof {
            let fs = file_views(files@.take(k + 1));
            assert(fs.drop_last() =~= file_views(files@.take(k as int)));
            assert(fs.last() == (files@[k as int].0@, files@[k as int].1@));
            if k == 0 {
                assert(out@ =~= start + file_block(fs[0].0, fs[0].1));
            } else {
                assert(out@ =~= start + (joined_blocks(fs.drop_last()) + "\n\n"@ + file_block(fs.last().0, fs.last().1)));
            }
        }
        k = k + 1;
    }
    assert(files@.take(files.len() as int) =~= files@);
    proof {
        if content@.len() == 0 {
            assert(out@ =~= joined_blocks(file_views(files@)));
        } else {
            assert(out@ =~= content@ + "\n\n"@ + joined_blocks(file_views(files@)));
        }
    }
    string_of(out.as_slice())
}

/// Whether a send goes ahead: there is text or an attachment.
pub fn has_content_to_send(content: &str, attachments: usize) -> (r: bool)
    ensures
        r == (content@.len() > 0 || attachments > 0),
{
    !content.is_empty() || attachments > 0
}

/// Why a message cannot be edited.
#[derive(Clone, Copy, PartialEq, Eq, Debug, Structural)]
pub enum EditRejection {
    /// No message has the id being edited.
    NotFound,
    /// Only the user's own messages can be edited.
    NotUser,
}

/// The first index whose id is `id`, searching from `k`.
pub open spec fn first_id_from(ids: Seq<String>, id: Seq<char>, k: int) -> Option<int>
    decreases ids.len() - k,
{
    if k < 0 || k >= ids.len() {
        None
    } else if ids[k]@ == id {
        Some(k)
    } else {
        first_id_from(ids, id, k + 1)
    }
}

/// The message an edit applies to: the first whose id is `editing_id`,
/// which must be the user's.
pub fn edit_target(ids: &Vec<String>, is_user: &Vec<bool>, editing_id: &str) -> (r: Result<usize, EditRejection>)
    requires
        ids.len() == is_user.len(),
    ensures
        match first_id_from(ids@, editing_id@, 0) {
            None => r == Err::<usize, EditRejection>(EditRejection::NotFound),
            Some(i) => if is_user@[i] { r == Ok::<usize, EditRejection>(i as usize) } else { r == Err::<usize, EditRejection>(EditRejection::NotUser) },
        },
{
    let mut k: usize = 0;
    while k < ids.len()
        invariant
            k <= ids.len(),
            ids.len() == is_user.len(),
            first_id_from(ids@, editing_id@, 0) == first_id_from(ids@, editing_id@, k as int),
        decreases ids.len() - k,
    {
        if crate::text::str_eq(ids[k].as_str(), editing_id) {
            return if is_user[k] { Ok(k) } else { Err(EditRejection::NotUser) };
        }
        k = k + 1;
    }
    Err(EditRejection::NotFound)
}

/// Forks the conversation at `idx`: the entry there is replaced and every
/// later entry dropped.
pub fn fork_at<T>(items: &mut Vec<T>, idx: usize, replacement: T)
    requires
        idx < old(items).len(),
    ensures
        final(items)@ == old(items)@.take(idx as int).push(replacement),
{
    items.truncate(idx);
    items.push(replacement);
}

/// How the markdown view of one assistant text part is refreshed.
#[derive(Clone, Copy, PartialEq, Eq, Debug, Structural)]
pub enum MarkdownUpdate {
    /// No view yet: parse the whole text.
    Create,
    /// Rebuild the view from the whole text.
    SetText,
}

/// The refresh of an assistant text part, given whether it has a view and
/// whether it is still streaming: none while it streams (markdown parsing
/// is too costly to run on every token; the text shows plain meanwhile),
/// else a new view, or the view it has rebuilt.
pub open spec fn markdown_refresh(has_view: bool, streaming: bool) -> Option<MarkdownUpdate> {
    if streaming {
        None
    } else if has_view {
        Some(MarkdownUpdate::SetText)
    } else {
        Some(MarkdownUpdate::Create)
    }
}

/// The refresh of the markdown view of one assistant text part.
pub fn markdown_step(has_view: bool, streaming: bool) -> (r: Option<MarkdownUpdate>)
    ensures
        r == markdown_refresh(has_view, streaming),
{
    if streaming {
        None
    } else if has_view {
        Some(MarkdownUpdate::SetText)
    } else {
        Some(MarkdownUpdate::Create)
    }
}

/// The session file of a new conversation started at `now_nanos`
/// nanoseconds after the Unix epoch, or the thread's own file.
pub fn session_file_name(existing: Option<String>, now_nanos: u128) -> (r: String)
    ensures
        match existing {
            Some(f) => r == f,
            None => r@ == "session_"@ + decimal(now_nanos as nat) + ".jsonl"@,
        },
{
    match existing {
        Some(f) => f,
        None => {
            proof {
                reveal_strlit("session_");
                reveal_strlit(".jsonl");
            }
            let mut out: Vec<char> = Vec::new();
            push_str(&mut out, "session_");
            push_decimal(&mut out, now_nanos);
            push_str(&mut out, ".jsonl");
            string_of(out.as_slice())
        },
    }
}

/// How a text part of a message is drawn.
#[derive(Clone, Copy, PartialEq, Eq, Debug, Structural)]
pub enum TextPartView {
    /// The user's message being edited in place, with Save and Cancel.
    Editing,
    /// A part that is streaming and still empty: nothing yet.
    Waiting,
    /// The text, with a copy button, and an edit button on the user's own.
    Shown { copy: bool, edit: bool },
}

/// How the text part of message `msg_id` is drawn.
pub fn text_part_view(is_user: bool, editing_id: Option<&str>, msg_id: &str, streaming: bool, text_empty: bool) -> (r: TextPartView)
    ensures
        r == if is_user && (editing_id matches Some(e) && e@ == msg_id@) {
            TextPartView::Editing
        } else if streaming && text_empty {
            TextPartView::Waiting
        } else {
            TextPartView::Shown { copy: true, edit: is_user }
        },
{
    let editing = match editing_id {
        Some(e) => is_user && crate::text::str_eq(e, msg_id),
        None => false,
    };
    if editing {
        TextPartView::Editing
    } else if streaming && text_empty {
        TextPartView::Waiting
    } else {
        TextPartView::Shown { copy: true, edit: is_user }
    }
}

/// The message an edit starts on: the first with id `msg_id`, when its
/// first part is text (`first_is_text`).
pub fn start_edit_target(ids: &Vec<String>, first_is_text: &Vec<bool>, msg_id: &str) -> (r: Option<usize>)
    requires
        ids.len() == first_is_text.len(),
    ensures
        match first_id_from(ids@, msg_id@, 0) {
            Some(i) => if first_is_text@[i] { r == Some(i as usize) } else { r is None },
            None => r is None,
        },
{
    let mut k: usize = 0;
    while k < ids.len()
        invariant
            k <= ids.len(),
            ids.len() == first_is_text.len(),
            first_id_from(ids@, msg_id@, 0) == first_id_from(ids@, msg_id@, k as int),
        decreases ids.len() - k,
    {
        if crate::text::str_eq(ids[k].as_str(), msg_id) {
            return if first_is_text[k] { Some(k) } else { None };
        }
        k = k + 1;
    }
    None
}

/// The image formats a message attachment can have.
#[derive(Clone, Copy, PartialEq, Eq, Debug, Structural)]
pub enum ImageFormat {
    Png,
    Jpeg,
    Webp,
    Gif,
    Svg,
    Bmp,
    Tiff,
    Ico,
}

/// The format a MIME type names, compared in lower case.
pub open spec fn format_of_mime(lower: Seq<char>) -> Option<ImageFormat> {
    if lower == "image/png"@ {
        Some(ImageFormat::Png)
    } else if lower == "image/jpeg"@ || lower == "image/jpg"@ {
        Some(ImageFormat::Jpeg)
    } else if lower == "image/webp"@ {
        Some(ImageFormat::Webp)
    } else if lower == "image/gif"@ {
        Some(ImageFormat::Gif)
    } else if lower == "image/svg+xml"@ {
        Some(ImageFormat::Svg)
    } else if lower == "image/bmp"@ {
        Some(ImageFormat::Bmp)
    } else if lower == "image/tiff"@ {
        Some(ImageFormat::Tiff)
    } else if lower == "image/x-icon"@ || lower == "image/vnd.microsoft.icon"@ {
        Some(ImageFormat::Ico)
    } else {
        None
    }
}

/// `s` in lower case as `str::to_lowercase` gives it.
pub uninterp spec fn lowercase_of(s: Seq<char>) -> Seq<char>;

/// `str::to_lowercase`: the Unicode lower-case mapping of `s`, named, not
/// spelled out.
#[verifier::external_body]
pub(crate) fn to_lowercase(s: &str) -> (r: String)
    ensures
        r@ == lowercase_of(s@),
{
    s.to_lowercase()
}

/// The image format of an attachment's MIME type, whatever its case.
pub fn image_format_for_mime(mime: &str) -> (r: Option<ImageFormat>)
    ensures
        r == format_of_mime(lowercase_of(mime@)),
{
    let lower = to_lowercase(mime);
    let m = lower.as_str();
    if crate::text::str_eq(m, "image/png") {
        Some(ImageFormat::Png)
    } else if crate::text::str_eq(m, "image/jpeg") || crate::text::str_eq(m, "image/jpg") {
        Some(ImageFormat::Jpeg)
    } else if crate::text::str_eq(m, "image/webp") {
        Some(ImageFormat::Webp)
    } else if crate::text::str_eq(m, "image/gif") {
        Some(ImageFormat::Gif)
    } else if crate::text::str_eq(m, "image/svg+xml") {
        Some(ImageFormat::Svg)
    } else if crate::text::str_eq(m, "image/bmp") {
        Some(ImageFormat::Bmp)
    } else if crate::text::str_eq(m, "image/tiff") {
        Some(ImageFormat::Tiff)
    } else if crate::text::str_eq(m, "image/x-icon") || crate::text::str_eq(m, "image/vnd.microsoft.icon") {
        Some(ImageFormat::Ico)
    } else {
        None
    }
}

/// The bytes the standard base64 alphabet (with padding) decodes `data`
/// to, when it is valid base64.
pub uninterp spec fn base64_decoded(data: Seq<char>) -> Option<Seq<u8>>;

/// `base64::engine::general_purpose::STANDARD.decode`: the decoded bytes,
/// or none when `data` is not valid standard base64; named, not spelled
/// out.
#[verifier::external_body]
fn decode_base64(data: &str) -> (r: Option<Vec<u8>>)
    ensures
        match r {
            Some(b) => base64_decoded(data@) == Some(b@),
            None => base64_decoded(data@) is None,
        },
{
    base64::engine::general_purpose::STANDARD.decode(data).ok()
}

/// An attached image ready to draw: its format and bytes, when the data
/// decodes and the MIME type names a known format.
pub fn decode_image(data: &str, mime: &str) -> (r: Option<(ImageFormat, Vec<u8>)>)
    ensures
        match r {
            Some((f, b)) => base64_decoded(data@) == Some(b@) && format_of_mime(lowercase_of(mime@)) == Some(f),
            None => base64_decoded(data@) is None || format_of_mime(lowercase_of(mime@)) is None,
        },
{
    let bytes = match decode_base64(data) {
        Some(b) => b,
        None => return None,
    };
    match image_format_for_mime(mime) {
        Some(f) => Some((f, bytes)),
        None => None,
    }
}

} // verus!
