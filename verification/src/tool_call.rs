//! What a tool call in the chat shows: its title, its pretty-printed input,
//! the badge color of the tool, and the card of a sent file.

use vstd::prelude::*;
use crate::file_size::{file_size_text, format_file_size};
use crate::json::{
    compact_json, json_get, json_str, json_u64, json_to_string, json_to_string_pretty, parse_json,
    parsed_json, pretty_json, JsonValue,
};
use crate::message_layout::PartState;
use crate::paths::{file_name_of, is_absolute_path, join_path, path_file_name, path_is_absolute, path_joined};
use crate::text::str_eq;

verus! {

/// Which slice of a tool-call pair a view represents.
#[derive(Clone, Copy, PartialEq, Eq, Debug, Structural)]
pub enum ToolCallKind {
    /// A tool call paired with its result (or text output), shown as one
    /// compact row with an output popover.
    Paired,
    /// A tool call without a result, shown as a muted badge.
    CallOnly,
    /// A tool result without a call, shown as a plain output block (or a
    /// file card for `send_file`).
    ResultOnly,
}

/// The data a tool-call view needs: the call, its output, and where
/// relative file paths resolve.
pub struct ToolCall {
    pub kind: ToolCallKind,
    pub name: String,
    pub args: String,
    pub output: Option<String>,
    pub details: Option<JsonValue>,
    /// Whether the output is shown through a rendered markdown document.
    pub has_markdown: bool,
    pub workspace_dir: Option<String>,
    pub state: Option<PartState>,
}

/// The badge color (`0xRRGGBB`) of a tool; tools outside the known set are gray.
pub open spec fn tool_color(name: Seq<char>) -> u32 {
    if name == "read"@ {
        0x3b82f6
    } else if name == "write"@ {
        0x22c55e
    } else if name == "edit"@ {
        0xf59e0b
    } else if name == "bash"@ {
        0xef4444
    } else if name == "send_file"@ {
        0x8b5cf6
    } else {
        0x888888
    }
}

/// The argument a tool's title shows: `command` for `bash`, `path` for
/// `read`, `edit` and `write`, none for other tools.
pub open spec fn title_key(name: Seq<char>) -> Option<Seq<char>> {
    if name == "bash"@ {
        Some("command"@)
    } else if name == "read"@ || name == "edit"@ || name == "write"@ {
        Some("path"@)
    } else {
        None
    }
}

/// The short title of a tool call whose arguments parsed to `parsed`: the
/// title argument (its text when it is a string, else its compact JSON),
/// or the raw arguments when there is none.
pub open spec fn title_given(name: Seq<char>, args: Seq<char>, parsed: Option<JsonValue>) -> Seq<char> {
    match title_key(name) {
        Some(key) => match parsed {
            Some(json) => match json_get(json, key) {
                Some(value) => match json_str(value) {
                    Some(s) => s,
                    None => compact_json(value),
                },
                None => args,
            },
            None => args,
        },
        None => args,
    }
}

/// The short title of a tool call.
pub open spec fn tool_title(name: Seq<char>, args: Seq<char>) -> Seq<char> {
    title_given(name, args, parsed_json(args))
}

/// The arguments pretty-printed when they are JSON, else unchanged.
pub open spec fn tool_input(args: Seq<char>) -> Seq<char> {
    match parsed_json(args) {
        Some(json) => pretty_json(json),
        None => args,
    }
}

/// The badge color of the tool `name`.
pub fn tool_name_color(name: &str) -> (r: u32)
    ensures
        r == tool_color(name@),
{
    if str_eq(name, "read") {
        0x3b82f6
    } else if str_eq(name, "write") {
        0x22c55e
    } else if str_eq(name, "edit") {
        0xf59e0b
    } else if str_eq(name, "bash") {
        0xef4444
    } else if str_eq(name, "send_file") {
        0x8b5cf6
    } else {
        0x888888
    }
}

/// The key whose argument a tool's title shows.
pub fn title_key_of(name: &str) -> (r: Option<&'static str>)
    ensures
        match r {
            Some(k) => title_key(name@) == Some(k@),
            None => title_key(name@) is None,
        },
{
    if str_eq(name, "bash") {
        Some("command")
    } else if str_eq(name, "read") || str_eq(name, "edit") || str_eq(name, "write") {
        Some("path")
    } else {
        None
    }
}

/// The title of a tool call whose arguments parsed to `parsed` (none when
/// they are not JSON).
pub fn tool_title_from(name: &str, args: &str, parsed: &Option<JsonValue>) -> (r: String)
    ensures
        r@ == title_given(name@, args@, *parsed),
{
    if let Some(key) = title_key_of(name) {
        if let Some(json) = parsed {
            if let Some(value) = json.get(key) {
                return match value.as_str() {
                    Some(s) => s.clone(),
                    None => json_to_string(value),
                };
            }
        }
    }
    args.to_owned()
}

/// A short title for a tool call: `read`/`edit`/`write` show the `path`,
/// `bash` shows the `command`, and other tools the full arguments.
pub fn format_tool_title(name: &str, args: &str) -> (r: String)
    ensures
        r@ == tool_title(name@, args@),
{
    let parsed = parse_json(args);
    tool_title_from(name, args, &parsed)
}

/// The input shown for arguments whose pretty-printed form, when they are
/// JSON, is `pretty`.
pub fn tool_input_from(args: &str, pretty: Option<String>) -> (r: String)
    ensures
        r@ == match pretty { Some(p) => p@, None => args@ },
{
    match pretty {
        Some(p) => p,
        None => args.to_owned(),
    }
}

/// The arguments pretty-printed when they are valid JSON; otherwise unchanged.
pub fn format_tool_input(args: &str) -> (r: String)
    ensures
        r@ == tool_input(args@),
{
    let pretty = match parse_json(args) {
        Some(json) => Some(json_to_string_pretty(&json)),
        None => None,
    };
    tool_input_from(args, pretty)
}

impl ToolCall {
    /// A tool call paired with its result (or a text part acting as the
    /// result), shown as one row with an output popover.
    pub fn paired(
        name: String,
        args: String,
        output: Option<String>,
        details: Option<JsonValue>,
        has_markdown: bool,
        workspace_dir: Option<String>,
        state: Option<PartState>,
    ) -> (r: Self)
        ensures
            r == (ToolCall { kind: ToolCallKind::Paired, name, args, output, details, has_markdown, workspace_dir, state }),
    {
        ToolCall { kind: ToolCallKind::Paired, name, args, output, details, has_markdown, workspace_dir, state }
    }

    /// A tool call with no paired result.
    pub fn call_only(name: String, args: String, state: Option<PartState>) -> (r: Self)
        ensures
            r.kind == ToolCallKind::CallOnly,
            r.name == name,
            r.args == args,
            r.output is None,
            r.details is None,
            !r.has_markdown,
            r.workspace_dir is None,
            r.state == state,
    {
        ToolCall {
            kind: ToolCallKind::CallOnly,
            name,
            args,
            output: None,
            details: None,
            has_markdown: false,
            workspace_dir: None,
            state,
        }
    }

    /// A tool result with no paired call.
    pub fn result_only(
        name: String,
        output: String,
        details: Option<JsonValue>,
        state: Option<PartState>,
        workspace_dir: Option<String>,
    ) -> (r: Self)
        ensures
            r.kind == ToolCallKind::ResultOnly,
            r.name == name,
            r.args@.len() == 0,
            r.output == Some(output),
            r.details == details,
            !r.has_markdown,
            r.workspace_dir == workspace_dir,
            r.state == state,
    {
        ToolCall {
            kind: ToolCallKind::ResultOnly,
            name,
            args: String::new(),
            output: Some(output),
            details,
            has_markdown: false,
            workspace_dir,
            state,
        }
    }

    /// Which slice of a pair this view shows.
    pub fn kind(&self) -> (r: ToolCallKind)
        ensures
            r == self.kind,
    {
        self.kind
    }

    /// Whether a spinner runs beside the call.
    pub fn is_streaming(&self) -> (r: bool)
        ensures
            r == (self.state == Some(PartState::Streaming)),
    {
        match self.state {
            Some(PartState::Streaming) => true,
            _ => false,
        }
    }

    /// Whether a paired row offers its input/output popover: it has
    /// arguments, a markdown output, or a non-empty output text.
    pub fn has_detail(&self) -> (r: bool)
        ensures
            r == (self.args@.len() > 0 || self.has_markdown || (self.output matches Some(o) && o@.len() > 0)),
    {
        !self.args.as_str().is_empty() || self.has_markdown || match &self.output {
            Some(o) => !o.as_str().is_empty(),
            None => false,
        }
    }

    /// The heading of a result shown on its own: `Output`, or `<name> Output`.
    pub fn result_header(&self) -> (r: String)
        ensures
            r@ == if self.name@.len() == 0 || self.name@ == "unknown"@ {
                "Output"@
            } else {
                self.name@ + " Output"@
            },
    {
        if self.name.as_str().is_empty() || str_eq(self.name.as_str(), "unknown") {
            "Output".to_owned()
        } else {
            let mut h = self.name.clone();
            h.append(" Output");
            h
        }
    }

    /// Whether this call renders as the card of a sent file.
    pub fn is_send_file(&self) -> (r: bool)
        ensures
            r == (self.kind != ToolCallKind::CallOnly && self.name@ == "send_file"@),
    {
        !matches!(self.kind, ToolCallKind::CallOnly) && str_eq(self.name.as_str(), "send_file")
    }
}

/// What the card of a sent file shows, and the path its buttons open.
pub struct SendFileCard {
    pub path: String,
    pub file_name: String,
    pub mime_type: String,
    pub size: u64,
}

/// The string member `key` of optional details.
pub open spec fn detail_str(details: Option<JsonValue>, key: Seq<char>) -> Option<Seq<char>> {
    match details {
        Some(d) => match json_get(d, key) {
            Some(v) => json_str(v),
            None => None,
        },
        None => None,
    }
}

/// The path a `send_file` call names before resolution: the `path` detail,
/// else the `path` argument, else empty.
pub open spec fn sent_path(details: Option<JsonValue>, args: Seq<char>) -> Seq<char> {
    let from_details = match detail_str(details, "path"@) {
        Some(p) => p,
        None => Seq::empty(),
    };
    if from_details.len() > 0 {
        from_details
    } else {
        match parsed_json(args) {
            Some(j) => match json_get(j, "path"@) {
                Some(v) => match json_str(v) {
                    Some(p) => p,
                    None => from_details,
                },
                None => from_details,
            },
            None => from_details,
        }
    }
}

/// The path a `send_file` card opens: relative paths resolve against the
/// workspace when there is one.
pub open spec fn resolved_sent_path(details: Option<JsonValue>, args: Seq<char>, workspace: Option<Seq<char>>) -> Seq<char> {
    let p = sent_path(details, args);
    if !path_is_absolute(p) && workspace is Some {
        path_joined(workspace.unwrap(), p)
    } else {
        p
    }
}

fn detail_string(details: &Option<JsonValue>, key: &str) -> (r: Option<String>)
    ensures
        match r {
            Some(s) => detail_str(*details, key@) == Some(s@),
            None => detail_str(*details, key@) is None,
        },
{
    match details {
        Some(d) => match d.get(key) {
            Some(v) => match v.as_str() {
                Some(s) => Some(s.clone()),
                None => None,
            },
            None => None,
        },
        None => None,
    }
}

impl ToolCall {
    /// The card of a sent file: its path (resolved against the workspace),
    /// name, MIME type and size. Without a path the card names the output
    /// (or `Sent file`) with a generic type and no size.
    pub fn send_file_card(&self) -> (r: SendFileCard)
        ensures
            r.path@ == resolved_sent_path(self.details, self.args@, match self.workspace_dir {
                Some(w) => Some(w@),
                None => None,
            }),
            r.path@.len() == 0 ==> {
                &&& r.file_name@ == match self.output {
                    Some(o) => if o@.len() == 0 { "Sent file"@ } else { o@ },
                    None => "Sent file"@,
                }
                &&& r.mime_type@ == "application/octet-stream"@
                &&& r.size == 0
            },
            r.path@.len() > 0 ==> {
                &&& r.file_name@ == match path_file_name(r.path@) {
                    Some(n) => n,
                    None => Seq::empty(),
                }
                &&& r.mime_type@ == match detail_str(self.details, "mime_type"@) {
                    Some(m) => m,
                    None => "application/octet-stream"@,
                }
                &&& r.size == match self.details {
                    Some(d) => match json_get(d, "size"@) {
                        Some(v) => match json_u64(v) {
                            Some(n) => n,
                            None => 0,
                        },
                        None => 0,
                    },
                    None => 0,
                }
            },
    {
        let mut path = match detail_string(&self.details, "path") {
            Some(p) => p,
            None => String::new(),
        };
        if path.as_str().is_empty() {
            if let Some(j) = parse_json(self.args.as_str()) {
                if let Some(v) = j.get("path") {
                    if let Some(p) = v.as_str() {
                        path = p.clone();
                    }
                }
            }
        }
        if !is_absolute_path(path.as_str()) {
            if let Some(ws) = &self.workspace_dir {
                path = join_path(ws.as_str(), path.as_str());
            }
        }
        if path.as_str().is_empty() {
            let file_name = match &self.output {
                Some(o) => if o.as_str().is_empty() { "Sent file".to_owned() } else { o.clone() },
                None => "Sent file".to_owned(),
            };
            SendFileCard { path, file_name, mime_type: "application/octet-stream".to_owned(), size: 0 }
        } else {
            let file_name = match file_name_of(path.as_str()) {
                Some(n) => n,
                None => String::new(),
            };
            let mime_type = match detail_string(&self.details, "mime_type") {
                Some(m) => m,
                None => "application/octet-stream".to_owned(),
            };
            let size = match &self.details {
                Some(d) => match d.get("size") {
                    Some(v) => match v.as_u64() {
                        Some(n) => n,
                        None => 0,
                    },
                    None => 0,
                },
                None => 0,
            };
            SendFileCard { path, file_name, mime_type, size }
        }
    }
}

impl SendFileCard {
    /// The line under the file name: `<MIME type> • <size>`.
    pub fn subtitle(&self) -> (r: String)
        ensures
            r@ == self.mime_type@ + " • "@ + file_size_text(self.size as nat),
    {
        let mut s = self.mime_type.clone();
        s.append(" • ");
        let size = format_file_size(self.size);
        s.append(size.as_str());
        s
    }
}

} // verus!
