//! The account panel: who is signed in, settings sync, remote control
//! through a cloudflared tunnel (and the dialog that installs cloudflared),
//! and the appearance settings.

use vstd::prelude::*;
use crate::text::{has_prefix, push_str, string_of, text_starts_with, chars_of};

verus! {

/// What the panel tells its owner.
#[derive(Clone, Copy, PartialEq, Eq, Debug, Structural)]
pub enum UserPanelEvent {
    BackPressed,
    AuthStateChanged,
    OpenOnboarding,
}

/// The dialog that offers to install cloudflared.
#[derive(Debug)]
pub enum CloudflaredDialog {
    Prompt,
    Downloading,
    Error(String),
}

/// What the cloudflared dialog shows: title, text, label of the main
/// button, whether that button is disabled (a download runs), and the
/// error, if any.
pub struct DialogContent {
    pub title: &'static str,
    pub body: &'static str,
    pub primary_label: &'static str,
    pub busy: bool,
    pub error: Option<String>,
}

impl CloudflaredDialog {
    /// The texts of the dialog in this state.
    pub fn content(&self) -> (r: DialogContent)
        ensures
            match self {
                CloudflaredDialog::Prompt => r.title@ == "Cloudflared required"@
                    && r.body@ == "Remote control needs the cloudflared tunnel binary. Download it to the app data folder now?"@
                    && r.primary_label@ == "Download & Start"@ && !r.busy && r.error is None,
                CloudflaredDialog::Downloading => r.title@ == "Downloading cloudflared"@
                    && r.body@ == "Downloading and installing cloudflared..."@
                    && r.primary_label@ == "Downloading..."@ && r.busy && r.error is None,
                CloudflaredDialog::Error(e) => r.title@ == "Download failed"@
                    && r.body@ == "Could not download cloudflared."@
                    && r.primary_label@ == "Retry"@ && !r.busy && r.error == Some(*e),
            },
    {
        match self {
            CloudflaredDialog::Prompt => DialogContent {
                title: "Cloudflared required",
                body: "Remote control needs the cloudflared tunnel binary. Download it to the app data folder now?",
                primary_label: "Download & Start",
                busy: false,
                error: None,
            },
            CloudflaredDialog::Downloading => DialogContent {
                title: "Downloading cloudflared",
                body: "Downloading and installing cloudflared...",
                primary_label: "Downloading...",
                busy: true,
                error: None,
            },
            CloudflaredDialog::Error(e) => DialogContent {
                title: "Download failed",
                body: "Could not download cloudflared.",
                primary_label: "Retry",
                busy: false,
                error: Some(e.clone()),
            },
        }
    }
}

/// Where the remote-control tunnel stands.
pub enum RemoteStatus {
    Disabled,
    Starting,
    Running,
    Reconnecting,
    Error(String),
}

/// The color family a status is shown in.
#[derive(Clone, Copy, PartialEq, Eq, Debug, Structural)]
pub enum Tone {
    Success,
    Warning,
    Danger,
    Muted,
}

/// The status line of remote control.
pub open spec fn remote_status_line(status: RemoteStatus) -> Seq<char> {
    match status {
        RemoteStatus::Disabled => "Off"@,
        RemoteStatus::Starting => "Starting..."@,
        RemoteStatus::Running => "Connected"@,
        RemoteStatus::Reconnecting => "Reconnecting..."@,
        RemoteStatus::Error(e) => "Error: "@ + e@,
    }
}

fn concat2(a: &str, b: &str) -> (r: String)
    ensures
        r@ == a@ + b@,
{
    let mut out: Vec<char> = Vec::new();
    push_str(&mut out, a);
    push_str(&mut out, b);
    string_of(out.as_slice())
}

/// The status text of remote control.
pub fn remote_status_text(status: &RemoteStatus) -> (r: String)
    ensures
        r@ == remote_status_line(*status),
{
    match status {
        RemoteStatus::Disabled => "Off".to_owned(),
        RemoteStatus::Starting => "Starting...".to_owned(),
        RemoteStatus::Running => "Connected".to_owned(),
        RemoteStatus::Reconnecting => "Reconnecting...".to_owned(),
        RemoteStatus::Error(e) => concat2("Error: ", e.as_str()),
    }
}

/// The tone of the remote-control status.
pub fn remote_status_tone(status: &RemoteStatus) -> (r: Tone)
    ensures
        r == match status {
            RemoteStatus::Running => Tone::Success,
            RemoteStatus::Error(_) => Tone::Danger,
            RemoteStatus::Reconnecting => Tone::Warning,
            _ => Tone::Muted,
        },
{
    match status {
        RemoteStatus::Running => Tone::Success,
        RemoteStatus::Error(_) => Tone::Danger,
        RemoteStatus::Reconnecting => Tone::Warning,
        _ => Tone::Muted,
    }
}

/// The tone of the tunnel's last log line, by its level.
pub fn log_level_tone(level: &str) -> (r: Tone)
    ensures
        r == if level@ == "ERR"@ { Tone::Danger } else if level@ == "WRN"@ { Tone::Warning } else { Tone::Muted },
{
    if crate::text::str_eq(level, "ERR") {
        Tone::Danger
    } else if crate::text::str_eq(level, "WRN") {
        Tone::Warning
    } else {
        Tone::Muted
    }
}

/// The tooltip of the tunnel's last log line: `[LEVEL] message`.
pub fn log_tooltip(level: &str, message: &str) -> (r: String)
    ensures
        r@ == "["@ + level@ + "] "@ + message@,
{
    let mut out: Vec<char> = Vec::new();
    push_str(&mut out, "[");
    push_str(&mut out, level);
    push_str(&mut out, "] ");
    push_str(&mut out, message);
    string_of(out.as_slice())
}

/// The bearer token saved for the tunnel: none when the field is empty.
pub fn bearer_token(input: String) -> (r: Option<String>)
    ensures
        input@.len() == 0 ==> r is None,
        input@.len() > 0 ==> r == Some(input),
{
    if input.as_str().is_empty() { None } else { Some(input) }
}

/// What clicking the remote-control switch does.
#[derive(Clone, Copy, PartialEq, Eq, Debug, Structural)]
pub enum RemoteToggle {
    /// The tunnel is starting or reconnecting: the switch does nothing.
    Ignore,
    Disable,
    Enable,
}

/// The effect of the switch while the tunnel is (or is not) enabled and busy.
pub fn remote_toggle(enabled: bool, busy: bool) -> (r: RemoteToggle)
    ensures
        r == if busy { RemoteToggle::Ignore } else if enabled { RemoteToggle::Disable } else { RemoteToggle::Enable },
{
    if busy { RemoteToggle::Ignore } else if enabled { RemoteToggle::Disable } else { RemoteToggle::Enable }
}

/// The panel's own state.
pub struct UserPanel {
    pub cloudflared_dialog: Option<CloudflaredDialog>,
    pub token_popover_open: bool,
}

impl UserPanel {
    pub fn new() -> (r: Self)
        ensures
            r.cloudflared_dialog is None,
            !r.token_popover_open,
    {
        UserPanel { cloudflared_dialog: None, token_popover_open: false }
    }

    /// Remote control is asked for. Without a usable cloudflared the
    /// install dialog opens and nothing starts (`None`); otherwise the
    /// tunnel starts with the bearer token typed (none when empty).
    pub fn enable_remote_control(&mut self, cloudflared_found: bool, token_input: String) -> (r: Option<Option<String>>)
        ensures
            !cloudflared_found ==> r is None && (final(self).cloudflared_dialog matches Some(d) && d is Prompt),
            cloudflared_found ==> final(self).cloudflared_dialog == old(self).cloudflared_dialog
                && (r matches Some(t) && (token_input@.len() == 0 ==> t is None) && (token_input@.len() > 0 ==> t == Some(token_input))),
            final(self).token_popover_open == old(self).token_popover_open,
    {
        if !cloudflared_found {
            self.cloudflared_dialog = Some(CloudflaredDialog::Prompt);
            return None;
        }
        Some(bearer_token(token_input))
    }

    /// The download of cloudflared starts.
    pub fn start_download(&mut self)
        ensures
            final(self).cloudflared_dialog matches Some(d) && d is Downloading,
            final(self).token_popover_open == old(self).token_popover_open,
    {
        self.cloudflared_dialog = Some(CloudflaredDialog::Downloading);
    }

    /// The download ended: on success the dialog closes and remote control
    /// is enabled next (`true`); on failure the dialog shows the error.
    pub fn finish_download(&mut self, result: Result<(), String>) -> (enable_next: bool)
        ensures
            enable_next == (result is Ok),
            result is Ok ==> final(self).cloudflared_dialog is None,
            result matches Err(e) ==> (final(self).cloudflared_dialog matches Some(d) && d == CloudflaredDialog::Error(e)),
            final(self).token_popover_open == old(self).token_popover_open,
    {
        match result {
            Ok(()) => {
                self.cloudflared_dialog = None;
                true
            },
            Err(e) => {
                self.cloudflared_dialog = Some(CloudflaredDialog::Error(e));
                false
            },
        }
    }

    /// The dialog is dismissed.
    pub fn close_dialog(&mut self)
        ensures
            final(self).cloudflared_dialog is None,
            final(self).token_popover_open == old(self).token_popover_open,
    {
        self.cloudflared_dialog = None;
    }

    /// The token popover opens or closes.
    pub fn set_token_popover(&mut self, open: bool)
        ensures
            final(self).token_popover_open == open,
    {
        self.token_popover_open = open;
    }
}

/// Where settings sync stands.
pub enum SyncStatus {
    Idle,
    Syncing,
    Synced,
    Error(String),
}

/// The label of settings sync.
pub open spec fn sync_line(status: SyncStatus) -> Seq<char> {
    match status {
        SyncStatus::Idle => "Not synced"@,
        SyncStatus::Syncing => "Syncing..."@,
        SyncStatus::Synced => "Synced"@,
        SyncStatus::Error(e) => "Error: "@ + e@,
    }
}

/// The sync label shown for `status`.
pub fn sync_label(status: &SyncStatus) -> (r: String)
    ensures
        r@ == sync_line(*status),
{
    match status {
        SyncStatus::Idle => "Not synced".to_owned(),
        SyncStatus::Syncing => "Syncing...".to_owned(),
        SyncStatus::Synced => "Synced".to_owned(),
        SyncStatus::Error(e) => concat2("Error: ", e.as_str()),
    }
}

/// The tone a sync label is shown in, read from the label itself.
pub fn sync_label_tone(label: &str) -> (r: Tone)
    ensures
        r == if label@ == "Synced"@ {
            Tone::Success
        } else if label@ == "Syncing..."@ {
            Tone::Warning
        } else if has_prefix(label@, "Error"@) {
            Tone::Danger
        } else {
            Tone::Muted
        },
{
    if crate::text::str_eq(label, "Synced") {
        Tone::Success
    } else if crate::text::str_eq(label, "Syncing...") {
        Tone::Warning
    } else if text_starts_with(label, "Error") {
        Tone::Danger
    } else {
        Tone::Muted
    }
}

/// The sync button: its label, and whether it is disabled (a sync runs).
pub fn sync_button(status: &SyncStatus) -> (r: (&'static str, bool))
    ensures
        r.1 == (*status is Syncing),
        r.0@ == if *status is Syncing { "Syncing..."@ } else { "Sync Now"@ },
{
    match status {
        SyncStatus::Syncing => ("Syncing...", true),
        _ => ("Sync Now", false),
    }
}

/// The upper-case form of `c` as `char::to_uppercase` gives it (one or
/// more characters).
pub uninterp spec fn uppercase_of(c: char) -> Seq<char>;

/// `char::to_uppercase` collected into a string: the Unicode upper-case
/// mapping of `c`, named, not spelled out.
#[verifier::external_body]
fn char_to_upper(c: char) -> (r: String)
    ensures
        r@ == uppercase_of(c),
{
    c.to_uppercase().to_string()
}

/// The avatar initials of a signed-in user: the first character of the
/// email in upper case, or `?`.
pub fn initials(email: &str) -> (r: String)
    ensures
        email@.len() > 0 ==> r@ == uppercase_of(email@[0]),
        email@.len() == 0 ==> r@ == "?"@,
{
    let v = chars_of(email);
    if v.len() == 0 {
        "?".to_owned()
    } else {
        char_to_upper(v[0])
    }
}

/// The font size presets of the appearance settings.
#[derive(Clone, Copy, PartialEq, Eq, Debug, Structural)]
pub enum FontSizePreset {
    Small,
    Medium,
    Large,
}

impl FontSizePreset {
    /// The name the dropdown shows.
    pub fn title(&self) -> (r: &'static str)
        ensures
            r@ == match self {
                FontSizePreset::Small => "Small"@,
                FontSizePreset::Medium => "Medium"@,
                FontSizePreset::Large => "Large"@,
            },
    {
        match self {
            FontSizePreset::Small => "Small",
            FontSizePreset::Medium => "Medium",
            FontSizePreset::Large => "Large",
        }
    }

    /// The value the dropdown reports: the preset itself.
    pub fn value(&self) -> (r: FontSizePreset)
        ensures
            r == *self,
    {
        *self
    }
}

/// The presets in the order the dropdown lists them.
pub fn font_size_presets() -> (r: Vec<FontSizePreset>)
    ensures
        r@ == seq![FontSizePreset::Small, FontSizePreset::Medium, FontSizePreset::Large],
{
    vec![FontSizePreset::Small, FontSizePreset::Medium, FontSizePreset::Large]
}

/// The row of `preset` in the dropdown.
pub fn preset_row(preset: FontSizePreset) -> (r: usize)
    ensures
        r < 3,
        font_size_presets_spec()[r as int] == preset,
{
    match preset {
        FontSizePreset::Small => 0,
        FontSizePreset::Medium => 1,
        FontSizePreset::Large => 2,
    }
}

/// The presets in order.
pub open spec fn font_size_presets_spec() -> Seq<FontSizePreset> {
    seq![FontSizePreset::Small, FontSizePreset::Medium, FontSizePreset::Large]
}

} // verus!
