//! The frame of a chat window: its title bar with the rename popover, the
//! always-on-top pin and the HTML export.

use vstd::prelude::*;
use crate::text::{chars_of, push_str, slice_chars, string_of};

verus! {

/// The name of the HTML export of a session file: the file name with its
/// last extension replaced by `.html`, or `session.html` when it has none.
pub open spec fn export_name(session_file: Seq<char>) -> Seq<char> {
    if exists|i: int| 0 <= i < session_file.len() && session_file[i] == '.' {
        let i = choose|i: int| 0 <= i < session_file.len() && session_file[i] == '.'
            && forall|j: int| i < j < session_file.len() ==> session_file[j] != '.';
        session_file.subrange(0, i) + ".html"@
    } else {
        "session.html"@
    }
}

/// The file the session is exported to, inside the folder the user picks.
pub fn export_html_file_name(session_file: &str) -> (r: String)
    ensures
        r@ == export_name(session_file@),
{
    let v = chars_of(session_file);
    let mut k: usize = v.len();
    while k > 0
        invariant
            k <= v.len(),
            v@ == session_file@,
            forall|j: int| k <= j < v.len() ==> v@[j] != '.',
        decreases k,
    {
        if v[k - 1] == '.' {
            let i = k - 1;
            proof {
                assert(0 <= i < session_file@.len() && session_file@[i as int] == '.');
                let c = choose|c: int| 0 <= c < session_file@.len() && session_file@[c] == '.'
                    && forall|j: int| c < j < session_file@.len() ==> session_file@[j] != '.';
                assert(c == i as int) by {
                    if c < i { assert(session_file@[i as int] != '.'); }
                    if c > i { assert(session_file@[c] != '.'); }
                }
            }
            let stem = slice_chars(&v, 0, i);
            let mut out = stem;
            push_str(&mut out, ".html");
            return string_of(out.as_slice());
        }
        k = k - 1;
    }
    "session.html".to_owned()
}

/// The title bar's own state.
pub struct ChatApp {
    /// Whether the window floats above the others.
    pub pinned: bool,
    pub title_popover_open: bool,
}

impl ChatApp {
    pub fn new() -> (r: Self)
        ensures
            !r.pinned,
            !r.title_popover_open,
    {
        ChatApp { pinned: false, title_popover_open: false }
    }

    /// The pin button flips the window between floating and normal;
    /// returns the new setting.
    pub fn toggle_pin(&mut self) -> (pinned: bool)
        ensures
            pinned == !old(self).pinned,
            final(self).pinned == pinned,
            final(self).title_popover_open == old(self).title_popover_open,
    {
        self.pinned = !self.pinned;
        self.pinned
    }

    /// The icon of the pin button.
    pub fn pin_icon(&self) -> (r: &'static str)
        ensures
            r@ == if self.pinned { "icons/unpin.svg"@ } else { "icons/pin.svg"@ },
    {
        if self.pinned { "icons/unpin.svg" } else { "icons/pin.svg" }
    }

    /// The rename popover opens or closes; on opening, its field is filled
    /// with the current title (`true`).
    pub fn set_title_popover(&mut self, open: bool) -> (prefill: bool)
        ensures
            prefill == open,
            final(self).title_popover_open == open,
            final(self).pinned == old(self).pinned,
    {
        self.title_popover_open = open;
        open
    }

    /// The rename is saved or cancelled: the popover closes.
    pub fn close_title_popover(&mut self)
        ensures
            !final(self).title_popover_open,
            final(self).pinned == old(self).pinned,
    {
        self.title_popover_open = false;
    }
}

} // verus!
