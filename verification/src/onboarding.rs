//! The first-run dialog: set up a provider with an API key, or import the
//! settings of an existing Pi agent.

use vstd::prelude::*;
use crate::text::{decimal, push_decimal, push_str, string_of};

verus! {

/// The onboarding dialog's state, apart from its input widgets.
pub struct OnboardingPanel {
    /// The names of the agent's JSON settings files found on disk.
    pub files: Vec<String>,
    pub provider_count: usize,
    pub loading_providers: bool,
    pub saving: bool,
    pub pi_dir_exists: bool,
    /// 0: set up a provider; 1: import.
    pub active_tab: usize,
}

/// The tab the dialog opens on: import when there is an agent directory
/// with settings files in it, set-up otherwise.
pub open spec fn opening_tab(pi_dir_exists: bool, file_count: nat) -> usize {
    if pi_dir_exists && file_count > 0 { 1 } else { 0 }
}

impl OnboardingPanel {
    /// The dialog opens on what was found on disk.
    pub fn new(files: Vec<String>, pi_dir_exists: bool) -> (r: Self)
        ensures
            r.files == files,
            r.pi_dir_exists == pi_dir_exists,
            r.active_tab == opening_tab(pi_dir_exists, files@.len()),
            r.provider_count == 0,
            !r.loading_providers,
            !r.saving,
    {
        let active_tab: usize = if pi_dir_exists && files.len() > 0 { 1 } else { 0 };
        OnboardingPanel {
            files,
            provider_count: 0,
            loading_providers: false,
            saving: false,
            pi_dir_exists,
            active_tab,
        }
    }

    /// The dialog is opened again: what is on disk is read anew, saving
    /// stops, and the opening tab is chosen again. Returns whether the
    /// providers must be loaded (none known and none loading).
    pub fn reset(&mut self, files: Vec<String>, pi_dir_exists: bool) -> (load: bool)
        ensures
            final(self).files == files,
            final(self).pi_dir_exists == pi_dir_exists,
            !final(self).saving,
            final(self).active_tab == opening_tab(pi_dir_exists, files@.len()),
            final(self).provider_count == old(self).provider_count,
            final(self).loading_providers == old(self).loading_providers,
            load == (old(self).provider_count == 0 && !old(self).loading_providers),
    {
        self.active_tab = if pi_dir_exists && files.len() > 0 { 1 } else { 0 };
        self.files = files;
        self.pi_dir_exists = pi_dir_exists;
        self.saving = false;
        self.provider_count == 0 && !self.loading_providers
    }

    /// Whether settings files were found.
    pub fn has_files(&self) -> (r: bool)
        ensures
            r == (self.files@.len() > 0),
    {
        self.files.len() > 0
    }

    /// Switches tab.
    pub fn set_active_tab(&mut self, ix: usize)
        ensures
            final(self).active_tab == ix,
            final(self).files == old(self).files,
            final(self).saving == old(self).saving,
    {
        self.active_tab = ix;
    }

    /// Whether the set-up can be saved: not while saving, with a provider
    /// chosen and a key typed.
    pub fn can_save(&self, provider_selected: bool, api_key: &str) -> (r: bool)
        ensures
            r == (!self.saving && provider_selected && api_key@.len() > 0),
    {
        !self.saving && provider_selected && !api_key.is_empty()
    }

    /// The placeholder of the provider dropdown.
    pub fn provider_placeholder(&self, bridge_available: bool) -> (r: &'static str)
        ensures
            r@ == if !bridge_available {
                "Bridge unavailable"@
            } else if self.loading_providers {
                "Loading providers..."@
            } else if self.provider_count == 0 {
                "No providers"@
            } else {
                "Select provider"@
            },
    {
        if !bridge_available {
            "Bridge unavailable"
        } else if self.loading_providers {
            "Loading providers..."
        } else if self.provider_count == 0 {
            "No providers"
        } else {
            "Select provider"
        }
    }

    /// Whether the provider dropdown is disabled.
    pub fn provider_disabled(&self, bridge_available: bool) -> (r: bool)
        ensures
            r == (!bridge_available || self.loading_providers || self.provider_count == 0),
    {
        !bridge_available || self.loading_providers || self.provider_count == 0
    }

    /// The label of the save button.
    pub fn save_label(&self) -> (r: &'static str)
        ensures
            r@ == if self.saving { "Saving..."@ } else { "Save"@ },
    {
        if self.saving { "Saving..." } else { "Save" }
    }

    /// The set-up is submitted: it is saved only with a provider and a
    /// non-empty key. Returns whether the save starts.
    pub fn begin_save(&mut self, provider_selected: bool, api_key: &str) -> (start: bool)
        ensures
            start == (provider_selected && api_key@.len() > 0),
            final(self).saving == (start || old(self).saving),
            final(self).files == old(self).files,
            final(self).active_tab == old(self).active_tab,
    {
        if !provider_selected || api_key.is_empty() {
            return false;
        }
        self.saving = true;
        true
    }

    /// The save finished.
    pub fn finish_save(&mut self)
        ensures
            !final(self).saving,
            final(self).files == old(self).files,
            final(self).active_tab == old(self).active_tab,
    {
        self.saving = false;
    }

    /// The providers are being loaded, or have been.
    pub fn set_providers_loading(&mut self, loading: bool, provider_count: usize)
        ensures
            final(self).loading_providers == loading,
            final(self).provider_count == provider_count,
            final(self).saving == old(self).saving,
            final(self).files == old(self).files,
    {
        self.loading_providers = loading;
        self.provider_count = provider_count;
    }
}

/// The bulleted list of settings files, one per line.
pub open spec fn file_list(names: Seq<String>) -> Seq<char>
    decreases names.len(),
{
    if names.len() == 0 {
        Seq::empty()
    } else if names.len() == 1 {
        "  • "@ + names[0]@
    } else {
        file_list(names.drop_last()) + "\n"@ + "  • "@ + names.last()@
    }
}

/// The text of the import tab when files were found.
pub open spec fn import_summary_text(names: Seq<String>) -> Seq<char> {
    "Detected settings from ~/.pi/agent/.\n\nFound "@ + decimal(names.len()) + " JSON file(s):\n"@ + file_list(names)
}

/// What the import tab says about the files found.
pub fn import_summary(names: &Vec<String>) -> (r: String)
    ensures
        r@ == import_summary_text(names@),
{
    let mut out: Vec<char> = Vec::new();
    push_str(&mut out, "Detected settings from ~/.pi/agent/.\n\nFound ");
    push_decimal(&mut out, names.len() as u128);
    push_str(&mut out, " JSON file(s):\n");
    let ghost start = out@;
    let mut k: usize = 0;
    assert(names@.take(0) =~= Seq::<String>::empty());
    while k < names.len()
        invariant
            k <= names.len(),
            out@ == start + file_list(names@.take(k as int)),
        decreases names.len() - k,
    {
        let ghost before = out@;
        if k > 0 {
            push_str(&mut out, "\n");
        }
        push_str(&mut out, "  • ");
        push_str(&mut out, names[k].as_str());
        proof {
            let t = names@.take(k + 1);
            assert(t.drop_last() =~= names@.take(k as int));
            assert(t.last() == names@[k as int]);
            if k == 0 {
                assert(out@ =~= start + ("  • "@ + t[0]@));
            } else {
                assert(out@ =~= start + (file_list(t.drop_last()) + "\n"@ + "  • "@ + t.last()@));
            }
        }
        k = k + 1;
    }
    assert(names@.take(names@.len() as int) =~= names@);
    string_of(out.as_slice())
}

/// The notification after an import of `count` files.
pub fn import_done_message(count: usize) -> (r: String)
    ensures
        r@ == "Imported "@ + decimal(count as nat) + " file(s) successfully"@,
{
    let mut out: Vec<char> = Vec::new();
    push_str(&mut out, "Imported ");
    push_decimal(&mut out, count as u128);
    push_str(&mut out, " file(s) successfully");
    string_of(out.as_slice())
}

} // verus!
