//! The panel of skills, extensions and prompts the agent runtime has loaded,
//! and the window that saves a new prompt.

use vstd::prelude::*;
use crate::chat::{lowercase_of, to_lowercase};
use crate::json::{JsonValue, str_member};
use crate::paths::{file_name_of, path_file_name};
use crate::text::{prompt_file_stem, push_str, sanitize_prompt_filename, string_of, trim_by, trim_whitespace, whitespace_pred};

verus! {

/// One entry of a resource list: its name, description and location.
pub struct Resource {
    pub name: String,
    pub description: Option<String>,
    pub path: Option<String>,
}

/// What the panel shows and whether it has asked the runtime yet.
pub struct SkillsPanel {
    pub skills: Vec<Resource>,
    pub extensions: Vec<Resource>,
    pub prompts: Vec<Resource>,
    pub loading: bool,
    pub loaded: bool,
    pub error: Option<String>,
    /// The sections of the accordion that are open.
    pub open_ixs: Vec<usize>,
}

impl SkillsPanel {
    /// Nothing loaded yet; all three sections open.
    pub fn new() -> (r: Self)
        ensures
            r.skills@.len() == 0,
            r.extensions@.len() == 0,
            r.prompts@.len() == 0,
            !r.loading,
            !r.loaded,
            r.error is None,
            r.open_ixs@ == seq![0usize, 1usize, 2usize],
    {
        SkillsPanel {
            skills: Vec::new(),
            extensions: Vec::new(),
            prompts: Vec::new(),
            loading: false,
            loaded: false,
            error: None,
            open_ixs: vec![0, 1, 2],
        }
    }

    /// The accordion's open sections change.
    pub fn toggle_accordion(&mut self, open_ixs: Vec<usize>)
        ensures
            final(self).open_ixs == open_ixs,
            final(self).loading == old(self).loading,
            final(self).loaded == old(self).loaded,
    {
        self.open_ixs = open_ixs;
    }

    /// The panel is shown: it asks the runtime for its resources once.
    /// Returns whether a load must start; without a runtime the panel ends
    /// with an error instead.
    pub fn load_if_needed(&mut self, runtime_available: bool) -> (start: bool)
        ensures
            old(self).loaded || old(self).loading ==> !start && final(self).loading == old(self).loading
                && final(self).loaded == old(self).loaded && final(self).error == old(self).error,
            !old(self).loaded && !old(self).loading && !runtime_available ==> !start && final(self).loaded
                && !final(self).loading && (final(self).error matches Some(e) && e@ == "SDK bridge is not connected."@),
            !old(self).loaded && !old(self).loading && runtime_available ==> start && final(self).loading
                && !final(self).loaded && final(self).error == old(self).error,
    {
        if self.loaded || self.loading {
            return false;
        }
        if !runtime_available {
            self.loaded = true;
            self.loading = false;
            self.error = Some("SDK bridge is not connected.".to_owned());
            return false;
        }
        self.loading = true;
        true
    }

    /// The load finished: the lists are replaced, or the error kept.
    pub fn finish_load(&mut self, result: Result<(Vec<Resource>, Vec<Resource>, Vec<Resource>), String>)
        ensures
            !final(self).loading,
            final(self).loaded,
            match result {
                Ok((s, x, p)) => final(self).skills == s && final(self).extensions == x
                    && final(self).prompts == p && final(self).error == old(self).error,
                Err(e) => final(self).error == Some(e) && final(self).skills == old(self).skills
                    && final(self).extensions == old(self).extensions && final(self).prompts == old(self).prompts,
            },
    {
        self.loading = false;
        self.loaded = true;
        match result {
            Ok((s, x, p)) => {
                self.skills = s;
                self.extensions = x;
                self.prompts = p;
            },
            Err(e) => {
                self.error = Some(e);
            },
        }
    }
}

/// The file a new prompt is saved in, with its title trimmed for the
/// notification; or why it cannot be saved: both title and content must
/// hold more than whitespace, and the agent bridge, which reloads the
/// prompts afterwards, must be connected.
pub open spec fn prompt_save_plan(title: Seq<char>, body: Seq<char>, bridge_connected: bool) -> Result<(Seq<char>, Seq<char>), Seq<char>> {
    if trim_by(title, whitespace_pred()).len() == 0 {
        Err("Prompt title is required."@)
    } else if trim_by(body, whitespace_pred()).len() == 0 {
        Err("Prompt content is required."@)
    } else if !bridge_connected {
        Err("SDK bridge is not connected."@)
    } else {
        Ok((prompt_file_stem(title) + ".md"@, trim_by(title, whitespace_pred())))
    }
}

/// Checks a new prompt and names its file; nothing is to be written when
/// this refuses.
pub fn plan_prompt_save(title: &str, body: &str, bridge_connected: bool) -> (r: Result<(String, String), String>)
    ensures
        match r {
            Ok((file, shown)) => prompt_save_plan(title@, body@, bridge_connected)
                == Ok::<(Seq<char>, Seq<char>), Seq<char>>((file@, shown@)),
            Err(e) => prompt_save_plan(title@, body@, bridge_connected) == Err::<(Seq<char>, Seq<char>), Seq<char>>(e@),
        },
{
    let shown = trim_whitespace(title);
    if shown.as_str().is_empty() {
        return Err("Prompt title is required.".to_owned());
    }
    let body_trimmed = trim_whitespace(body);
    if body_trimmed.as_str().is_empty() {
        return Err("Prompt content is required.".to_owned());
    }
    if !bridge_connected {
        return Err("SDK bridge is not connected.".to_owned());
    }
    let stem = sanitize_prompt_filename(title);
    let mut out: Vec<char> = Vec::new();
    push_str(&mut out, stem.as_str());
    push_str(&mut out, ".md");
    Ok((string_of(out.as_slice()), shown))
}

/// The error when a prompt file of that name exists: the name is the file
/// name without its `.md`.
pub fn prompt_exists_message(stem: &str) -> (r: String)
    ensures
        r@ == "A prompt named '"@ + stem@ + "' already exists."@,
{
    let mut out: Vec<char> = Vec::new();
    push_str(&mut out, "A prompt named '");
    push_str(&mut out, stem);
    push_str(&mut out, "' already exists.");
    string_of(out.as_slice())
}

/// The notification after a prompt was saved.
pub fn prompt_saved_message(title: &str) -> (r: String)
    ensures
        r@ == "Prompt '"@ + title@ + "' saved."@,
{
    let mut out: Vec<char> = Vec::new();
    push_str(&mut out, "Prompt '");
    push_str(&mut out, title);
    push_str(&mut out, "' saved.");
    string_of(out.as_slice())
}

/// The entry of a skill or prompt: its name and description, and the file
/// it was loaded from (`filePath` in its raw record, when a string).
pub fn resource_from_entry(name: String, description: Option<String>, raw: &JsonValue) -> (r: Resource)
    ensures
        r.name == name,
        r.description == description,
        match r.path {
            Some(p) => crate::json::json_str_member(*raw, "filePath"@) == Some(p@),
            None => crate::json::json_str_member(*raw, "filePath"@) is None,
        },
{
    Resource { name, description, path: str_member(raw, "filePath") }
}

/// The entry of an extension: shown under the last component of its name
/// (the name itself when it has none), described by its full name, and
/// located by `resolvedPath`, else `path`, of its raw record.
pub fn resource_from_extension(name: String, raw: &JsonValue) -> (r: Resource)
    ensures
        r.name@ == match path_file_name(name@) { Some(b) => b, None => name@ },
        r.description == Some(name),
        match r.path {
            Some(p) => crate::json::json_str_member(*raw, "resolvedPath"@) == Some(p@)
                || (crate::json::json_str_member(*raw, "resolvedPath"@) is None
                    && crate::json::json_str_member(*raw, "path"@) == Some(p@)),
            None => crate::json::json_str_member(*raw, "resolvedPath"@) is None
                && crate::json::json_str_member(*raw, "path"@) is None,
        },
{
    let shown = match file_name_of(name.as_str()) {
        Some(b) => b,
        None => name.clone(),
    };
    let path = match str_member(raw, "resolvedPath") {
        Some(p) => Some(p),
        None => str_member(raw, "path"),
    };
    Resource { name: shown, description: Some(name), path }
}

/// Whether a card shows its description: only a non-empty one.
pub fn shows_description(description: &Option<String>) -> (r: bool)
    ensures
        r == (*description matches Some(d) && d@.len() > 0),
{
    match description {
        Some(d) => !d.as_str().is_empty(),
        None => false,
    }
}

/// The notice of an empty list: `No <title in lower case> loaded.`
pub fn empty_list_text(title: &str) -> (r: String)
    ensures
        r@ == "No "@ + lowercase_of(title@) + " loaded."@,
{
    let lower = to_lowercase(title);
    let mut out: Vec<char> = Vec::new();
    push_str(&mut out, "No ");
    push_str(&mut out, lower.as_str());
    push_str(&mut out, " loaded.");
    string_of(out.as_slice())
}

/// What the panel's body shows.
#[derive(Debug)]
pub enum PanelBody {
    Loading,
    Failed(String),
    Lists,
}

impl SkillsPanel {
    /// The body: the loader while loading, then the error, else the lists.
    pub fn body(&self) -> (r: PanelBody)
        ensures
            self.loading ==> r is Loading,
            !self.loading && self.error is Some ==> (r matches PanelBody::Failed(e) && Some(e) == self.error),
            !self.loading && self.error is None ==> r is Lists,
    {
        if self.loading {
            PanelBody::Loading
        } else {
            match &self.error {
                Some(e) => PanelBody::Failed(e.clone()),
                None => PanelBody::Lists,
            }
        }
    }
}

} // verus!
