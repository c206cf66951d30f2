//! The agent settings window: which thinking levels a model offers, which
//! models and providers the dropdowns list, and how the defaults stay
//! consistent with one another when one of them changes.

use vstd::prelude::*;
use crate::installers::pair_views;
use crate::text::{str_eq, chars_of, slice_chars, string_of};

verus! {

/// A model the agent can use; its id is `provider:model`. A model that
/// maps thinking levels lists each level with the value it stands for, or
/// none for a level it does not support; the list comes from a JSON object,
/// so no level occurs in it twice (`level_map_keys_distinct`), and a
/// lookup finds the first entry of a level.
pub struct ModelInfo {
    pub id: String,
    pub name: String,
    pub thinking_level_map: Option<Vec<(String, Option<String>)>>,
}

/// A provider of models, and whether a key is configured for it.
pub struct ProviderInfo {
    pub id: String,
    pub name: String,
    pub configured: bool,
}

/// The thinking levels, with the labels the dropdown shows.
pub open spec fn thinking_level_table() -> Seq<(Seq<char>, Seq<char>)> {
    seq![
        ("off"@, "Off"@),
        ("minimal"@, "Minimal"@),
        ("low"@, "Low"@),
        ("medium"@, "Medium"@),
        ("high"@, "High"@),
        ("xhigh"@, "Extra High"@),
    ]
}

/// The value the map gives `level`, searching from `k`: `Some(v)` when the
/// level is listed.
pub open spec fn map_entry(map: Seq<(String, Option<String>)>, level: Seq<char>, k: int) -> Option<Option<String>>
    decreases map.len() - k,
{
    if k < 0 || k >= map.len() {
        None
    } else if map[k].0@ == level {
        Some(map[k].1)
    } else {
        map_entry(map, level, k + 1)
    }
}

/// Whether no level is listed twice in a thinking-level map, as in the
/// JSON object the map is read from.
pub open spec fn level_map_keys_distinct(map: Seq<(String, Option<String>)>) -> bool {
    forall|i: int, j: int| 0 <= i < j < map.len() ==> #[trigger] map[i].0@ != #[trigger] map[j].0@
}

proof fn lemma_map_entry_finds(map: Seq<(String, Option<String>)>, j: int, k: int)
    requires
        level_map_keys_distinct(map),
        0 <= k <= j < map.len(),
    ensures
        map_entry(map, map[j].0@, k) == Some(map[j].1),
    decreases j - k,
{
    if k < j {
        assert(map[k].0@ != map[j].0@);
        lemma_map_entry_finds(map, j, k + 1);
    }
}

/// A thinking-level map that lists no level twice reads as a map: the
/// value found for a listed level is the one listed with it.
pub proof fn lemma_level_map_reads_as_map(map: Seq<(String, Option<String>)>, j: int)
    requires
        level_map_keys_distinct(map),
        0 <= j < map.len(),
    ensures
        map_entry(map, map[j].0@, 0) == Some(map[j].1),
{
    lemma_map_entry_finds(map, j, 0);
}

/// Whether a model with this map offers `level`: every level is offered
/// without a map; with one, all but those it maps to nothing.
pub open spec fn level_offered(map: Option<Seq<(String, Option<String>)>>, level: Seq<char>) -> bool {
    match map {
        None => true,
        Some(m) => !(map_entry(m, level, 0) == Some(None::<String>)),
    }
}

/// The rows of `table` whose level is offered, in order.
pub open spec fn offered_levels(table: Seq<(Seq<char>, Seq<char>)>, map: Option<Seq<(String, Option<String>)>>) -> Seq<(Seq<char>, Seq<char>)>
    decreases table.len(),
{
    if table.len() == 0 {
        Seq::empty()
    } else {
        let r = offered_levels(table.drop_last(), map);
        if level_offered(map, table.last().0) { r.push(table.last()) } else { r }
    }
}

/// The first model whose id is `id`, searching from `k`.
pub open spec fn model_index(models: Seq<ModelInfo>, id: Seq<char>, k: int) -> Option<int>
    decreases models.len() - k,
{
    if k < 0 || k >= models.len() {
        None
    } else if models[k].id@ == id {
        Some(k)
    } else {
        model_index(models, id, k + 1)
    }
}

/// The thinking-level map of the model `model_id`, when that model exists
/// and has one.
pub open spec fn level_map_of(models: Seq<ModelInfo>, model_id: Option<Seq<char>>) -> Option<Seq<(String, Option<String>)>> {
    match model_id {
        None => None,
        Some(id) => match model_index(models, id, 0) {
            Some(i) => match models[i].thinking_level_map {
                Some(m) => Some(m@),
                None => None,
            },
            None => None,
        },
    }
}

/// The thinking levels the dropdown offers for the model `model_id`: all of
/// them when no model is chosen or it does not map levels.
pub open spec fn levels_for_model(models: Seq<ModelInfo>, model_id: Option<Seq<char>>) -> Seq<(Seq<char>, Seq<char>)> {
    offered_levels(thinking_level_table(), level_map_of(models, model_id))
}

fn entry_of<'a>(map: &'a Vec<(String, Option<String>)>, level: &str) -> (r: Option<&'a Option<String>>)
    ensures
        match r {
            Some(v) => map_entry(map@, level@, 0) == Some(*v),
            None => map_entry(map@, level@, 0) is None,
        },
{
    let mut k: usize = 0;
    while k < map.len()
        invariant
            k <= map.len(),
            map_entry(map@, level@, 0) == map_entry(map@, level@, k as int),
        decreases map.len() - k,
    {
        if str_eq(map[k].0.as_str(), level) {
            return Some(&map[k].1);
        }
        k = k + 1;
    }
    None
}

fn find_model(models: &Vec<ModelInfo>, id: &str) -> (r: Option<usize>)
    ensures
        match r {
            Some(i) => model_index(models@, id@, 0) == Some(i as int) && i < models.len(),
            None => model_index(models@, id@, 0) is None,
        },
{
    let mut k: usize = 0;
    while k < models.len()
        invariant
            k <= models.len(),
            model_index(models@, id@, 0) == model_index(models@, id@, k as int),
        decreases models.len() - k,
    {
        if str_eq(models[k].id.as_str(), id) {
            return Some(k);
        }
        k = k + 1;
    }
    None
}

/// The levels (id, label) the thinking dropdown offers for `model_id`.
pub fn thinking_level_items_for_model(models: &Vec<ModelInfo>, model_id: Option<&str>) -> (r: Vec<(String, String)>)
    ensures
        r@.map_values(|p: (String, String)| (p.0@, p.1@)) == levels_for_model(
            models@, match model_id { Some(m) => Some(m@), None => None }),
{
    let ghost mid = match model_id { Some(m) => Some(m@), None => None };
    let map: Option<&Vec<(String, Option<String>)>> = match model_id {
        Some(id) => match find_model(models, id) {
            Some(i) => match &models[i].thinking_level_map {
                Some(m) => Some(m),
                None => None,
            },
            None => None,
        },
        None => None,
    };
    let ghost mapv = level_map_of(models@, mid);
    assert(mapv == match map { Some(m) => Some(m@), None => None::<Seq<(String, Option<String>)>> });
    let table: Vec<(&str, &str)> = vec![
        ("off", "Off"),
        ("minimal", "Minimal"),
        ("low", "Low"),
        ("medium", "Medium"),
        ("high", "High"),
        ("xhigh", "Extra High"),
    ];
    assert(pair_views(table@) =~= thinking_level_table());
    let mut out: Vec<(String, String)> = Vec::new();
    let mut k: usize = 0;
    assert(pair_views(table@).take(0) =~= Seq::<(Seq<char>, Seq<char>)>::empty());
    while k < table.len()
        invariant
            k <= table.len(),
            pair_views(table@) == thinking_level_table(),
            mapv == match map { Some(m) => Some(m@), None => None::<Seq<(String, Option<String>)>> },
            out@.map_values(|p: (String, String)| (p.0@, p.1@)) == offered_levels(pair_views(table@).take(k as int), mapv),
        decreases table.len() - k,
    {
        let (id, label) = table[k];
        let ghost tk = pair_views(table@).take(k + 1);
        assert(tk.drop_last() =~= pair_views(table@).take(k as int));
        assert(tk.last() == (id@, label@));
        let offered = match map {
            Some(m) => match entry_of(m, id) {
                Some(v) => v.is_some(),
                None => true,
            },
            None => true,
        };
        if offered {
            let ghost before = out@;
            out.push((id.to_owned(), label.to_owned()));
            assert(out@.map_values(|p: (String, String)| (p.0@, p.1@)) =~= before.map_values(|p: (String, String)| (p.0@, p.1@)).push((id@, label@)));
        }
        k = k + 1;
    }
    assert(pair_views(table@).take(table@.len() as int) =~= pair_views(table@));
    out
}

/// A model id split at its first `:` into provider and model; none without
/// a `:`.
pub open spec fn split_model_id(id: Seq<char>) -> Option<(Seq<char>, Seq<char>)> {
    if exists|i: int| 0 <= i < id.len() && id[i] == ':' {
        let i = choose|i: int| 0 <= i < id.len() && id[i] == ':' && forall|j: int| 0 <= j < i ==> id[j] != ':';
        Some((id.subrange(0, i), id.subrange(i + 1, id.len() as int)))
    } else {
        None
    }
}

/// Splits a `provider:model` id.
pub fn parse_model_id(id: &str) -> (r: Option<(String, String)>)
    ensures
        match r {
            Some((p, m)) => split_model_id(id@) == Some((p@, m@)),
            None => split_model_id(id@) is None,
        },
{
    let v = chars_of(id);
    let mut k: usize = 0;
    while k < v.len()
        invariant
            k <= v.len(),
            v@ == id@,
            forall|j: int| 0 <= j < k ==> v@[j] != ':',
        decreases v.len() - k,
    {
        if v[k] == ':' {
            proof {
                assert(0 <= k < id@.len() && id@[k as int] == ':');
                let i = choose|i: int| 0 <= i < id@.len() && id@[i] == ':' && forall|j: int| 0 <= j < i ==> id@[j] != ':';
                assert(i == k as int) by {
                    if i < k { assert(id@[i] != ':'); }
                    if i > k { assert(id@[k as int] != ':'); }
                }
            }
            let p = slice_chars(&v, 0, k);
            let m = slice_chars(&v, k + 1, v.len());
            return Some((string_of(p.as_slice()), string_of(m.as_slice())));
        }
        k = k + 1;
    }
    None
}

/// The id the agent stores for a default model: the part after the
/// provider, or the whole id when it names no provider.
pub fn stored_model_id(full_id: &str) -> (r: String)
    ensures
        match split_model_id(full_id@) {
            Some((_, m)) => r@ == m,
            None => r@ == full_id@,
        },
{
    match parse_model_id(full_id) {
        Some((_, m)) => m,
        None => full_id.to_owned(),
    }
}

/// Whether model `id` belongs to `provider` (every model does when none
/// is chosen).
pub open spec fn model_of_provider(provider: Option<Seq<char>>, id: Seq<char>) -> bool {
    match provider {
        None => true,
        Some(p) => match split_model_id(id) {
            Some((q, _)) => q == p,
            None => false,
        },
    }
}

/// The models of `provider`, as (id, name), in order.
pub open spec fn models_of(models: Seq<ModelInfo>, provider: Option<Seq<char>>) -> Seq<(Seq<char>, Seq<char>)>
    decreases models.len(),
{
    if models.len() == 0 {
        Seq::empty()
    } else {
        let r = models_of(models.drop_last(), provider);
        let m = models.last();
        if model_of_provider(provider, m.id@) { r.push((m.id@, m.name@)) } else { r }
    }
}

/// The models the dropdown lists: those of the chosen provider, or all of
/// them when the provider has none, so the list is never stuck empty.
pub open spec fn model_dropdown_items(models: Seq<ModelInfo>, provider: Option<Seq<char>>) -> Seq<(Seq<char>, Seq<char>)> {
    let f = models_of(models, provider);
    if provider is Some && f.len() == 0 { models_of(models, None) } else { f }
}

/// Whether some item has id `id`.
pub open spec fn lists_id(items: Seq<(Seq<char>, Seq<char>)>, id: Seq<char>) -> bool {
    exists|i: int| 0 <= i < items.len() && #[trigger] items[i].0 == id
}

/// What the model dropdown shows selected.
#[derive(Debug)]
pub enum ModelSelection {
    /// The default model, which the list holds.
    Keep(String),
    /// The first listed model, chosen because a provider is set and the
    /// default model is not among its models; it becomes the default.
    Auto(String),
    /// Nothing.
    Clear,
}

fn models_for(models: &Vec<ModelInfo>, provider: Option<&str>) -> (r: Vec<(String, String)>)
    ensures
        r@.map_values(|p: (String, String)| (p.0@, p.1@)) == models_of(models@, match provider { Some(p) => Some(p@), None => None }),
{
    let ghost pv = match provider { Some(p) => Some(p@), None => None };
    let mut out: Vec<(String, String)> = Vec::new();
    let mut k: usize = 0;
    assert(models@.take(0) =~= Seq::<ModelInfo>::empty());
    while k < models.len()
        invariant
            k <= models.len(),
            pv == match provider { Some(p) => Some(p@), None => None::<Seq<char>> },
            out@.map_values(|p: (String, String)| (p.0@, p.1@)) == models_of(models@.take(k as int), pv),
        decreases models.len() - k,
    {
        assert(models@.take(k + 1).drop_last() =~= models@.take(k as int));
        assert(models@.take(k + 1).last() == models@[k as int]);
        let keep = match provider {
            None => true,
            Some(p) => match parse_model_id(models[k].id.as_str()) {
                Some((q, _)) => str_eq(q.as_str(), p),
                None => false,
            },
        };
        if keep {
            let ghost before = out@;
            out.push((models[k].id.clone(), models[k].name.clone()));
            assert(out@.map_values(|p: (String, String)| (p.0@, p.1@)) =~= before.map_values(|p: (String, String)| (p.0@, p.1@)).push((models@[k as int].id@, models@[k as int].name@)));
        }
        k = k + 1;
    }
    assert(models@.take(models@.len() as int) =~= models@);
    out
}

fn lists(items: &Vec<(String, String)>, id: &str) -> (r: bool)
    ensures
        r == lists_id(items@.map_values(|p: (String, String)| (p.0@, p.1@)), id@),
{
    let ghost views = items@.map_values(|p: (String, String)| (p.0@, p.1@));
    let mut k: usize = 0;
    while k < items.len()
        invariant
            k <= items.len(),
            views == items@.map_values(|p: (String, String)| (p.0@, p.1@)),
            forall|j: int| 0 <= j < k ==> views[j].0 != id@,
        decreases items.len() - k,
    {
        if str_eq(items[k].0.as_str(), id) {
            assert(views[k as int].0 == id@);
            return true;
        }
        k = k + 1;
    }
    false
}

/// The model dropdown for the chosen provider and default model: the items
/// it lists and what it shows selected.
pub fn plan_model_dropdown(models: &Vec<ModelInfo>, provider: Option<&str>, selected: Option<&str>) -> (r: (Vec<(String, String)>, ModelSelection))
    ensures
        ({
            let items = model_dropdown_items(models@, match provider { Some(p) => Some(p@), None => None });
            let valid = match selected { Some(s) => lists_id(items, s@), None => false };
            &&& r.0@.map_values(|p: (String, String)| (p.0@, p.1@)) == items
            &&& valid ==> (r.1 matches ModelSelection::Keep(s) && Some(s@) == match selected { Some(x) => Some(x@), None => None::<Seq<char>> })
            &&& !valid && provider is Some && items.len() > 0 ==> (r.1 matches ModelSelection::Auto(a) && a@ == items[0].0)
            &&& !valid && !(provider is Some && items.len() > 0) ==> r.1 is Clear
        }),
{
    let mut items = models_for(models, provider);
    if provider.is_some() && items.len() == 0 {
        items = models_for(models, None);
    }
    let valid = match selected {
        Some(s) => lists(&items, s),
        None => false,
    };
    let selection = if valid {
        match selected {
            Some(s) => ModelSelection::Keep(s.to_owned()),
            None => ModelSelection::Clear,
        }
    } else if provider.is_some() && items.len() > 0 {
        ModelSelection::Auto(items[0].0.clone())
    } else {
        ModelSelection::Clear
    };
    (items, selection)
}

/// The providers the provider dropdown lists: those with a key, in order.
pub open spec fn configured_providers(providers: Seq<ProviderInfo>) -> Seq<(Seq<char>, Seq<char>)>
    decreases providers.len(),
{
    if providers.len() == 0 {
        Seq::empty()
    } else {
        let r = configured_providers(providers.drop_last());
        let p = providers.last();
        if p.configured { r.push((p.id@, p.name@)) } else { r }
    }
}

/// The (id, name) of the providers the dropdown lists.
pub fn provider_items(providers: &Vec<ProviderInfo>) -> (r: Vec<(String, String)>)
    ensures
        r@.map_values(|p: (String, String)| (p.0@, p.1@)) == configured_providers(providers@),
{
    let mut out: Vec<(String, String)> = Vec::new();
    let mut k: usize = 0;
    assert(providers@.take(0) =~= Seq::<ProviderInfo>::empty());
    while k < providers.len()
        invariant
            k <= providers.len(),
            out@.map_values(|p: (String, String)| (p.0@, p.1@)) == configured_providers(providers@.take(k as int)),
        decreases providers.len() - k,
    {
        assert(providers@.take(k + 1).drop_last() =~= providers@.take(k as int));
        assert(providers@.take(k + 1).last() == providers@[k as int]);
        if providers[k].configured {
            let ghost before = out@;
            out.push((providers[k].id.clone(), providers[k].name.clone()));
            assert(out@.map_values(|p: (String, String)| (p.0@, p.1@)) =~= before.map_values(|p: (String, String)| (p.0@, p.1@)).push((providers@[k as int].id@, providers@[k as int].name@)));
        }
        k = k + 1;
    }
    assert(providers@.take(providers@.len() as int) =~= providers@);
    out
}

/// The thinking level kept when the offered levels are `items`: the current
/// one when offered, else `off` when offered, else the first, else none.
pub open spec fn fallback_level(current: Option<Seq<char>>, items: Seq<(Seq<char>, Seq<char>)>) -> Option<Seq<char>> {
    match current {
        Some(c) if lists_id(items, c) => Some(c),
        _ => if lists_id(items, "off"@) {
            Some("off"@)
        } else if items.len() > 0 {
            Some(items[0].0)
        } else {
            None
        },
    }
}

/// The defaults the settings window edits, and its open tab.
pub struct PiSettings {
    pub compaction_enabled: Option<bool>,
    pub default_thinking_level: Option<String>,
    pub default_model: Option<String>,
    pub default_provider: Option<String>,
    pub active_tab_ix: usize,
}

pub open spec fn opt_view(o: Option<String>) -> Option<Seq<char>> {
    match o { Some(s) => Some(s@), None => None }
}

impl PiSettings {
    /// Nothing known yet; the first tab open.
    pub fn new() -> (r: Self)
        ensures
            r.compaction_enabled is None,
            r.default_thinking_level is None,
            r.default_model is None,
            r.default_provider is None,
            r.active_tab_ix == 0,
    {
        PiSettings {
            compaction_enabled: None,
            default_thinking_level: None,
            default_model: None,
            default_provider: None,
            active_tab_ix: 0,
        }
    }

    /// Switches tab.
    pub fn set_active_tab(&mut self, ix: usize)
        ensures
            final(self).active_tab_ix == ix,
            final(self).default_model == old(self).default_model,
            final(self).default_thinking_level == old(self).default_thinking_level,
            final(self).default_provider == old(self).default_provider,
            final(self).compaction_enabled == old(self).compaction_enabled,
    {
        self.active_tab_ix = ix;
    }

    /// Brings the thinking level in line with the levels the default model
    /// offers; returns the new level when it changed to a level, for it to
    /// be saved.
    pub fn refresh_thinking_level(&mut self, models: &Vec<ModelInfo>) -> (changed: Option<String>)
        ensures
            ({
                let items = levels_for_model(models@, opt_view(old(self).default_model));
                let level = fallback_level(opt_view(old(self).default_thinking_level), items);
                &&& opt_view(final(self).default_thinking_level) == level
                &&& match changed {
                    Some(c) => Some(c@) == level && level != opt_view(old(self).default_thinking_level),
                    None => level == opt_view(old(self).default_thinking_level) || level is None,
                }
            }),
            final(self).default_model == old(self).default_model,
            final(self).default_provider == old(self).default_provider,
            final(self).compaction_enabled == old(self).compaction_enabled,
            final(self).active_tab_ix == old(self).active_tab_ix,
    {
        let model_id: Option<&str> = match &self.default_model {
            Some(m) => Some(m.as_str()),
            None => None,
        };
        assert(match model_id { Some(m) => Some(m@), None => None::<Seq<char>> } == opt_view(self.default_model));
        let items = thinking_level_items_for_model(models, model_id);
        let ghost iv = items@.map_values(|p: (String, String)| (p.0@, p.1@));
        assert(iv == levels_for_model(models@, opt_view(self.default_model)));
        let current_ok = match &self.default_thinking_level {
            Some(c) => lists(&items, c.as_str()),
            None => false,
        };
        let new_level: Option<String> = if current_ok {
            match &self.default_thinking_level {
                Some(c) => Some(c.clone()),
                None => None,
            }
        } else if lists(&items, "off") {
            Some("off".to_owned())
        } else if items.len() > 0 {
            Some(items[0].0.clone())
        } else {
            None
        };
        proof {
            let level = fallback_level(opt_view(self.default_thinking_level), iv);
            assert(opt_view(new_level) == level);
        }
        let same = match (&new_level, &self.default_thinking_level) {
            (Some(a), Some(b)) => str_eq(a.as_str(), b.as_str()),
            (None, None) => true,
            _ => false,
        };
        assert(same == (opt_view(new_level) == opt_view(self.default_thinking_level)));
        if same {
            None
        } else {
            self.default_thinking_level = match &new_level {
                Some(l) => Some(l.clone()),
                None => None,
            };
            new_level
        }
    }

    /// The user picks a default model: it is kept, and the thinking level is
    /// brought in line with it; returns the level to save when it changed.
    pub fn set_default_model(&mut self, model_id: String, models: &Vec<ModelInfo>) -> (changed: Option<String>)
        ensures
            final(self).default_model == Some(model_id),
            ({
                let items = levels_for_model(models@, Some(model_id@));
                let level = fallback_level(opt_view(old(self).default_thinking_level), items);
                &&& opt_view(final(self).default_thinking_level) == level
                &&& match changed {
                    Some(c) => Some(c@) == level && level != opt_view(old(self).default_thinking_level),
                    None => level == opt_view(old(self).default_thinking_level) || level is None,
                }
            }),
            final(self).default_provider == old(self).default_provider,
            final(self).compaction_enabled == old(self).compaction_enabled,
    {
        self.default_model = Some(model_id);
        self.refresh_thinking_level(models)
    }

    /// The user picks a thinking level.
    pub fn set_default_thinking_level(&mut self, level: String)
        ensures
            final(self).default_thinking_level == Some(level),
            final(self).default_model == old(self).default_model,
            final(self).default_provider == old(self).default_provider,
            final(self).compaction_enabled == old(self).compaction_enabled,
    {
        self.default_thinking_level = Some(level);
    }

    /// The user turns compaction on or off.
    pub fn set_compaction_enabled(&mut self, enabled: bool)
        ensures
            final(self).compaction_enabled == Some(enabled),
            final(self).default_thinking_level == old(self).default_thinking_level,
            final(self).default_model == old(self).default_model,
            final(self).default_provider == old(self).default_provider,
    {
        self.compaction_enabled = Some(enabled);
    }

    /// Rebuilds the model dropdown for the default provider: when a
    /// provider is set and the default model is not among its models, the
    /// first listed model becomes the default (and the thinking level is
    /// brought in line with it). Returns the items, the selection, and the
    /// thinking level to save when it changed.
    pub fn update_model_dropdown(&mut self, models: &Vec<ModelInfo>) -> (r: (Vec<(String, String)>, ModelSelection, Option<String>))
        ensures
            final(self).default_provider == old(self).default_provider,
            final(self).compaction_enabled == old(self).compaction_enabled,
            ({
                let items = model_dropdown_items(models@, opt_view(old(self).default_provider));
                let valid = match old(self).default_model { Some(s) => lists_id(items, s@), None => false };
                let auto = !valid && old(self).default_provider is Some && items.len() > 0;
                &&& r.0@.map_values(|p: (String, String)| (p.0@, p.1@)) == items
                &&& valid ==> (r.1 matches ModelSelection::Keep(k) && Some(k@) == opt_view(old(self).default_model))
                &&& auto ==> (r.1 matches ModelSelection::Auto(a) && a@ == items[0].0)
                    && (final(self).default_model matches Some(m) && m@ == items[0].0)
                    && opt_view(final(self).default_thinking_level) == fallback_level(
                        opt_view(old(self).default_thinking_level), levels_for_model(models@, Some(items[0].0)))
                &&& !auto ==> final(self).default_model == old(self).default_model
                    && final(self).default_thinking_level == old(self).default_thinking_level && r.2 is None
                &&& !valid && !auto ==> r.1 is Clear
            }),
    {
        let (items, selection) = {
            let provider: Option<&str> = match &self.default_provider {
                Some(p) => Some(p.as_str()),
                None => None,
            };
            let selected: Option<&str> = match &self.default_model {
                Some(m) => Some(m.as_str()),
                None => None,
            };
            plan_model_dropdown(models, provider, selected)
        };
        let changed = match &selection {
            ModelSelection::Auto(id) => self.set_default_model(id.clone(), models),
            _ => None,
        };
        (items, selection, changed)
    }

    /// The user picks a default provider: the model dropdown is rebuilt for
    /// it (see `update_model_dropdown`).
    pub fn set_default_provider(&mut self, provider: String, models: &Vec<ModelInfo>) -> (r: (Vec<(String, String)>, ModelSelection, Option<String>))
        ensures
            final(self).default_provider == Some(provider),
            ({
                let items = model_dropdown_items(models@, Some(provider@));
                let valid = match old(self).default_model { Some(s) => lists_id(items, s@), None => false };
                &&& r.0@.map_values(|p: (String, String)| (p.0@, p.1@)) == items
                &&& valid ==> final(self).default_model == old(self).default_model
                    && final(self).default_thinking_level == old(self).default_thinking_level && r.2 is None
                &&& !valid && items.len() > 0 ==> (final(self).default_model matches Some(m) && m@ == items[0].0)
                    && opt_view(final(self).default_thinking_level) == fallback_level(
                        opt_view(old(self).default_thinking_level), levels_for_model(models@, Some(items[0].0)))
                &&& !valid && items.len() == 0 ==> final(self).default_model == old(self).default_model
                    && r.2 is None
            }),
            final(self).compaction_enabled == old(self).compaction_enabled,
    {
        self.default_provider = Some(provider);
        self.update_model_dropdown(models)
    }

    /// The agent's settings arrived (the default model already as a full
    /// `provider:model` id): they are taken, the model dropdown is rebuilt
    /// (possibly choosing a model of the provider), and the thinking level
    /// is brought in line with the model. Returns the dropdown and the
    /// thinking level to save when choosing a model changed it.
    pub fn apply_settings(
        &mut self,
        compaction_enabled: bool,
        thinking_level: Option<String>,
        provider: Option<String>,
        model: Option<String>,
        models: &Vec<ModelInfo>,
    ) -> (r: (Vec<(String, String)>, ModelSelection, Option<String>))
        ensures
            final(self).compaction_enabled == Some(compaction_enabled),
            final(self).default_provider == provider,
            r.0@.map_values(|p: (String, String)| (p.0@, p.1@)) == model_dropdown_items(models@, opt_view(provider)),
            match opt_view(final(self).default_thinking_level) {
                Some(l) => lists_id(levels_for_model(models@, opt_view(final(self).default_model)), l),
                None => levels_for_model(models@, opt_view(final(self).default_model)).len() == 0,
            },
    {
        self.compaction_enabled = Some(compaction_enabled);
        self.default_thinking_level = thinking_level;
        self.default_provider = provider;
        self.default_model = model;
        let r = self.update_model_dropdown(models);
        let ghost before = opt_view(self.default_thinking_level);
        let _ = self.refresh_thinking_level(models);
        proof {
            lemma_fallback_offered(before, levels_for_model(models@, opt_view(self.default_model)));
        }
        r
    }
}

proof fn lemma_fallback_offered(current: Option<Seq<char>>, items: Seq<(Seq<char>, Seq<char>)>)
    ensures
        match fallback_level(current, items) {
            Some(l) => lists_id(items, l),
            None => items.len() == 0,
        },
{
    if items.len() > 0 {
        assert(items[0].0 == items[0].0);
        assert(lists_id(items, items[0].0));
    }
}

proof fn lemma_models_of_all(models: Seq<ModelInfo>)
    ensures
        models_of(models, None).len() == models.len(),
    decreases models.len(),
{
    if models.len() > 0 {
        lemma_models_of_all(models.drop_last());
    }
}

/// The model dropdown is never left empty while there are models: a
/// provider without models of its own shows them all.
pub proof fn lemma_model_list_never_empty(models: Seq<ModelInfo>, provider: Option<Seq<char>>)
    requires
        models.len() > 0,
    ensures
        model_dropdown_items(models, provider).len() > 0,
{
    lemma_models_of_all(models);
}

/// After the default model changes, the thinking level is one the model
/// offers, whenever it offers any.
pub proof fn lemma_level_offered_after_model_change(current: Option<Seq<char>>, items: Seq<(Seq<char>, Seq<char>)>)
    requires
        items.len() > 0,
    ensures
        fallback_level(current, items) matches Some(l) && lists_id(items, l),
{
    match current {
        Some(c) if lists_id(items, c) => {},
        _ => {
            if !lists_id(items, "off"@) {
                assert(items[0].0 == items[0].0);
                assert(lists_id(items, items[0].0));
            }
        },
    }
}


proof fn lemma_model_index_is_match(models: Seq<ModelInfo>, id: Seq<char>, k: int)
    requires
        0 <= k,
    ensures
        model_index(models, id, k) matches Some(i) ==> k <= i < models.len() && models[i].id@ == id,
    decreases models.len() - k,
{
    if k < models.len() && models[k].id@ != id {
        lemma_model_index_is_match(models, id, k + 1);
    }
}

proof fn lemma_model_index_first(models: Seq<ModelInfo>, id: Seq<char>, i: int, k: int)
    requires
        0 <= k <= i < models.len(),
        models[i].id@ == id,
        forall|j: int| k <= j < i ==> models[j].id@ != id,
    ensures
        model_index(models, id, k) == Some(i),
    decreases i - k,
{
    if k < i {
        lemma_model_index_first(models, id, i, k + 1);
    }
}

proof fn lemma_map_entry_is_listed(map: Seq<(String, Option<String>)>, level: Seq<char>, k: int)
    requires
        0 <= k,
    ensures
        map_entry(map, level, k) matches Some(v) ==>
            exists|j: int| k <= j < map.len() && map[j].0@ == level && map[j].1 == v,
    decreases map.len() - k,
{
    if k < map.len() && map[k].0@ != level {
        lemma_map_entry_is_listed(map, level, k + 1);
    }
}

proof fn lemma_offered_without_map(table: Seq<(Seq<char>, Seq<char>)>)
    ensures
        offered_levels(table, None) == table,
    decreases table.len(),
{
    if table.len() > 0 {
        lemma_offered_without_map(table.drop_last());
        assert(table.drop_last().push(table.last()) =~= table);
    }
}

proof fn lemma_offered_contains(
    table: Seq<(Seq<char>, Seq<char>)>,
    map: Option<Seq<(String, Option<String>)>>,
    x: (Seq<char>, Seq<char>),
)
    ensures
        offered_levels(table, map).contains(x) <==> (table.contains(x) && level_offered(map, x.0)),
    decreases table.len(),
{
    if table.len() > 0 {
        let d = table.drop_last();
        lemma_offered_contains(d, map, x);
        let r = offered_levels(d, map);
        assert(table =~= d.push(table.last()));
        if table.contains(x) && !d.contains(x) {
            let j = choose|j: int| 0 <= j < table.len() && table[j] == x;
            if j < d.len() {
                assert(d[j] == x);
            }
            assert(x == table.last());
        }
        if d.contains(x) {
            let j = choose|j: int| 0 <= j < d.len() && d[j] == x;
            assert(table[j] == x);
        }
        if level_offered(map, table.last().0) {
            let t = r.push(table.last());
            if r.contains(x) {
                let j = choose|j: int| 0 <= j < r.len() && r[j] == x;
                assert(t[j] == x);
            }
            if t.contains(x) && !r.contains(x) {
                let j = choose|j: int| 0 <= j < t.len() && t[j] == x;
                if j < r.len() {
                    assert(r[j] == x);
                }
                assert(x == table.last());
                assert(table[table.len() - 1] == x);
            }
            if x == table.last() {
                assert(t[r.len() as int] == x);
            }
        } else {
            if x == table.last() && r.contains(x) {
                assert(!level_offered(map, x.0));
            }
        }
    }
}

/// A model that maps no thinking levels is offered every level, in order:
/// when no model is chosen, when the chosen one is unknown, or when it has
/// no thinking-level map, the dropdown lists off, minimal, low, medium, high
/// and extra high.
pub proof fn lemma_unmapped_model_offers_every_level(models: Seq<ModelInfo>, model_id: Option<Seq<char>>)
    requires
        forall|i: int| 0 <= i < models.len() && model_id == Some(models[i].id@)
            ==> #[trigger] models[i].thinking_level_map is None,
    ensures
        levels_for_model(models, model_id) == seq![
            ("off"@, "Off"@),
            ("minimal"@, "Minimal"@),
            ("low"@, "Low"@),
            ("medium"@, "Medium"@),
            ("high"@, "High"@),
            ("xhigh"@, "Extra High"@),
        ],
{
    if let Some(id) = model_id {
        lemma_model_index_is_match(models, id, 0);
        if let Some(i) = model_index(models, id, 0) {
            assert(models[i].thinking_level_map is None);
        }
    }
    assert(level_map_of(models, model_id) is None);
    lemma_offered_without_map(thinking_level_table());
}

/// A model with a thinking-level map (no level listed twice) is offered
/// exactly the levels its map does not map to nothing: an entry is in the
/// dropdown if and only if it is a level of the table that the map does
/// not list with no value; levels the map does not list stay offered.
pub proof fn lemma_mapped_model_withholds_only_null_levels(
    models: Seq<ModelInfo>,
    model_id: Seq<char>,
    i: int,
    level: (Seq<char>, Seq<char>),
)
    requires
        0 <= i < models.len(),
        models[i].id@ == model_id,
        forall|j: int| 0 <= j < i ==> #[trigger] models[j].id@ != model_id,
        models[i].thinking_level_map is Some,
        level_map_keys_distinct(models[i].thinking_level_map->0@),
    ensures
        levels_for_model(models, Some(model_id)).contains(level) <==> thinking_level_table().contains(level) && !exists|j: int|
            0 <= j < models[i].thinking_level_map->0@.len()
                && #[trigger] models[i].thinking_level_map->0@[j].0@ == level.0
                && models[i].thinking_level_map->0@[j].1 is None,
{
    let m = models[i].thinking_level_map->0@;
    lemma_model_index_first(models, model_id, i, 0);
    assert(level_map_of(models, Some(model_id)) == Some(m));
    lemma_offered_contains(thinking_level_table(), Some(m), level);
    lemma_map_entry_is_listed(m, level.0, 0);
    if exists|j: int| 0 <= j < m.len() && #[trigger] m[j].0@ == level.0 && m[j].1 is None {
        let j = choose|j: int| 0 <= j < m.len() && #[trigger] m[j].0@ == level.0 && m[j].1 is None;
        lemma_map_entry_finds(m, j, 0);
    }
}

} // verus!
