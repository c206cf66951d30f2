use mini_pi::json::JsonValue;
use mini_pi::search_pager::{is_installing, version_label, ExtensionBody, SearchPager};
use mini_pi::settings::{plan_model_dropdown, ModelInfo};
use mini_pi::skills::{empty_list_text, resource_from_entry, resource_from_extension, shows_description, PanelBody, SkillsPanel};
use mini_pi::text::{sanitize_prompt_filename, to_single_line};
use mini_pi::thread_list::{search_focus_opens_suggestions, ThreadListDelegate, ThreadQuery};

fn s(x: &str) -> String {
    x.to_string()
}

fn samples() -> Vec<String> {
    let pieces = ["a", " ", "\n", "-", "_", "é", "\t", "--", "x y", "!", "\u{2003}", "Z9"];
    let mut out = Vec::new();
    let mut seed: u32 = 7;
    for _ in 0..400 {
        let mut t = String::new();
        for _ in 0..(seed % 9) {
            seed = seed.wrapping_mul(1_103_515_245).wrapping_add(12_345);
            t.push_str(pieces[(seed >> 16) as usize % pieces.len()]);
        }
        seed = seed.wrapping_mul(1_103_515_245).wrapping_add(12_345);
        out.push(t);
    }
    out
}

#[test]
fn single_line_has_no_whitespace_runs() {
    for t in samples() {
        let r = to_single_line(&t);
        assert!(!r.contains("  "), "{:?} -> {:?}", t, r);
        assert!(r.chars().all(|c| !c.is_whitespace() || c == ' '), "{:?}", r);
        assert_eq!(r, r.trim());
    }
}

#[test]
fn prompt_stems_are_tidy() {
    for t in samples() {
        let r = sanitize_prompt_filename(&t);
        assert!(!r.is_empty());
        assert!(!r.starts_with('-') && !r.ends_with('-'), "{:?} -> {:?}", t, r);
        assert!(!r.contains("--"), "{:?} -> {:?}", t, r);
        assert!(r.chars().all(|c| c.is_alphanumeric() || c == '-'), "{:?} -> {:?}", t, r);
        assert_eq!(sanitize_prompt_filename(&r), r);
    }
}

#[test]
fn model_list_is_never_empty() {
    let models = vec![ModelInfo { id: s("p:m"), name: s("M"), thinking_level_map: None }];
    for provider in [None, Some("p"), Some("other"), Some("")] {
        let (items, _) = plan_model_dropdown(&models, provider, None);
        assert!(!items.is_empty());
    }
}

#[test]
fn pager_bodies() {
    let mut pager: SearchPager<u8> = SearchPager::new();
    assert!(matches!(pager.extension_body(), ExtensionBody::Searching));
    let body = pager.skill_body();
    assert_eq!(body.list, Some((false, true)));
    assert!(!body.none_found);
    assert!(pager.apply_result(1, true, Ok((Vec::new(), None))));
    assert!(matches!(pager.extension_body(), ExtensionBody::NoneFound));
    assert!(pager.skill_body().none_found);
    assert!(!pager.shows_pagination());
    let g = pager.schedule_search("x").generation;
    assert!(pager.apply_result(g, true, Err(s("down"))));
    assert!(matches!(pager.extension_body(), ExtensionBody::Failed(e) if e == "down"));
    assert_eq!(pager.skill_body().error, Some(s("down")));
    let g = pager.schedule_search("y").generation;
    assert!(pager.apply_result(g, true, Ok((vec![1, 2], Some(s("c"))))));
    assert!(matches!(pager.extension_body(), ExtensionBody::List { show_items: true, show_loader: false }));
    assert!(pager.shows_pagination());
    assert_eq!(version_label("1.2.3"), "v1.2.3");
    assert!(is_installing(&Some(s("pkg")), "pkg"));
    assert!(!is_installing(&None, "pkg"));
}

#[test]
fn skills_panel_entries() {
    let raw = JsonValue::parse("{\"filePath\":\"/s/a/SKILL.md\"}").unwrap();
    let r = resource_from_entry(s("a"), Some(s("does a")), &raw);
    assert_eq!(r.path, Some(s("/s/a/SKILL.md")));
    let raw = JsonValue::parse("{\"path\":\"/x/ext.ts\"}").unwrap();
    let e = resource_from_extension(s("/x/ext.ts"), &raw);
    assert_eq!(e.name, "ext.ts");
    assert_eq!(e.description, Some(s("/x/ext.ts")));
    assert_eq!(e.path, Some(s("/x/ext.ts")));
    let raw = JsonValue::parse("{\"path\":\"/p\",\"resolvedPath\":\"/r\"}").unwrap();
    assert_eq!(resource_from_extension(s("npm:pkg"), &raw).path, Some(s("/r")));
    assert!(!shows_description(&Some(s(""))));
    assert!(shows_description(&Some(s("x"))));
    assert_eq!(empty_list_text("Skills"), "No skills loaded.");
    let mut panel = SkillsPanel::new();
    assert!(matches!(panel.body(), PanelBody::Lists));
    panel.load_if_needed(true);
    assert!(matches!(panel.body(), PanelBody::Loading));
    panel.finish_load(Err(s("no bridge")));
    assert!(matches!(panel.body(), PanelBody::Failed(e) if e == "no bridge"));
}

#[test]
fn workspace_filter_searches() {
    let mut d = ThreadListDelegate::new();
    d.set_workspace_filter(Some(s("ws1")));
    match d.start_refresh("") {
        ThreadQuery::Search { query, workspace } => {
            assert_eq!(query, "");
            assert_eq!(workspace, Some(s("ws1")));
        }
        _ => panic!(),
    }
    assert!(search_focus_opens_suggestions(false));
    assert!(!search_focus_opens_suggestions(true));
}
