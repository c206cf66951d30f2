use mini_pi::installers::{
    bun_install_outcome, clawhub_request, install_notice, installed_message, is_handoff,
    is_zip_archive, local_skill_display_name, npm_search_request, parse_clawhub_response,
    parse_clawhub_skill, parse_npm_response, skill_download_request, skill_exists_message,
};
use mini_pi::json::JsonValue;
use mini_pi::skills::{plan_prompt_save, prompt_exists_message, prompt_saved_message, Resource, SkillsPanel};
use mini_pi::search_pager::SearchPager;

fn s(x: &str) -> String {
    x.to_string()
}

fn obj(members: Vec<(&str, JsonValue)>) -> JsonValue {
    JsonValue::Object(members.into_iter().map(|(k, v)| (k.to_string(), v)).collect())
}

fn members(m: Vec<(&str, JsonValue)>) -> Vec<(String, JsonValue)> {
    m.into_iter().map(|(k, v)| (k.to_string(), v)).collect()
}

fn text(x: &str) -> JsonValue {
    JsonValue::Str(x.to_string())
}

fn npm_object(name: &str) -> JsonValue {
    obj(vec![("package", obj(vec![("name", text(name)), ("version", text("1.0.0"))]))])
}

#[test]
fn npm_urls_are_form_encoded() {
    assert_eq!(
        npm_search_request(None, None).unwrap(),
        "https://registry.npmjs.org/-/v1/search?text=%40remnic%2Fplugin-pi&size=20"
    );
    assert_eq!(
        npm_search_request(Some("a b&c"), Some("40")).unwrap(),
        "https://registry.npmjs.org/-/v1/search?text=a+b%26c&size=20&from=40"
    );
}

#[test]
fn clawhub_urls() {
    assert_eq!(
        clawhub_request(Some("pdf tools"), Some("ignored")).unwrap(),
        "https://clawhub.ai/api/v1/search?q=pdf+tools&limit=20"
    );
    assert_eq!(
        clawhub_request(Some(""), Some("c1")).unwrap(),
        "https://clawhub.ai/api/v1/packages?family=skill&sort=recommended&limit=20&cursor=c1"
    );
    assert_eq!(
        clawhub_request(None, None).unwrap(),
        "https://clawhub.ai/api/v1/packages?family=skill&sort=recommended&limit=20"
    );
    assert_eq!(
        skill_download_request("my-skill", "ann").unwrap(),
        "https://clawhub.ai/api/v1/download?slug=my-skill&ownerHandle=ann"
    );
}

#[test]
fn npm_response_full_page_has_next_cursor() {
    let objects: Vec<JsonValue> = (0..20).map(|i| npm_object(&format!("p{}", i))).collect();
    let response = obj(vec![
        ("objects", JsonValue::Array(objects)),
        ("total", JsonValue::Number(s("55"))),
    ]);
    let (packages, next) = parse_npm_response(&response, Some("20")).unwrap();
    assert_eq!(packages.len(), 20);
    assert_eq!(packages[3].name, "p3");
    assert_eq!(packages[3].version, "1.0.0");
    assert_eq!(packages[3].description, None);
    assert_eq!(next, Some(s("40")));
    let (_, next) = parse_npm_response(&response, Some("40")).unwrap();
    assert_eq!(next, None);
    let (_, next) = parse_npm_response(&response, Some("junk")).unwrap();
    assert_eq!(next, Some(s("20")));
}

#[test]
fn npm_response_short_page_ends() {
    let response = obj(vec![("objects", JsonValue::Array(vec![npm_object("only")]))]);
    let (packages, next) = parse_npm_response(&response, None).unwrap();
    assert_eq!(packages.len(), 1);
    assert_eq!(next, None);
}

#[test]
fn npm_response_errors() {
    assert_eq!(parse_npm_response(&obj(vec![]), None).err(), Some(s("unexpected npm search response")));
    let bad = obj(vec![("objects", JsonValue::Array(vec![obj(vec![])]))]);
    assert_eq!(parse_npm_response(&bad, None).err(), Some(s("missing package object")));
    let bad = obj(vec![("objects", JsonValue::Array(vec![obj(vec![("package", obj(vec![]))])]))]);
    assert_eq!(parse_npm_response(&bad, None).err(), Some(s("missing package name")));
    let defaults = obj(vec![("objects", JsonValue::Array(vec![obj(vec![("package", obj(vec![("name", text("x"))]))])]))]);
    let (packages, _) = parse_npm_response(&defaults, None).unwrap();
    assert_eq!(packages[0].version, "unknown");
}

#[test]
fn clawhub_skill_fields() {
    let skill = parse_clawhub_skill(&members(vec![
        ("slug", text("pdf")),
        ("ownerHandle", text("ann")),
        ("latestVersion", obj(vec![("version", text("2.0"))])),
        ("version", text("1.0")),
    ]))
    .unwrap();
    assert_eq!(skill.name, "pdf");
    assert_eq!(skill.display_name, "pdf");
    assert_eq!(skill.version, Some(s("2.0")));
    assert_eq!(skill.summary, None);
    let skill = parse_clawhub_skill(&members(vec![
        ("name", text("n")),
        ("displayName", text("Nice")),
        ("summary", text("does things")),
        ("ownerHandle", text("bob")),
        ("version", text("1.0")),
    ]))
    .unwrap();
    assert_eq!(skill.display_name, "Nice");
    assert_eq!(skill.version, Some(s("1.0")));
    assert_eq!(
        parse_clawhub_skill(&members(vec![("ownerHandle", text("bob"))])).err(),
        Some(s("missing skill name"))
    );
    assert_eq!(parse_clawhub_skill(&members(vec![("name", text("n"))])).err(), Some(s("missing ownerHandle")));
}

#[test]
fn clawhub_responses() {
    let item = obj(vec![("name", text("n")), ("ownerHandle", text("o"))]);
    let listing = obj(vec![("items", JsonValue::Array(vec![item])), ("nextCursor", text("c2"))]);
    let (skills, next) = parse_clawhub_response(&listing, false).unwrap();
    assert_eq!(skills.len(), 1);
    assert_eq!(next, Some(s("c2")));
    let search = obj(vec![("results", JsonValue::Array(vec![text("nope")]))]);
    assert_eq!(parse_clawhub_response(&search, true).err(), Some(s("invalid search result")));
    assert_eq!(parse_clawhub_response(&listing, true).err(), Some(s("unexpected search response")));
    assert_eq!(parse_clawhub_response(&search, false).err(), Some(s("unexpected catalog response")));
}

#[test]
fn archive_kinds() {
    assert!(is_handoff("application/json; charset=utf-8"));
    assert!(!is_handoff("application/zip"));
    assert!(is_zip_archive("application/zip", "https://x/y"));
    assert!(is_zip_archive("application/octet-stream", "https://x/y.zip"));
    assert!(!is_zip_archive("application/x-tar", "https://x/y.tar.gz"));
    // Any content type that mentions "zip" counts, "gzip" included.
    assert!(is_zip_archive("application/gzip", "https://x/y.tar.gz"));
}

#[test]
fn bun_output_combined() {
    assert_eq!(bun_install_outcome(Some(s("out")), Some(s("err")), true), Ok(s("out\nerr")));
    assert_eq!(bun_install_outcome(None, Some(s("err")), true), Ok(s("err")));
    assert_eq!(bun_install_outcome(Some(s("out")), Some(s("")), false), Err(s("bun install failed: out")));
}

#[test]
fn install_messages() {
    assert_eq!(install_notice("extension", "pkg", &Ok(s("x"))), (true, s("Installed extension 'pkg'")));
    assert_eq!(
        install_notice("skill", "Nice", &Err(s("boom"))),
        (false, s("Failed to install skill 'Nice': boom"))
    );
    assert_eq!(installed_message("pdf", "/home/u/.pi/agent/skills/pdf"), "Installed 'pdf' to /home/u/.pi/agent/skills/pdf");
    assert_eq!(skill_exists_message("pdf"), "A skill named 'pdf' is already installed.");
    assert_eq!(local_skill_display_name(None), "skill");
}

#[test]
fn prompt_save_checks() {
    assert_eq!(plan_prompt_save("  ", "body", true), Err(s("Prompt title is required.")));
    assert_eq!(plan_prompt_save("T", " \n", true), Err(s("Prompt content is required.")));
    assert_eq!(plan_prompt_save(" My Prompt ", "x", true), Ok((s("My-Prompt.md"), s("My Prompt"))));
    assert_eq!(plan_prompt_save("  ", "body", false), Err(s("Prompt title is required.")));
    assert_eq!(plan_prompt_save(" My Prompt ", "x", false), Err(s("SDK bridge is not connected.")));
    assert_eq!(prompt_exists_message("My-Prompt"), "A prompt named 'My-Prompt' already exists.");
    assert_eq!(prompt_saved_message("My Prompt"), "Prompt 'My Prompt' saved.");
}

#[test]
fn skills_panel_loads_once() {
    let mut panel = SkillsPanel::new();
    assert_eq!(panel.open_ixs, vec![0, 1, 2]);
    assert!(panel.load_if_needed(true));
    assert!(!panel.load_if_needed(true));
    let r = Resource { name: s("a"), description: None, path: None };
    panel.finish_load(Ok((vec![r], Vec::new(), Vec::new())));
    assert!(panel.loaded && !panel.loading);
    assert_eq!(panel.skills.len(), 1);
    assert!(!panel.load_if_needed(true));
    let mut offline = SkillsPanel::new();
    assert!(!offline.load_if_needed(false));
    assert_eq!(offline.error, Some(s("SDK bridge is not connected.")));
}

#[test]
fn pager_pages_and_stale_results() {
    let mut pager: SearchPager<u32> = SearchPager::new();
    assert!(pager.apply_result(1, true, Ok((vec![1, 2], Some(s("20"))))));
    assert_eq!(pager.total_pages(), 2);
    let req = pager.go_to_page(2).unwrap();
    assert_eq!(req.cursor, Some(s("20")));
    assert_eq!(pager.current_page, 2);
    let stale = req.generation;
    let fresh = pager.schedule_search("  pdf ");
    assert_eq!(fresh.query, Some(s("pdf")));
    assert_eq!(pager.current_page, 1);
    assert!(!pager.apply_result(stale, false, Ok((vec![9], None))));
    assert!(pager.apply_result(fresh.generation, true, Err(s("offline"))));
    assert_eq!(pager.error, Some(s("offline")));
}
