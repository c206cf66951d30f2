use mini_pi::auth::{AuthDialogEvent, AuthDialogMode, AuthFailure, AuthDialogView, AuthRequest};
use mini_pi::chat_app::ChatApp;
use mini_pi::create_thread_button::{ButtonLook, CreateThreadButton, CreateThreadButtonEvent};
use mini_pi::json::JsonValue;
use mini_pi::keyed::KeyedList;
use mini_pi::message_layout::{pair_tool_parts, plan_message_layout, LayoutItem, PartKind, PartState};
use mini_pi::mini_app::{build_auth_url, launch_mini_app, MiniAppLaunch};
use mini_pi::onboarding::{import_done_message, import_summary, OnboardingPanel};
use mini_pi::reasoning::Reasoning;
use mini_pi::settings::{
    parse_model_id, plan_model_dropdown, provider_items, stored_model_id,
    thinking_level_items_for_model, PiSettings, ModelInfo, ModelSelection, ProviderInfo,
};
use mini_pi::status_bar::{messages_label, status_sections, token_scale, StatusSections, TokenScale};
use mini_pi::thread_list::{
    has_new_activity, thread_display_preview, thread_display_title, IndexPath, ThreadItem,
    ThreadAnswer, ThreadListDelegate, ThreadQuery, ThreadSection,
};
use mini_pi::tool_call::{
    format_tool_input, format_tool_title, title_key_of, tool_input_from, tool_name_color,
    tool_title_from, ToolCall, ToolCallKind,
};
use mini_pi::user_panel::{
    initials, log_level_tone, log_tooltip, remote_status_text, remote_status_tone, remote_toggle,
    sync_button, sync_label, sync_label_tone, CloudflaredDialog, FontSizePreset, RemoteStatus,
    RemoteToggle, SyncStatus, Tone, UserPanel,
};
use mini_pi::workspaces::{
    FilterEntry, WorkspaceFilterPopover, initial_workspace_id, remove_workspace, selected_workspace_path, sort_workspaces,
    WorkspaceManager, WorkspaceManagerEvent, WorkspaceMeta,
};

fn s(x: &str) -> String {
    x.to_string()
}

fn ws(id: &str, name: &str) -> WorkspaceMeta {
    WorkspaceMeta { id: s(id), name: s(name), path: format!("/w/{}", id) }
}

fn thread(id: &str, pinned: bool) -> ThreadItem {
    ThreadItem {
        id: s(id),
        title: s(""),
        preview: s(""),
        updated_at: s(""),
        pinned,
        has_new_activity: false,
    }
}

fn model(id: &str, map: Option<Vec<(&str, Option<&str>)>>) -> ModelInfo {
    ModelInfo {
        id: s(id),
        name: format!("Model {}", id),
        thinking_level_map: map.map(|m| m.into_iter().map(|(k, v)| (s(k), v.map(s))).collect()),
    }
}

#[test]
fn login_requires_email_and_password() {
    let mut form = AuthDialogView::new(AuthDialogMode::Login);
    assert!(matches!(form.submit(false, s(""), s("pw"), ""), AuthRequest::Nothing));
    assert_eq!(form.auth_error, Some(s("Email and password are required")));
    assert!(matches!(form.submit(false, s("a@b.c"), s("pw"), ""), AuthRequest::Login { .. }));
    assert_eq!(form.auth_error, None);
    assert!(matches!(form.submit(true, s("a@b.c"), s("pw"), ""), AuthRequest::Nothing));
}

#[test]
fn signup_requires_matching_passwords() {
    let mut form = AuthDialogView::new(AuthDialogMode::Signup);
    assert!(matches!(form.submit(false, s("a@b.c"), s("pw1"), "pw2"), AuthRequest::Nothing));
    assert_eq!(form.auth_error, Some(s("Passwords do not match")));
    assert!(matches!(form.submit(false, s("a@b.c"), s("pw1"), "pw1"), AuthRequest::Signup { .. }));
}

#[test]
fn signup_needing_confirmation_switches_to_login() {
    let mut form = AuthDialogView::new(AuthDialogMode::Signup);
    let notice = form.failed(
        AuthDialogMode::Signup,
        AuthFailure {
            api: Some((200, s("Please check your email to confirm your account, then sign in."))),
            text: s("ignored"),
        },
    );
    assert_eq!(notice, Some("Confirmation email sent. Please sign in."));
    assert_eq!(form.mode, AuthDialogMode::Login);
    assert_eq!(form.auth_error, None);
    let notice = form.failed(AuthDialogMode::Login, AuthFailure { api: Some((400, s("bad"))), text: s("Invalid login") });
    assert_eq!(notice, None);
    assert_eq!(form.auth_error, Some(s("Invalid login")));
    assert_eq!(form.succeeded(), AuthDialogEvent::Authenticated);
    assert_eq!(form.auth_error, None);
    form.switch_mode();
    assert_eq!(form.mode, AuthDialogMode::Signup);
    assert_eq!(AuthDialogMode::Login.title(), "Sign In");
    assert_eq!(AuthDialogMode::Signup.subtitle(), "Sign up to sync your agent settings across devices");
}

#[test]
fn thread_list_sections_and_dedup() {
    let mut d = ThreadListDelegate::new();
    assert_eq!(d.sections_count(), 1);
    d.set_paginated(1, 20, 45, vec![thread("a", true), thread("b", false), thread("a", true), thread("c", false)]);
    assert!(!d.eof);
    assert_eq!(d.pinned.len(), 1);
    assert_eq!(d.unpinned.len(), 2);
    assert_eq!(d.sections_count(), 2);
    assert_eq!(d.section_for(0), Some(ThreadSection::Pinned));
    assert_eq!(d.section_for(1), Some(ThreadSection::Unpinned));
    assert_eq!(d.section_for(2), None);
    assert_eq!(d.items_count(1), 2);
    assert_eq!(d.thread_at(IndexPath { section: 1, row: 1 }).map(|t| t.id.clone()), Some(s("c")));
    assert_eq!(ThreadSection::Pinned.label(), "Pinned threads");
    assert_eq!(d.load_more_request(), Some((2, 20)));
    d.append_page(2, 20, 45, vec![thread("c", false), thread("d", false)]);
    assert_eq!(d.unpinned.iter().map(|t| t.id.as_str()).collect::<Vec<_>>(), vec!["b", "c", "d"]);
    d.append_page(3, 20, 45, Vec::new());
    assert!(d.eof);
    assert_eq!(d.load_more_request(), None);
}

#[test]
fn thread_list_search_and_hover() {
    let mut d = ThreadListDelegate::new();
    assert!(matches!(d.start_refresh(""), ThreadQuery::Page { page: 1, per_page: 20 }));
    match d.start_refresh("abc") {
        ThreadQuery::Search { query, workspace } => {
            assert_eq!(query, "abc");
            assert_eq!(workspace, None);
        }
        _ => panic!(),
    }
    assert!(d.eof);
    assert!(!d.has_more());
    d.set_search_results(Vec::new());
    assert_eq!(d.per_page, 1);
    let ix = IndexPath { section: 0, row: 2 };
    d.set_hovered(ix, true);
    d.set_hovered(IndexPath { section: 0, row: 3 }, false);
    assert_eq!(d.hovered_index, Some(ix));
    d.set_hovered(ix, false);
    assert_eq!(d.hovered_index, None);
    d.confirming_id = Some(s("t1"));
    assert!(d.is_confirming("t1"));
    d.clear_after_error(true);
    assert!(d.eof);
}

#[test]
fn thread_rows_are_one_line() {
    assert_eq!(thread_display_title(""), "New Thread");
    assert_eq!(thread_display_title("  Fix\n the   bug "), "Fix the bug");
    assert_eq!(thread_display_preview(""), "No messages yet");
    assert_eq!(thread_display_preview("a\n\nb"), "a b");
    let md = JsonValue::parse("{\"has_new_activity\": true}").unwrap();
    assert!(has_new_activity(Some(&md)));
    let md = JsonValue::parse("{\"has_new_activity\": 1}").unwrap();
    assert!(!has_new_activity(Some(&md)));
    assert!(!has_new_activity(None));
}

#[test]
fn thinking_levels_follow_model() {
    let models = vec![
        model("vendor:o3", Some(vec![("off", None), ("minimal", Some("low"))])),
        model("acme:m1", None),
    ];
    let all = thinking_level_items_for_model(&models, None);
    assert_eq!(all.len(), 6);
    assert_eq!(all[5], (s("xhigh"), s("Extra High")));
    let o3 = thinking_level_items_for_model(&models, Some("vendor:o3"));
    assert_eq!(o3.iter().map(|p| p.0.as_str()).collect::<Vec<_>>(), vec!["minimal", "low", "medium", "high", "xhigh"]);
    let unknown = thinking_level_items_for_model(&models, Some("nope"));
    assert_eq!(unknown.len(), 6);
}

#[test]
fn model_ids_split_at_first_colon() {
    assert_eq!(parse_model_id("vendor:m:4"), Some((s("vendor"), s("m:4"))));
    assert_eq!(parse_model_id("plain"), None);
    assert_eq!(stored_model_id("vendor:o3"), "o3");
    assert_eq!(stored_model_id("plain"), "plain");
}

#[test]
fn model_dropdown_filters_by_provider() {
    let models = vec![model("a:1", None), model("b:2", None), model("a:3", None)];
    let (items, sel) = plan_model_dropdown(&models, Some("a"), Some("b:2"));
    assert_eq!(items.iter().map(|p| p.0.as_str()).collect::<Vec<_>>(), vec!["a:1", "a:3"]);
    assert!(matches!(sel, ModelSelection::Auto(id) if id == "a:1"));
    let (items, sel) = plan_model_dropdown(&models, Some("zzz"), None);
    assert_eq!(items.len(), 3);
    assert!(matches!(sel, ModelSelection::Auto(id) if id == "a:1"));
    let (_, sel) = plan_model_dropdown(&models, None, Some("b:2"));
    assert!(matches!(sel, ModelSelection::Keep(id) if id == "b:2"));
    let (_, sel) = plan_model_dropdown(&models, None, Some("gone"));
    assert!(matches!(sel, ModelSelection::Clear));
    let providers = vec![
        ProviderInfo { id: s("a"), name: s("A"), configured: true },
        ProviderInfo { id: s("b"), name: s("B"), configured: false },
    ];
    assert_eq!(provider_items(&providers), vec![(s("a"), s("A"))]);
}

#[test]
fn settings_keep_thinking_level_consistent() {
    let models = vec![
        model("a:1", Some(vec![("high", None)])),
        model("b:2", Some(vec![("off", None), ("minimal", None), ("low", None)])),
    ];
    let mut g = PiSettings::new();
    g.set_default_thinking_level(s("high"));
    assert_eq!(g.set_default_model(s("a:1"), &models), Some(s("off")));
    assert_eq!(g.default_thinking_level, Some(s("off")));
    assert_eq!(g.set_default_model(s("b:2"), &models), Some(s("medium")));
    let (_, sel, changed) = g.set_default_provider(s("a"), &models);
    assert!(matches!(sel, ModelSelection::Auto(id) if id == "a:1"));
    assert_eq!(g.default_model, Some(s("a:1")));
    assert_eq!(changed, None);
    assert_eq!(g.default_thinking_level, Some(s("medium")));
    g.set_compaction_enabled(true);
    assert_eq!(g.compaction_enabled, Some(true));
}

#[test]
fn onboarding_tabs_and_texts() {
    let st = OnboardingPanel::new(vec![s("auth.json"), s("settings.json")], true);
    assert_eq!(st.active_tab, 1);
    assert!(st.has_files());
    assert_eq!(
        import_summary(&st.files),
        "Detected settings from ~/.pi/agent/.\n\nFound 2 JSON file(s):\n  • auth.json\n  • settings.json"
    );
    assert_eq!(import_done_message(3), "Imported 3 file(s) successfully");
    let mut st = OnboardingPanel::new(Vec::new(), true);
    assert_eq!(st.active_tab, 0);
    assert!(!st.can_save(true, ""));
    assert!(st.can_save(true, "sk-1"));
    assert_eq!(st.provider_placeholder(false), "Bridge unavailable");
    assert_eq!(st.provider_placeholder(true), "No providers");
    assert!(st.begin_save(true, "sk-1"));
    assert_eq!(st.save_label(), "Saving...");
    assert!(!st.can_save(true, "sk-1"));
    assert!(st.reset(vec![s("x.json")], true));
    assert_eq!(st.active_tab, 1);
    assert!(!st.saving);
}

#[test]
fn remote_control_texts() {
    assert_eq!(remote_status_text(&RemoteStatus::Running), "Connected");
    assert_eq!(remote_status_text(&RemoteStatus::Error(s("dns"))), "Error: dns");
    assert_eq!(remote_status_tone(&RemoteStatus::Reconnecting), Tone::Warning);
    assert_eq!(log_level_tone("ERR"), Tone::Danger);
    assert_eq!(log_level_tone("INF"), Tone::Muted);
    assert_eq!(log_tooltip("WRN", "slow"), "[WRN] slow");
    assert_eq!(remote_toggle(true, true), RemoteToggle::Ignore);
    assert_eq!(remote_toggle(true, false), RemoteToggle::Disable);
    assert_eq!(remote_toggle(false, false), RemoteToggle::Enable);
}

#[test]
fn cloudflared_dialog_flow() {
    let mut panel = UserPanel::new();
    assert_eq!(panel.enable_remote_control(false, s("tok")), None);
    assert!(matches!(panel.cloudflared_dialog, Some(CloudflaredDialog::Prompt)));
    assert_eq!(panel.cloudflared_dialog.as_ref().unwrap().content().primary_label, "Download & Start");
    panel.start_download();
    assert!(panel.cloudflared_dialog.as_ref().unwrap().content().busy);
    assert!(!panel.finish_download(Err(s("404"))));
    let c = panel.cloudflared_dialog.as_ref().unwrap().content();
    assert_eq!(c.title, "Download failed");
    assert_eq!(c.error, Some(s("404")));
    assert!(panel.finish_download(Ok(())));
    assert!(panel.cloudflared_dialog.is_none());
    assert_eq!(panel.enable_remote_control(true, s("")), Some(None));
    assert_eq!(panel.enable_remote_control(true, s("tok")), Some(Some(s("tok"))));
}

#[test]
fn sync_and_account_texts() {
    assert_eq!(sync_label(&SyncStatus::Idle), "Not synced");
    assert_eq!(sync_label(&SyncStatus::Error(s("x"))), "Error: x");
    assert_eq!(sync_label_tone("Synced"), Tone::Success);
    assert_eq!(sync_label_tone("Error: x"), Tone::Danger);
    assert_eq!(sync_label_tone("Not synced"), Tone::Muted);
    assert_eq!(sync_button(&SyncStatus::Syncing), ("Syncing...", true));
    assert_eq!(sync_button(&SyncStatus::Synced), ("Sync Now", false));
    assert_eq!(initials("alice@example.com"), "A");
    assert_eq!(initials("éric@example.com"), "É");
    assert_eq!(initials("ß@example.com"), "SS");
    assert_eq!(initials(""), "?");
    assert_eq!(FontSizePreset::Large.title(), "Large");
}

#[test]
fn mini_app_urls() {
    assert_eq!(
        build_auth_url("a.b-c", "r/1", "/images"),
        "https://raven-ai.one/auth?access_token=a%2Eb%2Dc&refresh_token=r%2F1&redirect=%2Fimages"
    );
    assert_eq!(build_auth_url("é", "x", "y"), "https://raven-ai.one/auth?access_token=%C3%A9&refresh_token=x&redirect=y");
    assert!(matches!(launch_mini_app(false, Some(("a", "b")), "/journal"), MiniAppLaunch::SignIn));
    assert!(matches!(launch_mini_app(true, None, "/journal"), MiniAppLaunch::SignIn));
    assert!(matches!(launch_mini_app(true, Some(("a", "b")), "/journal"),
        MiniAppLaunch::Open(u) if u == "https://raven-ai.one/auth?access_token=a&refresh_token=b&redirect=%2Fjournal"));
}

#[test]
fn workspaces_order_default_first() {
    let mut v = vec![ws("3", "zeta"), ws("2", "Alpha"), ws("1", "Default"), ws("4", "beta")];
    sort_workspaces(&mut v);
    assert_eq!(v.iter().map(|w| w.name.as_str()).collect::<Vec<_>>(), vec!["Default", "Alpha", "beta", "zeta"]);
}

#[test]
fn workspace_selection_and_removal() {
    let v = vec![ws("1", "Default"), ws("2", "Alpha")];
    assert_eq!(initial_workspace_id(&v, Some("2")), Some(s("2")));
    assert_eq!(initial_workspace_id(&v, Some("9")), Some(s("1")));
    assert_eq!(initial_workspace_id(&vec![ws("7", "x")], None), Some(s("7")));
    assert_eq!(initial_workspace_id(&Vec::new(), None), None);
    assert_eq!(selected_workspace_path(&v, &Some(s("2"))), Some(s("/w/2")));
    let mut v2 = v;
    let mut sel = Some(s("1"));
    remove_workspace(&mut v2, &mut sel, "1");
    assert_eq!(v2.len(), 1);
    assert_eq!(sel, Some(s("2")));
}

#[test]
fn workspace_manager_confirms_delete() {
    let mut m = WorkspaceManager::new(vec![ws("1", "Default"), ws("2", "Alpha")]);
    assert_eq!(m.listed().iter().map(|w| w.id.as_str()).collect::<Vec<_>>(), vec!["2"]);
    m.request_delete(s("2"));
    assert!(m.is_confirming("2"));
    match m.confirm_delete(s("2")) {
        WorkspaceManagerEvent::DeleteRequested { workspace_id } => assert_eq!(workspace_id, "2"),
        _ => panic!(),
    }
    assert!(!m.is_confirming("2"));
    m.set_confirming(Some(s("2")));
    m.set_workspaces(vec![ws("3", "Other")]);
    assert!(!m.is_confirming("2"));
}

#[test]
fn message_parts_pair_with_answers() {
    let kinds = vec![PartKind::ToolCall, PartKind::ToolCall, PartKind::ToolResult, PartKind::Text, PartKind::ToolResult];
    let (paired, pairs) = pair_tool_parts(&kinds);
    assert_eq!(pairs, vec![(0, 2), (1, 4)]);
    assert_eq!(paired, vec![true, true, true, false, true]);
    let kinds = vec![PartKind::Reasoning, PartKind::ToolCall, PartKind::Text, PartKind::ToolCall];
    assert_eq!(
        plan_message_layout(&kinds),
        vec![LayoutItem::Single(0), LayoutItem::Pair { call: 1, result: 2 }, LayoutItem::Single(3)]
    );
}

#[test]
fn loaded_session_calls_before_results_all_render() {
    let kinds = vec![PartKind::ToolCall, PartKind::ToolCall, PartKind::ToolResult, PartKind::ToolResult];
    assert_eq!(
        plan_message_layout(&kinds),
        vec![LayoutItem::Pair { call: 0, result: 2 }, LayoutItem::Pair { call: 1, result: 3 }]
    );
    let kinds = vec![PartKind::ToolCall, PartKind::Text, PartKind::ToolCall, PartKind::ToolResult, PartKind::Text];
    assert_eq!(
        plan_message_layout(&kinds),
        vec![
            LayoutItem::Pair { call: 0, result: 3 },
            LayoutItem::Single(1),
            LayoutItem::Pair { call: 2, result: 4 },
        ]
    );
}

#[test]
fn text_answer_not_taken_past_a_result() {
    let kinds = vec![PartKind::ToolCall, PartKind::ToolCall, PartKind::ToolResult, PartKind::Text];
    let (_, pairs) = pair_tool_parts(&kinds);
    // The first call takes the result; the second then pairs with the text.
    assert_eq!(pairs, vec![(0, 2), (1, 3)]);
}

#[test]
fn tool_titles_and_inputs() {
    assert_eq!(format_tool_title("bash", "{\"command\":\"ls -la\"}"), "ls -la");
    assert_eq!(format_tool_title("read", "{\"path\":42}"), "42");
    assert_eq!(format_tool_title("read", "not json"), "not json");
    assert_eq!(format_tool_title("grep", "{\"path\":\"x\"}"), "{\"path\":\"x\"}");
    assert_eq!(format_tool_input("{\"a\":1}"), "{\n  \"a\": 1\n}");
    assert_eq!(format_tool_input("oops"), "oops");
    assert_eq!(tool_name_color("bash"), 0xef4444);
    assert_eq!(tool_name_color("other"), 0x888888);
}

#[test]
fn tool_titles_from_parsed_arguments() {
    let args = JsonValue::Object(vec![
        (s("path"), JsonValue::Str(s("/tmp/a.txt"))),
        (s("command"), JsonValue::Number(s("7"))),
    ]);
    let parsed = Some(args);
    assert_eq!(tool_title_from("read", "raw", &parsed), "/tmp/a.txt");
    assert_eq!(tool_title_from("bash", "raw", &parsed), "7");
    assert_eq!(tool_title_from("grep", "raw", &parsed), "raw");
    assert_eq!(tool_title_from("write", "raw", &None), "raw");
    let no_path = Some(JsonValue::Object(vec![]));
    assert_eq!(tool_title_from("edit", "raw", &no_path), "raw");
    assert_eq!(title_key_of("bash"), Some("command"));
    assert_eq!(title_key_of("edit"), Some("path"));
    assert_eq!(title_key_of("ls"), None);
    assert_eq!(tool_input_from("x", Some(s("pretty"))), "pretty");
    assert_eq!(tool_input_from("x", None), "x");
}

#[test]
fn send_file_cards() {
    let details = JsonValue::parse("{\"path\":\"docs/a.pdf\",\"mime_type\":\"application/pdf\",\"size\":2048}").unwrap();
    let call = ToolCall::result_only(s("send_file"), s("sent"), Some(details), Some(PartState::Done), Some(s("/ws")));
    assert_eq!(call.kind(), ToolCallKind::ResultOnly);
    let card = call.send_file_card();
    assert_eq!(card.path, "/ws/docs/a.pdf");
    assert_eq!(card.file_name, "a.pdf");
    assert_eq!(card.subtitle(), "application/pdf • 2.0 KB");
    let bare = ToolCall::result_only(s("send_file"), s(""), None, None, None);
    let card = bare.send_file_card();
    assert_eq!(card.file_name, "Sent file");
    assert_eq!(card.mime_type, "application/octet-stream");
}

#[test]
fn keyed_list_read_after_write() {
    let mut k: KeyedList<u32> = KeyedList::new();
    k.insert(s("a"), 1);
    k.insert(s("b"), 2);
    k.insert(s("a"), 3);
    assert_eq!(k.get("a"), Some(&3));
    assert_eq!(k.get("b"), Some(&2));
    k.remove("a");
    assert_eq!(k.get("a"), None);
    assert_eq!(k.get("b"), Some(&2));
}

#[test]
fn buttons_and_reasoning() {
    let mut b = CreateThreadButton::new();
    assert_eq!(b.look(), ButtonLook::Base);
    assert!(b.set_hovered(true));
    assert!(!b.set_hovered(true));
    assert_eq!(b.look(), ButtonLook::Hover);
    b.press();
    assert_eq!(b.look(), ButtonLook::Pressed);
    b.release();
    assert_eq!(b.click(), CreateThreadButtonEvent::Clicked);
    let mut r = Reasoning::new(s("0-1"), s("hmm"), Some(PartState::Streaming));
    assert!(r.collapsed && r.is_streaming());
    assert_eq!(r.header(), "Thinking ▶");
    r.toggle();
    assert_eq!(r.header(), "Thinking ▼");
    r.set_content(s("done"), Some(PartState::Done));
    assert!(!r.is_streaming() && !r.collapsed);
    let r = r.collapsed(true);
    assert!(r.collapsed);
    let mut c = ChatApp::new();
    assert!(c.toggle_pin());
    assert_eq!(c.pin_icon(), "icons/unpin.svg");
    assert!(c.set_title_popover(true));
    c.close_title_popover();
    assert!(!c.title_popover_open);
}

#[test]
fn json_reads_members() {
    let v = JsonValue::parse("{\"n\": 12, \"s\": \"x\", \"b\": false, \"f\": 1.5, \"neg\": -3}").unwrap();
    assert_eq!(v.get("n").and_then(|x| x.as_u64()), Some(12));
    assert_eq!(v.get("f").and_then(|x| x.as_u64()), None);
    assert_eq!(v.get("neg").and_then(|x| x.as_u64()), None);
    assert_eq!(v.get("s").and_then(|x| x.as_str()).cloned(), Some(s("x")));
    assert_eq!(v.get("b").and_then(|x| x.as_bool()), Some(false));
    assert!(v.get("missing").is_none());
    assert!(JsonValue::parse("{").is_none());
    assert!(matches!(JsonValue::Null.get("x"), None));
}

#[test]
fn applied_settings_are_consistent() {
    let models = vec![
        model("a:1", Some(vec![("off", None)])),
        model("b:2", None),
    ];
    let mut g = PiSettings::new();
    let (items, sel, changed) = g.apply_settings(true, Some(s("off")), Some(s("a")), Some(s("b:2")), &models);
    assert_eq!(items, vec![(s("a:1"), s("Model a:1"))]);
    assert!(matches!(sel, ModelSelection::Auto(id) if id == "a:1"));
    assert_eq!(g.default_model, Some(s("a:1")));
    assert_eq!(changed, Some(s("minimal")));
    assert_eq!(g.default_thinking_level, Some(s("minimal")));
    assert_eq!(g.compaction_enabled, Some(true));
}

#[test]
fn status_bar_counters() {
    let sec = status_sections(0, 0, 0, 0, 0);
    assert_eq!(sec, StatusSections { tokens: false, in_out: false, cache: false });
    let sec = status_sections(5, 0, 3, 0, 1);
    assert_eq!(sec, StatusSections { tokens: true, in_out: true, cache: true });
    assert_eq!(token_scale(999), TokenScale::Units);
    assert_eq!(token_scale(1_000), TokenScale::Thousands);
    assert_eq!(token_scale(999_999), TokenScale::Thousands);
    assert_eq!(token_scale(1_000_000), TokenScale::Millions);
    assert_eq!(messages_label(12), "12 messages");
    assert_eq!(messages_label(0), "0 messages");
}

#[test]
fn workspace_filter_lists_all_then_default_first() {
    let p = WorkspaceFilterPopover::new(vec![ws("2", "beta"), ws("3", "alpha"), ws("1", "Default")]);
    let names: Vec<String> = p.workspaces.iter().map(|w| w.name.clone()).collect();
    assert_eq!(names, vec![s("Default"), s("alpha"), s("beta")]);
    assert_eq!(
        p.entries(),
        vec![FilterEntry::AllWorkspaces, FilterEntry::Workspace(0), FilterEntry::Workspace(1), FilterEntry::Workspace(2)]
    );
    assert!(p.pick(FilterEntry::AllWorkspaces).is_none());
    assert_eq!(p.pick(FilterEntry::Workspace(1)).unwrap().id, "3");
}

#[test]
fn thread_list_refresh_answers() {
    let mut d = ThreadListDelegate::new();
    let asked = d.start_refresh("");
    d.finish_refresh(&asked, ThreadAnswer::Page {
        page: 1,
        per_page: 20,
        total: 30,
        threads: vec![thread("a", true), thread("b", false)],
    });
    assert_eq!(d.pinned.len(), 1);
    assert_eq!(d.unpinned.len(), 1);
    assert_eq!(d.total, 30);
    assert!(!d.eof);
    let asked = d.start_refresh("");
    d.finish_refresh(&asked, ThreadAnswer::Failed);
    assert!(d.pinned.is_empty() && d.unpinned.is_empty());
    assert_eq!(d.total, 0);
    assert!(d.eof);
    let asked = d.start_refresh("q");
    d.finish_refresh(&asked, ThreadAnswer::Found(vec![thread("c", false), thread("d", false), thread("e", true)]));
    assert_eq!(d.total, 3);
    assert_eq!(d.per_page, 3);
    assert_eq!(d.unpinned.len(), 2);
}
