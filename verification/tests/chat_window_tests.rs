use mini_pi::chat::{ChatState, EditRejection, MarkdownUpdate};
use mini_pi::display_slots::SlotGrid;
use mini_pi::installers::{InstallExtensionWindow, InstallSkillWindow};
use mini_pi::chat_window::{
    render_plan, ChatMessage, ChatWindow, ComposerFlags, MediaItem, MessagePart, Role, SendPlan,
};
use mini_pi::extension_ui::{open_dialog, ExtensionResponse, ExtensionUiAction};
use mini_pi::json::JsonValue;
use mini_pi::message_layout::{LayoutItem, PartState};
use mini_pi::workspaces::{default_workspace_to_create, WorkspaceMeta};

fn s(x: &str) -> String {
    x.to_string()
}

fn ws(id: &str, name: &str) -> WorkspaceMeta {
    WorkspaceMeta { id: s(id), name: s(name), path: format!("/w/{}", id) }
}

fn msg(id: &str, role: Role, text: &str) -> ChatMessage {
    ChatMessage {
        id: s(id),
        role,
        parts: vec![MessagePart::Text { text: s(text), state: Some(PartState::Done) }],
        media: Vec::new(),
    }
}

fn window() -> ChatWindow {
    let mut w = ChatWindow::new(Some(s("t1")), Some(""), vec![ws("2", "beta"), ws("1", "Default")], None, None);
    w.sync_from_session(
        vec![
            msg("u1", Role::User, "first"),
            msg("a1", Role::Assistant, "reply"),
            msg("u2", Role::User, "second"),
            msg("a2", Role::Assistant, "reply 2"),
        ],
        ChatState::Idle,
        s("Thread"),
    );
    w
}

fn texts(w: &ChatWindow) -> Vec<String> {
    w.messages
        .iter()
        .map(|m| match &m.parts[0] {
            MessagePart::Text { text, .. } => text.clone(),
            _ => s("?"),
        })
        .collect()
}

#[test]
fn new_window_defaults() {
    let w = ChatWindow::new(None, None, vec![ws("2", "beta"), ws("1", "Default")], None, Some("2"));
    assert_eq!(w.title, "New Thread");
    assert_eq!(w.workspaces[0].name, "Default");
    assert_eq!(w.selected_workspace_id, Some(s("2")));
    assert!(w.scroll_locked);
    let w = ChatWindow::new(None, Some("Mine"), vec![ws("2", "beta"), ws("1", "Default")], None, Some("gone"));
    assert_eq!(w.title, "Mine");
    assert_eq!(w.selected_workspace_id, Some(s("1")));
    // No workspace listed: the created Default one is used.
    assert_eq!(default_workspace_to_create(&vec![]), Some("Default"));
    assert_eq!(default_workspace_to_create(&vec![ws("2", "beta")]), None);
    let w = ChatWindow::new(None, None, vec![], Some(ws("9", "Default")), None);
    assert_eq!(w.workspaces.len(), 1);
    assert_eq!(w.selected_workspace_id, Some(s("9")));
    let w = ChatWindow::new(None, None, vec![], None, None);
    assert!(w.workspaces.is_empty());
    assert_eq!(w.selected_workspace_id, None);
    // A created workspace is not used when the store listed some.
    let w = ChatWindow::new(None, None, vec![ws("2", "beta")], Some(ws("9", "Default")), None);
    assert_eq!(w.workspaces.len(), 1);
    assert_eq!(w.selected_workspace_id, Some(s("2")));
}

#[test]
fn editing_forks_the_conversation() {
    let mut w = window();
    assert_eq!(w.start_edit_message(s("u1")), Some(s("first")));
    match w.send_message(s("changed"), &Vec::new(), 0) {
        SendPlan::Edit { message_id, content } => {
            assert_eq!(message_id, "u1");
            assert_eq!(content, "changed");
        }
        _ => panic!("expected an edit"),
    }
    assert_eq!(texts(&w), vec![s("changed")]);
    assert_eq!(w.editing_message_id, None);
}

#[test]
fn editing_an_assistant_message_is_refused() {
    let mut w = window();
    w.editing_message_id = Some(s("a1"));
    assert!(matches!(w.confirm_inline_edit(s("x")), SendPlan::EditRejected(EditRejection::NotUser)));
    assert_eq!(w.messages.len(), 4);
    w.editing_message_id = Some(s("zz"));
    assert!(matches!(w.send_message(s("x"), &Vec::new(), 0), SendPlan::EditRejected(EditRejection::NotFound)));
    assert_eq!(w.editing_message_id, None);
}

#[test]
fn inline_edit_confirm_and_cancel() {
    let mut w = window();
    w.start_edit_message(s("u2"));
    assert!(matches!(w.confirm_inline_edit(s("")), SendPlan::Nothing));
    assert_eq!(w.messages.len(), 4);
    w.start_edit_message(s("u2"));
    w.cancel_inline_edit();
    assert_eq!(w.editing_message_id, None);
    w.start_edit_message(s("u2"));
    assert!(matches!(w.confirm_inline_edit(s("again")), SendPlan::Edit { .. }));
    assert_eq!(texts(&w), vec![s("first"), s("reply"), s("again")]);
}

#[test]
fn plain_send_combines_files() {
    let mut w = window();
    assert!(matches!(w.send_message(s(""), &Vec::new(), 0), SendPlan::Nothing));
    match w.send_message(s("see"), &vec![(s("/n.txt"), s("note"))], 1) {
        SendPlan::Send { content } => assert_eq!(content, "see\n\n<file path=\"/n.txt\">\nnote\n</file>"),
        _ => panic!(),
    }
    assert_eq!(w.messages.len(), 4);
}

#[test]
fn enter_on_the_mention_popup_sends_nothing() {
    let mut w = window();
    w.composer = ComposerFlags { just_selected_mention: true, popup_visible: true };
    assert!(matches!(w.send_message(s("hi @a"), &Vec::new(), 0), SendPlan::Nothing));
    assert_eq!(w.composer, ComposerFlags { just_selected_mention: false, popup_visible: true });
    assert!(matches!(w.send_message(s("hi @a"), &Vec::new(), 0), SendPlan::Nothing));
    assert_eq!(w.composer, ComposerFlags { just_selected_mention: false, popup_visible: true });
    w.composer.popup_visible = false;
    assert!(matches!(w.send_message(s("hi @a"), &Vec::new(), 0), SendPlan::Send { .. }));
    assert_eq!(w.messages.len(), 4);
}

#[test]
fn stop_and_rename() {
    let mut w = window();
    assert!(!w.stop_streaming());
    w.state = ChatState::Streaming;
    assert!(w.stop_streaming());
    assert!(matches!(w.state, ChatState::Idle));
    w.rename_thread("");
    assert_eq!(w.title, "New Thread");
    w.rename_thread("Trip");
    assert_eq!(w.title, "Trip");
}

#[test]
fn extension_requests_change_the_window() {
    let mut w = window();
    let payload = JsonValue::Object(vec![(s("title"), JsonValue::Str(s("From ext")))]);
    assert!(matches!(w.handle_extension_ui_request("setTitle", &payload), ExtensionUiAction::SetTitle { .. }));
    assert_eq!(w.title, "From ext");
    let empty = JsonValue::Object(vec![(s("title"), JsonValue::Str(s("")))]);
    w.handle_extension_ui_request("setTitle", &empty);
    assert_eq!(w.title, "From ext");
    let payload = JsonValue::Object(vec![
        (s("widgetKey"), JsonValue::Str(s("k"))),
        (s("widgetLines"), JsonValue::Array(vec![JsonValue::Str(s("l"))])),
        (s("widgetPlacement"), JsonValue::Str(s("belowEditor"))),
    ]);
    w.handle_extension_ui_request("setWidget", &payload);
    assert_eq!(w.extension.widgets.get("k"), Some(&(vec![s("l")], s("belowEditor"))));
    let options = JsonValue::Object(vec![(s("options"), JsonValue::Array(vec![JsonValue::Str(s("o"))]))]);
    w.handle_extension_ui_request("select", &options);
    assert_eq!(w.extension.select_selected, Some(0));
}

#[test]
fn workspaces_in_the_window() {
    let mut w = window();
    w.add_workspace(ws("3", "alpha"));
    assert_eq!(w.selected_workspace_id, Some(s("3")));
    assert_eq!(w.workspaces.iter().map(|x| x.name.as_str()).collect::<Vec<_>>(), vec!["Default", "alpha", "beta"]);
    assert_eq!(w.workspace_dir_for_send_file(), Some(s("/w/3")));
    w.delete_workspace("3");
    assert_eq!(w.selected_workspace_id, Some(s("1")));
    assert_eq!(w.select_workspace(s("2")), Some(s("/w/2")));
}

#[test]
fn display_slots_follow_messages() {
    let mut g: SlotGrid<&str> = SlotGrid::new();
    let plan = g.sync(&vec![vec![false, true], vec![true]]);
    assert_eq!(plan, vec![(0, 1, false), (1, 0, false)]);
    g.put(0, 1, "r01");
    g.put(1, 0, "r10");
    assert_eq!(g.get(0, 1), Some(&"r01"));
    // Message 0 grows a part, message 1 is no longer a reasoning part, a
    // third message arrives.
    let plan = g.sync(&vec![vec![false, true, true], vec![false], vec![true]]);
    assert_eq!(plan, vec![(0, 1, true), (0, 2, false), (2, 0, false)]);
    assert_eq!(g.get(0, 1), Some(&"r01"));
    assert_eq!(g.get(1, 0), None);
    let plan = g.sync(&vec![]);
    assert!(plan.is_empty());
    assert_eq!(g.get(0, 1), None);
}

#[test]
fn install_windows_track_installs() {
    let mut w = InstallExtensionWindow::new();
    w.install(s("pkg"));
    assert_eq!(w.installing, Some(s("pkg")));
    assert_eq!(w.finish_install("pkg", &Ok(s("done"))), (true, s("Installed extension 'pkg'")));
    assert_eq!(w.installing, None);
    let mut k = InstallSkillWindow::new();
    k.install(s("pdf"));
    assert_eq!(k.finish_install("PDF", &Err(s("no"))), (false, s("Failed to install skill 'PDF': no")));
}

#[test]
fn extension_dialog_answers_once() {
    let mut w = window();
    let payload = JsonValue::Object(vec![(
        s("options"),
        JsonValue::Array(vec![JsonValue::Str(s("a")), JsonValue::Str(s("b"))]),
    )]);
    let action = w.handle_extension_ui_request("select", &payload);
    let mut d = open_dialog(s("r1"), &action, true).unwrap();
    assert_eq!(d.request_id, "r1");
    w.extension.pick_option(1);
    match w.close_extension_dialog(&mut d, true, s("")) {
        Some(ExtensionResponse::Value(v)) => assert_eq!(v, "b"),
        other => panic!("{:?}", other),
    }
    assert_eq!(w.extension.select_selected, None);
    assert!(w.close_extension_dialog(&mut d, false, s("")).is_none());

    let action = w.handle_extension_ui_request("confirm", &JsonValue::Object(vec![]));
    let mut d = open_dialog(s("r2"), &action, true).unwrap();
    assert!(matches!(w.close_extension_dialog(&mut d, false, s("")), Some(ExtensionResponse::Cancelled)));
    assert!(w.close_extension_dialog(&mut d, true, s("")).is_none());

    let action = w.handle_extension_ui_request("input", &JsonValue::Object(vec![]));
    let mut d = open_dialog(s("r3"), &action, false).unwrap();
    assert!(w.close_extension_dialog(&mut d, true, s("typed")).is_none());

    let action = w.handle_extension_ui_request("editor", &JsonValue::Object(vec![]));
    let mut d = open_dialog(s("r4"), &action, true).unwrap();
    assert!(matches!(w.close_extension_dialog(&mut d, true, s("typed")), Some(ExtensionResponse::Value(v)) if v == "typed"));
    assert!(w.close_extension_dialog(&mut d, true, s("again")).is_none());

    let action = w.handle_extension_ui_request("notify", &JsonValue::Object(vec![]));
    assert!(open_dialog(s("r5"), &action, true).is_none());
}

#[test]
fn display_objects_follow_the_parts() {
    let mut w = window();
    w.messages[1].parts.insert(
        0,
        MessagePart::Reasoning { text: s("hmm"), state: Some(PartState::Streaming) },
    );
    let ups = w.sync_display_entities();
    assert_eq!(ups, vec![(1, 1, MarkdownUpdate::Create), (3, 0, MarkdownUpdate::Create)]);
    let r = w.reasoning_displays.get(1, 0).unwrap();
    assert_eq!(r.id, "1-0");
    assert_eq!(r.content, "hmm");
    assert!(r.collapsed);
    assert!(w.reasoning_displays.get(1, 1).is_none());
    assert!(w.reasoning_displays.get(0, 0).is_none());
    assert_eq!(w.markdown_displays.get(1, 1), Some(&s("reply")));
    assert!(w.markdown_displays.get(0, 0).is_none());
    assert!(w.markdown_displays.get(2, 0).is_none());
    assert_eq!(w.markdown_displays.get(3, 0), Some(&s("reply 2")));

    // The reasoning finishes (its fold is kept) and the last answer streams:
    // a streaming text part gets no markdown view, it shows as plain text.
    w.reasoning_displays.rows[1][0].as_mut().unwrap().toggle();
    w.messages[1].parts[0] = MessagePart::Reasoning { text: s("hmm, ok"), state: Some(PartState::Done) };
    w.messages[3].parts[0] = MessagePart::Text { text: s("rep"), state: Some(PartState::Streaming) };
    let ups = w.sync_display_entities();
    assert_eq!(ups, vec![(1, 1, MarkdownUpdate::SetText)]);
    let r = w.reasoning_displays.get(1, 0).unwrap();
    assert_eq!(r.content, "hmm, ok");
    assert!(!r.collapsed);
    assert!(w.markdown_displays.get(3, 0).is_none());

    // Once it is done, its view is created from the whole text.
    w.messages[3].parts[0] = MessagePart::Text { text: s("reply 2!"), state: Some(PartState::Done) };
    let ups = w.sync_display_entities();
    assert_eq!(ups, vec![(1, 1, MarkdownUpdate::SetText), (3, 0, MarkdownUpdate::Create)]);
    assert_eq!(w.markdown_displays.get(3, 0), Some(&s("reply 2!")));

    // Forking at a user message drops the display objects after it.
    w.start_edit_message(s("u2"));
    assert!(matches!(w.send_message(s("again"), &Vec::new(), 0), SendPlan::Edit { .. }));
    assert_eq!(w.reasoning_displays.rows.len(), 3);
    assert_eq!(w.markdown_displays.rows.len(), 3);
}

#[test]
fn message_render_plans() {
    let mut m = msg("u1", Role::User, "look");
    assert!(!render_plan(&m).media);
    m.media.push(MediaItem { data: s("AAAA"), mime_type: s("image/png") });
    let plan = render_plan(&m);
    assert!(plan.media);
    assert_eq!(plan.rows, vec![LayoutItem::Single(0)]);
    let mut a = msg("a1", Role::Assistant, "done");
    a.media.push(MediaItem { data: s("AAAA"), mime_type: s("image/png") });
    a.parts.insert(0, MessagePart::ToolCall { name: s("bash"), args: s("{}"), state: None });
    a.parts.insert(1, MessagePart::ToolResult { name: s("bash"), output: s("ok"), details: None, state: None });
    let plan = render_plan(&a);
    assert!(!plan.media);
    assert_eq!(plan.rows, vec![LayoutItem::Pair { call: 0, result: 1 }, LayoutItem::Single(2)]);
}
