use mini_pi::chat::{
    chat_status_text, combined_content, decode_image, edit_target, fork_at, has_content_to_send,
    image_format_for_mime, initial_thinking_level, markdown_step, saved_workspace_id,
    session_file_name, start_edit_target, stop_streaming, text_part_view, thread_title, ChatState,
    EditRejection, ImageFormat, MarkdownUpdate, TextPartView,
};
use mini_pi::extension_ui::{
    confirm_response, immediate_response, plan_extension_ui, text_dialog_response, AnswerGuard,
    ExtensionResponse, ExtensionUiAction, ExtensionUiState, NotifyLevel,
};
use mini_pi::json::JsonValue;

fn s(x: &str) -> String {
    x.to_string()
}

fn obj(members: Vec<(&str, JsonValue)>) -> JsonValue {
    JsonValue::Object(members.into_iter().map(|(k, v)| (k.to_string(), v)).collect())
}

fn text(x: &str) -> JsonValue {
    JsonValue::Str(x.to_string())
}

#[test]
fn status_text_per_state() {
    assert_eq!(chat_status_text(&ChatState::Idle), None);
    assert_eq!(chat_status_text(&ChatState::Loading), Some(s("Loading...")));
    assert_eq!(chat_status_text(&ChatState::Streaming), Some(s("Thinking...")));
    assert_eq!(chat_status_text(&ChatState::Error(s("boom"))), Some(s("boom")));
}

#[test]
fn only_streaming_can_be_stopped() {
    let mut st = ChatState::Streaming;
    assert!(stop_streaming(&mut st));
    assert!(matches!(st, ChatState::Idle));
    let mut st = ChatState::Loading;
    assert!(!stop_streaming(&mut st));
    assert!(matches!(st, ChatState::Loading));
}

#[test]
fn titles_default_to_new_thread() {
    assert_eq!(thread_title(None), "New Thread");
    assert_eq!(thread_title(Some("")), "New Thread");
    assert_eq!(thread_title(Some("Plans")), "Plans");
}

#[test]
fn thinking_level_defaults() {
    assert_eq!(initial_thinking_level(Some(Some(s("high"))), Some(s("low"))), Some(s("high")));
    assert_eq!(initial_thinking_level(Some(None), Some(s("low"))), None);
    assert_eq!(initial_thinking_level(None, Some(s("low"))), Some(s("low")));
    assert_eq!(initial_thinking_level(None, None), Some(s("off")));
}

#[test]
fn message_with_attached_files() {
    let files = vec![(s("/a.txt"), s("one")), (s("/b.md"), s("two"))];
    assert_eq!(
        combined_content("hi", &files),
        "hi\n\n<file path=\"/a.txt\">\none\n</file>\n\n<file path=\"/b.md\">\ntwo\n</file>"
    );
    assert_eq!(combined_content("", &files[..1].to_vec()), "<file path=\"/a.txt\">\none\n</file>");
    assert_eq!(combined_content("plain", &Vec::new()), "plain");
    assert!(has_content_to_send("", 1));
    assert!(!has_content_to_send("", 0));
}

#[test]
fn editing_checks_message_and_role() {
    let ids = vec![s("m1"), s("m2"), s("m2")];
    let users = vec![true, false, true];
    assert_eq!(edit_target(&ids, &users, "m1"), Ok(0));
    assert_eq!(edit_target(&ids, &users, "m2"), Err(EditRejection::NotUser));
    assert_eq!(edit_target(&ids, &users, "zz"), Err(EditRejection::NotFound));
    assert_eq!(start_edit_target(&ids, &vec![true, true, true], "m2"), Some(1));
    assert_eq!(start_edit_target(&ids, &vec![true, false, true], "m2"), None);
}

#[test]
fn fork_replaces_and_truncates() {
    let mut v = vec![1, 2, 3, 4];
    fork_at(&mut v, 1, 9);
    assert_eq!(v, vec![1, 9]);
}

#[test]
fn streaming_text_is_not_parsed() {
    assert_eq!(markdown_step(false, true), None);
    assert_eq!(markdown_step(true, true), None);
    assert_eq!(markdown_step(false, false), Some(MarkdownUpdate::Create));
    assert_eq!(markdown_step(true, false), Some(MarkdownUpdate::SetText));
}

#[test]
fn session_file_names() {
    assert_eq!(session_file_name(None, 1712345678901234567), "session_1712345678901234567.jsonl");
    assert_eq!(session_file_name(Some(s("kept.jsonl")), 5), "kept.jsonl");
}

#[test]
fn text_part_buttons() {
    assert_eq!(text_part_view(true, Some("m"), "m", false, false), TextPartView::Editing);
    assert_eq!(text_part_view(false, Some("m"), "m", true, true), TextPartView::Waiting);
    assert_eq!(text_part_view(true, None, "m", false, false), TextPartView::Shown { copy: true, edit: true });
    assert_eq!(text_part_view(false, None, "m", true, false), TextPartView::Shown { copy: true, edit: false });
}

#[test]
fn mime_types_are_case_insensitive() {
    assert_eq!(image_format_for_mime("IMAGE/PNG"), Some(ImageFormat::Png));
    assert_eq!(image_format_for_mime("image/jpg"), Some(ImageFormat::Jpeg));
    assert_eq!(image_format_for_mime("image/vnd.microsoft.icon"), Some(ImageFormat::Ico));
    assert_eq!(image_format_for_mime("text/plain"), None);
}

#[test]
fn images_decode_from_base64() {
    let (f, bytes) = decode_image("aGVsbG8=", "image/gif").unwrap();
    assert_eq!(f, ImageFormat::Gif);
    assert_eq!(bytes, b"hello".to_vec());
    assert!(decode_image("not base64!", "image/gif").is_none());
    assert!(decode_image("aGVsbG8=", "image/heic").is_none());
}

#[test]
fn workspace_from_thread_metadata() {
    let md = obj(vec![("workspace_id", text("ws-9"))]);
    assert_eq!(saved_workspace_id(Some(&md)), Some(s("ws-9")));
    let md = obj(vec![("workspace_id", JsonValue::Bool(true))]);
    assert_eq!(saved_workspace_id(Some(&md)), None);
    assert_eq!(saved_workspace_id(None), None);
}

#[test]
fn extension_select_plans() {
    let payload = obj(vec![
        ("title", text("Pick")),
        ("options", JsonValue::Array(vec![text("a"), JsonValue::Bool(false), text("b")])),
    ]);
    match plan_extension_ui("select", &payload) {
        ExtensionUiAction::Select { title, options } => {
            assert_eq!(title, "Pick");
            assert_eq!(options, vec![s("a"), s("b")]);
        }
        _ => panic!("expected a choice"),
    }
    let empty = obj(vec![("options", JsonValue::Array(vec![JsonValue::Null]))]);
    let action = plan_extension_ui("select", &empty);
    assert!(matches!(action, ExtensionUiAction::CancelEmptySelect));
    assert!(matches!(immediate_response(&action), Some(ExtensionResponse::Cancelled)));
    match plan_extension_ui("select", &obj(vec![("options", JsonValue::Array(vec![text("x")]))])) {
        ExtensionUiAction::Select { title, .. } => assert_eq!(title, "Select"),
        _ => panic!("expected a choice"),
    }
}

#[test]
fn extension_dialog_defaults() {
    match plan_extension_ui("confirm", &JsonValue::Null) {
        ExtensionUiAction::Confirm { title, message } => {
            assert_eq!(title, "Confirm");
            assert_eq!(message, "");
        }
        _ => panic!(),
    }
    match plan_extension_ui("input", &obj(vec![("placeholder", text("name"))])) {
        ExtensionUiAction::Input { title, placeholder } => {
            assert_eq!(title, "Input");
            assert_eq!(placeholder, "name");
        }
        _ => panic!(),
    }
    match plan_extension_ui("editor", &obj(vec![("prefill", text("draft"))])) {
        ExtensionUiAction::Editor { title, prefill } => {
            assert_eq!(title, "Editor");
            assert_eq!(prefill, "draft");
        }
        _ => panic!(),
    }
    match plan_extension_ui("notify", &obj(vec![("notifyType", text("error")), ("message", text("bad"))])) {
        ExtensionUiAction::Notify { level, message } => {
            assert_eq!(level, NotifyLevel::Error);
            assert_eq!(message, "bad");
        }
        _ => panic!(),
    }
    match plan_extension_ui("notify", &obj(vec![("notifyType", text("weird"))])) {
        ExtensionUiAction::Notify { level, .. } => assert_eq!(level, NotifyLevel::Info),
        _ => panic!(),
    }
    let unknown = plan_extension_ui("dance", &JsonValue::Null);
    assert!(matches!(unknown, ExtensionUiAction::Unknown));
    assert!(matches!(immediate_response(&unknown), Some(ExtensionResponse::Cancelled)));
}

#[test]
fn extension_status_widgets_and_title() {
    let mut state = ExtensionUiState::new();
    state.apply(&plan_extension_ui("setStatus", &obj(vec![("statusKey", text("k")), ("statusText", text("busy"))])));
    assert_eq!(state.status.get("k"), Some(&s("busy")));
    state.apply(&plan_extension_ui("setStatus", &obj(vec![("statusKey", text("k"))])));
    assert_eq!(state.status.get("k"), None);
    state.apply(&plan_extension_ui(
        "setWidget",
        &obj(vec![("widgetKey", text("w")), ("widgetLines", JsonValue::Array(vec![text("l1"), text("l2")]))]),
    ));
    assert_eq!(state.widgets.get("w"), Some(&(vec![s("l1"), s("l2")], s("aboveEditor"))));
    state.apply(&plan_extension_ui("setWidget", &obj(vec![("widgetKey", text("w"))])));
    assert_eq!(state.widgets.get("w"), None);
}

#[test]
fn extension_select_answers() {
    let mut state = ExtensionUiState::new();
    let options = vec![s("a"), s("b")];
    state.apply(&ExtensionUiAction::Select { title: s("t"), options: options.clone() });
    assert_eq!(state.select_selected, Some(0));
    state.pick_option(1);
    assert!(matches!(state.close_select(true, &options), ExtensionResponse::Value(v) if v == "b"));
    assert_eq!(state.select_selected, None);
    state.pick_option(5);
    assert!(matches!(state.close_select(true, &options), ExtensionResponse::Cancelled));
    assert!(matches!(state.close_select(false, &options), ExtensionResponse::Cancelled));
}

#[test]
fn extension_answered_once() {
    let mut guard = AnswerGuard::new();
    assert!(guard.claim());
    assert!(!guard.claim());
    assert!(!guard.claim());
}

#[test]
fn extension_response_json() {
    match confirm_response(true).to_json() {
        JsonValue::Object(m) => {
            assert_eq!(m.len(), 1);
            assert_eq!(m[0].0, "confirmed");
            assert!(matches!(m[0].1, JsonValue::Bool(true)));
        }
        _ => panic!(),
    }
    match text_dialog_response(true, s("typed")).to_json() {
        JsonValue::Object(m) => {
            assert_eq!(m[0].0, "value");
            assert!(matches!(&m[0].1, JsonValue::Str(v) if v == "typed"));
        }
        _ => panic!(),
    }
    match text_dialog_response(false, s("typed")).to_json() {
        JsonValue::Object(m) => assert_eq!(m[0].0, "cancelled"),
        _ => panic!(),
    }
}
