//! View-model logic of the Mini Pi desktop client: the decisions, text
//! formatting, list bookkeeping and small state machines behind each view,
//! kept apart from the GUI toolkit that draws them.

pub mod auth;
pub mod chat;
pub mod chat_app;
pub mod chat_window;
pub mod create_thread_button;
pub mod display_slots;
pub mod extension_ui;
pub mod file_size;
pub mod installers;
pub mod json;
pub mod keyed;
pub mod message_layout;
pub mod mini_app;
pub mod onboarding;
pub mod paths;
pub mod reasoning;
pub mod search_pager;
pub mod settings;
pub mod skills;
pub mod status_bar;
pub mod text;
pub mod thread_list;
pub mod tool_call;
pub mod user_panel;
pub mod workspaces;
