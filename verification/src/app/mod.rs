//! The state of the front end and the rules by which it changes.

pub mod accept;
pub mod accept_laws;
pub mod agent_conn;
pub mod agent_event;
pub mod agent_events;
pub mod chat_laws;
pub mod chat_state;
pub mod dispatch;
pub mod display;
pub mod display_laws;
pub mod edit_laws;
pub mod editing;
pub mod event_laws;
pub mod file_watcher;
pub mod frame;
pub mod front;
pub mod hit_test;
pub mod input_laws;
pub mod input_state;
pub mod key_laws;
pub mod layout_cache;
pub mod order_kept;
pub mod order_laws;
pub mod pane_laws;
pub mod queue_state;
pub mod report_laws;
pub mod saving;
pub mod search_laws;
pub mod send_laws;
pub mod session_laws;
pub mod session_manager;
pub mod session_state;
pub mod session_switch;
pub mod session_tree;
pub mod startup;
pub mod steps_chat;
pub mod steps_input;
pub mod steps_panes;
pub mod steps_paste;
pub mod steps_search;
pub mod steps_send;
pub mod store_laws;
pub mod term_keys;
pub mod term_mouse;
pub mod ui_state;
