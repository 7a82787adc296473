//! PaneBot: named mpv panes, the daemon that owns them, and the clients that drive it.
pub mod board;
pub mod boot;
pub mod client;
pub mod complete;
pub mod config;
pub mod connect;
pub mod console;
pub mod console_laws;
pub mod console_screen;
pub mod daemon;
pub mod desk;
pub mod desk_key_laws;
pub mod desk_keys;
pub mod desk_laws;
pub mod events;
pub mod file_laws;
pub mod glance;
pub mod glance_laws;
pub mod ini;
pub mod ini_laws;
pub mod json;
pub mod key_laws;
pub mod keys;
pub mod m3u;
pub mod manage;
pub mod mirror;
pub mod names;
pub mod node;
pub mod node_laws;
pub mod paths;
pub mod picks;
pub mod playlist_laws;
pub mod protocol;
pub mod protocol_laws;
pub mod screen;
pub mod screen_laws;
pub mod sender;
pub mod session_laws;
pub mod startup;
pub mod text;
pub mod text_laws;
pub mod tree_laws;
pub mod tui;
pub mod tui_keys;
pub mod typed;
pub mod typed_laws;
pub mod upkeep_laws;
pub mod walk;
pub mod watch;
pub mod watch_keys;
pub mod watch_laws;
pub mod watch_screen;
pub mod wizard;
pub mod wizard_laws;
pub mod wizard_screen;
