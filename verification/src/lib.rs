//! Verified core of a websocket shell server: the message protocol, the
//! registry of interactive shells, port-forward routing, language-server
//! framing and the file-system commands.
pub mod text;
pub mod protocol;
pub mod server;
pub mod pattern;
pub mod port_forward;
pub mod lang_servers;
pub mod process_dir;
