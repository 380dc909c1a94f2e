//! ALzed: the logic of a bridge between an editor that speaks plain LSP and the AL
//! language server, and of the editor extension that starts it.

pub mod client;
pub mod codec;
pub mod config;
pub mod extension;
pub mod framing;
pub mod handshake;
pub mod history;
pub mod json;
pub mod jsonc;
pub mod paths;
pub mod progress;
pub mod rpc;
pub mod server;
pub mod session;
pub mod settings;
pub mod snippets;
pub mod text;
pub mod tokens;
pub mod trigger;
