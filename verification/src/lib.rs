//! Grammar registration for the Pluto language in the Zed editor.
//!
//! The crate holds what the editor's plugin interface asks of a language
//! extension that ships a grammar and no language server: a registry of
//! grammars, and the extension object that owns it.

pub mod extension;
pub mod registry;
