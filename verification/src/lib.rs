//! Editor support for the C3 language: how to start its language server and
//! how to colour the entries of a completion list.
//!
//! The editor's highlighter only understands source code, so a completion
//! entry is coloured by handing the highlighter a small made-up piece of C3
//! code that holds the entry's name and detail text, together with the byte
//! ranges of that code that are to be shown.

pub mod label;
pub mod server;
pub mod text;
