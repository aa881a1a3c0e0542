//! Core logic of the Doit todo application: the data model, the todo list
//! operations, statistics over completion dates, label management, settings
//! handling and the WebDAV sync protocol decisions.

pub mod types;
pub mod text;
pub mod dates;
pub mod webdav;
pub mod sort;
pub mod todos;
pub mod timeline;
pub mod stats;
pub mod session;
pub mod labels;
pub mod http;
pub mod settings;
pub mod backup;
pub mod laws;
pub mod assets;
