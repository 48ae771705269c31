//! A language server core for Unity projects: document snapshots, the
//! asset-reference code lens, and the decisions of the server loop.

pub mod path_order;
pub mod paths;
pub mod syntax;
pub mod text;
pub mod capabilities;
pub mod document_storage;
pub mod server;
