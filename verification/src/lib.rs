//! The Gopher side of a web gateway to Gopher-space: item types, addresses,
//! menu entries and menus, the request a fetch sends, the check that tells a
//! server's error line from content, the pages that show what came back, and
//! the per-client request counter.

pub mod ansi;
pub mod entry;
pub mod error;
pub mod escape;
pub mod fetch;
pub mod gopher;
pub mod item;
pub mod limiter;
pub mod menu;
pub mod menu_laws;
pub mod number;
pub mod page;
pub mod row;
pub mod text;
pub mod url;
pub mod url_laws;
