//! The types of the Gopher side under one roof.

pub use crate::entry::DirEntry;
pub use crate::error::GopherError;
pub use crate::fetch::{accept_head, plan_fetch, FetchPlan};
pub use crate::item::{ContentType, GopherItem};
pub use crate::menu::Menu;
pub use crate::url::GopherURL;
