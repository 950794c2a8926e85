use vstd::prelude::*;

pub mod text;
pub mod constants;
pub mod order;
pub mod format;
pub mod dates;
pub mod paths;
pub mod context_menu;
pub mod listing;
pub mod archive;
pub mod types;
pub mod explorer;
pub mod ops;
pub mod utils;
pub mod view;
pub mod sidebar;
