//! Turns a tree of content files into the pages, copies and directories of a
//! static, browsable site.

pub mod breadcrumbs;
pub mod classify;
pub mod error;
pub mod listing;
pub mod load;
pub mod page;
pub mod site;
pub mod text;
pub mod tree;
