//! Turns a directory of dated documents into the data of a paginated site:
//! ordered entries, index pages, a tag index and a feed.

pub mod builder;
pub mod config;
pub mod entry;
pub mod feed;
pub mod front_matter;
pub mod helpers;
pub mod ordering;
pub mod pagination;
pub mod render;
pub mod site;
pub mod tags;
pub mod text;
pub mod truncate;
