//! Verified core of a CommonMark viewer: search-match bookkeeping, the
//! layout decisions of the renderer, and the markdown event processing that
//! sits between the parser and the user interface.

pub mod search;
pub mod elements;
pub mod pulldown;
pub mod alerts;
pub mod misc;
pub mod matches;
pub mod blocks;
pub mod options;
pub mod render;
pub mod fetch_data;
pub mod laws;
pub mod table;
pub mod data_url;
