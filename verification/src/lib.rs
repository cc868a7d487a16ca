//! The tab row of a terminal shell: where its tabs, buttons and status areas
//! go, what is painted there, and how its status entries are configured.

pub mod config;
pub mod config_laws;
pub mod datetime;
pub mod layout_laws;
pub mod model;
pub mod paint;
pub mod rect;
pub mod row;
pub mod row_laws;
pub mod row_paint_laws;
pub mod scroll;
pub mod scroll_laws;
pub mod status;
pub mod status_laws;
pub mod status_paint;
pub mod status_paint_laws;
pub mod strip;
pub mod strip_laws;
pub mod tabs;
pub mod tabs_laws;
pub mod text;
pub mod text_laws;
