//! Verified core of an OpenList CDN preheating tool.

pub mod text;
pub mod models;
pub mod url;
pub mod rate_limit;
pub mod crawl;
pub mod api;
pub mod preheat;
pub mod dispatch;
