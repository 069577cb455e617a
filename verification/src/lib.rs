//! Favicon discovery: picks the best site icon out of a fetched home page.
//!
//! The page itself is fetched by the caller. Given the origin the page was
//! served from, its HTML and its `Set-Cookie` headers, this library selects
//! the icon links, makes their addresses absolute, scores them and returns
//! them best first, always with a default `/favicon.ico` candidate.

pub mod icon;
pub mod text;
pub mod pattern;
pub mod priority;
pub mod href;
pub mod rank;
pub mod document;
pub mod cookies;
pub mod resolve;
pub mod request;
