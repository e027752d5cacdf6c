//! The core of an e-book reader: markup stripping, chapter titles and
//! layout, page estimates, format dispatch, line search, a bounded document
//! cache with the steps that resolve chapter requests through it, and an
//! in-memory library of documents and reading positions.
pub mod text;
pub mod markup;
pub mod title;
pub mod model;
pub mod pages;
pub mod cover;
pub mod epub_layout;
pub mod formats;
pub mod dispatch;
pub mod search;
pub mod cache;
pub mod library;
pub mod stored;
