//! Page-storage layer of an embedded document database.
//!
//! A file is treated as a sequence of fixed-size, individually addressable
//! pages.  This crate provides the in-memory mirror of one page
//! ([`page::RawPage`]), the codec for the distinguished header page
//! ([`header_page_utils`]), the free-list decoding built on that header
//! region, and the typed, chainable framing of content pages
//! ([`content_page`]).

pub mod content_page;
pub mod header_page_utils;
pub mod page;
