//! Watches an RSS feed for the items that a watch-list asks for.
//!
//! The library decides; it performs nothing. A run over a feed and a
//! watch-list yields the steps to carry out, in order, and the tracking
//! state that they leave ([`engine`], [`run`]). A transfer is taken through
//! its stages one answer at a time ([`download`]). What was fetched, opened,
//! written or stored is reported back by the caller, who owns the network,
//! the file system and the store.

pub mod args;
pub mod download;
pub mod engine;
pub mod feed;
pub mod laws;
pub mod matching;
pub mod nesting;
pub mod report;
pub mod run;
pub mod settings;
pub mod text;
pub mod tracking;
pub mod watchlist;
