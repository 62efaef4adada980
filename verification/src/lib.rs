//! Core logic of the novel downloader: configuration, book-source rules,
//! selector queries, page extraction, chapter selection, request policy,
//! the interface's state machine and the texts it shows.

pub mod text;
pub mod error;
pub mod model;
pub mod config;
pub mod query;
pub mod form_data;
pub mod rule;
pub mod catalog;
pub mod dom;
pub mod select;
pub mod support;
pub mod toc;
pub mod search;
pub mod book;
pub mod net;
pub mod service;
pub mod tui;
pub mod report;
pub mod panel;
