//! Scraping helpers for the examination material archive of the State
//! Examinations Commission.
//!
//! The archive is driven by a multi-step HTML form. [`stages`] builds the form
//! fields for each step, [`parser`] turns the HTML that a step returns into
//! option lists and material links, and [`metadata`] decodes the labels that
//! the site shows.
pub mod consts;
pub mod error;
pub mod metadata;
pub mod page;
pub mod parser;
pub mod stages;
pub mod text;
