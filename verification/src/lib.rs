//! Front-matter parsing, post model and recommendation logic of the
//! genealogy blog tooling, with contracts checked by Verus.

pub mod text;
pub mod pattern;
pub mod utils;
pub mod date;
pub mod exception;
pub mod article;
pub mod try_iterator;
pub mod post;
pub mod genealogy;
pub mod genealogist;
pub mod process_details;
pub mod text_parser_tests;
pub mod recommendation;
