//! Composable, styled document content.
//!
//! A [`Content`](content::Content) is an element of a document: a function that tells what kind of
//! element it is, and a list of attributes. Attributes are fields, children, styles, and marks
//! such as spans, guards and locations.

pub mod attr;
pub mod cast;
pub mod concat;
pub mod content;
pub mod debug;
pub mod eco;
pub mod elem;
pub mod equality;
pub mod fields;
pub mod laws;
pub mod laws_apart;
pub mod laws_attrs;
pub mod laws_elem;
pub mod laws_eq;
pub mod laws_fields;
pub mod laws_message;
pub mod laws_query;
pub mod laws_views;
pub mod message;
pub mod meta;
pub mod model;
pub mod place;
pub mod query;
pub mod selector;
pub mod seqs;
pub mod style;
pub mod value;
