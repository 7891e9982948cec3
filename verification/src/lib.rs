//! An exact-match ranking criterion for a full-text search result pipeline.
//!
//! Given the match data of a candidate document — which query words were
//! found where, and whether each occurrence is a verbatim (exact) match —
//! the scorer counts the distinct query words that were matched exactly.
//! A document in which some exactly matched field consists of that single
//! word receives a dominant sentinel score that outranks every finite count.
//! The criterion compares two documents by these scores, higher score first.

pub mod exact;
pub mod fields;
pub mod laws;

pub use exact::Exact;
pub use exact::RawDocument;
pub use exact::number_exact_matches;
pub use fields::AttrCount;
pub use fields::FieldsCounts;
