//! Anonymises research-information records: an identity registry, a
//! sanitizer for person and research records, and a cross-reference store.

pub mod combined;
pub mod errors;
pub mod formatting;
pub mod json_concepts;
pub mod json_fingerprint;
pub mod json_person;
pub mod json_research;
pub mod locale;
pub mod text;
pub mod uuid_map;
pub mod uuid_text;
