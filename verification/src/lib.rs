//! The data model and streaming core of a structured-data shell: typed
//! values with their casting, equality, ordering and hashing rules, streams
//! of rows, two stream operators and the table renderer.

pub mod cast;
pub mod errors;
pub mod files;
pub mod glob;
pub mod hash;
pub mod order;
pub mod ordering;
pub mod path_order;
pub mod stream;
pub mod stream_printer;
pub mod text;
pub mod time;
pub mod types;
pub mod type_syntax;
pub mod uniq;
pub mod value;
pub mod value_text;
pub mod zip;
