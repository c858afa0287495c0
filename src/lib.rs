//! Resource projection for an interactive cluster shell: numbered, sortable,
//! filterable list tables over resource trees, and vertical describe reports
//! with a redaction policy for secret data.

pub mod age;
pub mod command;
pub mod describe;
pub mod filter;
pub mod keyval;
pub mod list;
pub mod rows;
pub mod sort;
pub mod text;
pub mod transforms;
pub mod value;
