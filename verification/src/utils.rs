//! The pieces of the pipeline up to the staged files: the platform's records,
//! request building and pagination, the duplicate gate, and download outcomes.

pub mod api;
pub mod fetch;
pub mod text;
pub mod validate;
pub mod vidproc;
