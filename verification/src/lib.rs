//! Path confinement and file model for a storage tree served to
//! authenticated users.

pub mod error;
pub mod text;
pub mod codec;
pub mod path_model;
pub mod path;
pub mod path_laws;
pub mod file;
pub mod file_laws;
pub mod delete;
