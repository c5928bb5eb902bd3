//! Data acquisition and drop-session coordination for drag-and-drop and
//! clipboard data offered by an external provider.

pub mod error;
pub mod text;
pub mod formats;
pub mod blob;
pub mod data_reader;
pub mod drop_context;
pub mod access;
pub mod stream_reader;
pub mod virtual_file;
