//! File, FileReader and File System APIs.
pub mod blob;
pub mod file;
pub mod file_reader;
pub mod file_system;
