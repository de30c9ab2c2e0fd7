//! Virtual file system: file descriptors.
pub mod fd;
