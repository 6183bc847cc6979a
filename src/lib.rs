//! Streaming assembly of a stored ZIP archive from entries whose bytes arrive
//! in chunks, and the decisions of the run that fetches and writes them.
pub mod checksum;
pub mod archive;
pub mod layout;
pub mod pipeline;
