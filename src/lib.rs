//! Builds a static search index from a tree of HTML documents.
//!
//! The library decides which files are indexed, extracts a title and body
//! text from each, composes its public URL, and frames the documents as one
//! JSON array in the order in which the traversal found them. Walking the
//! file system and writing the result are left to the caller.
pub mod document;
pub mod extract;
pub mod index;
pub mod laws;
pub mod paths;
