//! Build directives in the comments of a single source file: reading them, folding them into
//! a project, and settling the versions of its dependencies with the help of a record of the
//! last run.

pub mod cache;
pub mod crates;
pub mod directives;
pub mod hash;
pub mod manifest;
pub mod model;
pub mod parse;
pub mod project;
pub mod shell;
pub mod source;
pub mod table;
pub mod text;

pub use cache::VersionCache;
pub use source::get_comment_texts;
