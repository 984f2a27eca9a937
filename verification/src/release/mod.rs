//! The rules of the project's release process: changelog edits, the
//! branches a release may be cut from, and the checks before tagging.

pub mod changelog;
pub mod check;
pub mod tag;
pub mod paths;
pub mod manifest;
