//! Selection engine for concatenating project files: pattern matching on
//! paths, a verified directory-tree scan, project-type inference from marker
//! files, and planning of the rule sets.

pub mod choice;
pub mod dir;
pub mod pattern;
pub mod plan;
pub mod project_type;
pub mod text;
