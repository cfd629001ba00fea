pub mod file;
pub mod project;
pub mod project_source;
pub mod project_tag;
