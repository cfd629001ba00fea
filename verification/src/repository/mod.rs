pub mod project_file_repository;
pub mod project_repository;
pub mod project_source_repository;
pub mod project_tag_repository;
