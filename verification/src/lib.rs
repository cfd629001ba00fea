pub mod db;
pub mod db_manager;
pub mod migration;
pub mod models;
pub mod pages;
pub mod repository;
pub mod sql_value;
pub mod text;
