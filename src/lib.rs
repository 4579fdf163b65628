pub mod commands;
pub mod file_todo_repository;
pub mod laws;
pub mod model;
pub mod todo;
