pub mod domain;
pub mod repo;
pub mod service;
pub mod text;
pub mod validators;
