pub mod decimal;
pub mod models;
pub mod runtime;
pub mod service;
pub mod text;
pub mod tools;
