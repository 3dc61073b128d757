pub mod book;
pub mod greeting;
pub mod laws;
pub mod store;
