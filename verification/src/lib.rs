pub mod crypto;
pub mod easy_open;
pub mod gui;
pub mod index_set;
pub mod license;
pub mod message;
pub mod mirror;
pub mod outside;
pub mod platform;
pub mod rx;
pub mod text;
pub mod uuid_text;
