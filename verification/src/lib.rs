pub mod collector;
pub mod encoding;
pub mod error;
pub mod files;
pub mod modules;
pub mod request;
pub mod response;
pub mod text;
