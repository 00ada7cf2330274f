pub mod auth;
pub mod collector;
pub mod forwarder;
pub mod messages;
pub mod models;
pub mod settings;
pub mod streamer;
