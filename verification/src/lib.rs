pub mod assoc;
pub mod bookmarks;
pub mod client;
pub mod config;
pub mod codec;
pub mod gemini;
pub mod hosts_file;
pub mod known_hosts;
pub mod parser;
pub mod status;
pub mod text;
