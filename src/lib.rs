//! Page requests over an anonymous, unordered message transport: a wire codec for
//! the `ASK` / `GET` commands, locator parsing, the server's page cache and
//! dispatcher, and the client's request correlation and navigation state.
mod codec_frames;
pub mod text;
pub mod codec;
pub mod locator;
pub mod default_page;
pub mod cache;
pub mod server;
pub mod client;
pub mod links;
