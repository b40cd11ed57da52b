//! Client-side core of a streaming chat-completion exchange.

pub mod config;
pub mod decoder;
pub mod error;
pub mod frame;
pub mod json;
pub mod request;
pub mod response;
pub mod stream;
pub mod template;
pub mod text;
