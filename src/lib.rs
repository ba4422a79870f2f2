//! Read-only text and image utilities: line counting, ranged line extraction,
//! pattern search and token estimation over file bytes; image format sniffing,
//! dimension probing and base64 transcoding over byte buffers; and a small
//! in-memory store of user records.

pub mod image_ops;
pub mod search;
pub mod text;
pub mod tokens;
pub mod user_service;
