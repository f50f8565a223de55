//! The verified core of a local ChatGPT-style backend: request checks,
//! validation rules, error answers, conversation ordering, and the
//! OpenRouter provider's request building and stream decoding.
pub mod chat;
pub mod config;
pub mod conversations;
pub mod db;
pub mod error;
pub mod guard;
pub mod json;
pub mod models;
pub mod provider;
pub mod sse;
pub mod text;
