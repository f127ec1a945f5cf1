//! Rules for talking to an OpenAI-compatible audio API: endpoint URLs, request
//! plans, response checks and sanitized error messages.
pub mod endpoints;
pub mod health;
pub mod models;
pub mod transcription;
