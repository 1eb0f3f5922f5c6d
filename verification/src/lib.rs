//! A gateway that speaks the OpenAI HTTP API in front of Gemini Web.
pub mod json;
pub mod text;

pub mod attachments;
pub mod config;
pub mod cookies;
pub mod digest;
pub mod frames;
pub mod gemini;
pub mod history;
pub mod http;
pub mod ids;
pub mod openai;
pub mod pool;
pub mod routing;
pub mod warmup;

pub mod admin;
pub mod catalog;
pub mod chat;
pub mod images;
pub mod pictures;
pub mod responses;
pub mod vision;
