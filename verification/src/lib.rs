//! A provider-agnostic client library for LLM completion services.
//!
//! The crate models conversations as ordered input items, parses
//! `text/event-stream` bytes into SSE events, normalizes the stream dialects
//! of three providers (OpenAI Responses, Gemini on Vertex, Anthropic on
//! Vertex) into one canonical event stream, and folds that stream into a
//! complete response that can be appended back onto a prompt.
//!
//! The stream laws live beside the code they govern, as public proof
//! functions: chunk-boundary independence of the framer in [`sse`];
//! single-`Done`, no-empty-delta, announcement and round-trip laws in
//! [`openai`], [`google`] and [`anthropic`]; determinism and the
//! announcement of every buffered call in [`accumulator`].

pub mod accumulator;
pub mod anthropic;
pub mod config;
pub mod error;
pub mod factory;
pub mod google;
pub mod openai;
pub mod prompt;
pub mod response;
pub mod sse;
pub mod streaming;
pub mod strutil;
pub mod types;
