//! The AI layer: prompts, context assembly, provider requests and key
//! storage. Nothing outside it depends on it, so the writing tools work
//! without any AI configured.
pub mod analysis;
pub mod anthropic;
pub mod features;
pub mod gemini;
pub mod http_client;
pub mod keystore;
pub mod openai_compatible;
pub mod provider;
pub mod requests;
pub mod context_builder;
