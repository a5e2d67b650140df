//! Novel Studio AI: the logic of a desktop IDE for writing novels with
//! optional AI assistance, with its behaviour stated in contracts and
//! proved.
//!
//! - `text`: character-level string operations shared by everything else.
//! - `readability`: local manuscript statistics (no AI involved).
//! - `export`: TXT, Markdown, HTML, DOCX and EPUB export of a work.
//! - `ai`: prompts, context assembly, provider requests and replies, keys.
//! - `json`: the JSON model the provider replies are read from.
//! - `backup`, `migrations`, `session`, `documents`: the database's
//!   snapshots, schema steps, crash marker and revision policy.
//! - `models`, `error`: the records and the error type.
pub mod ai;
pub mod backup;
pub mod documents;
pub mod error;
pub mod export;
pub mod json;
pub mod migrations;
pub mod models;
pub mod readability;
pub mod session;
pub mod text;
