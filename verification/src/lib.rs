//! What `llmman launch` decides, writes and runs for each agent integration.

pub mod agy;
pub mod args;
pub mod capabilities;
pub mod codex;
pub mod comments;
pub mod documents;
pub mod dsh;
pub mod endpoint;
pub mod goose;
pub mod grok;
pub mod hermes;
pub mod json;
pub mod launch;
pub mod lines;
pub mod opencode;
pub mod paths;
pub mod pi;
pub mod preflight;
pub mod providers;
pub mod qwen;
pub mod registry;
pub mod run;
pub mod settings;
pub mod text;
pub mod value;
pub mod yaml;
