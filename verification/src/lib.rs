//! Wire protocol codecs for text generation providers.

pub mod assembler;
pub mod body;
pub mod codecs;
pub mod content;
pub mod envelope;
pub mod errors;
pub mod gemini;
pub mod json;
pub mod laws;
pub mod openai;
pub mod openai_chat;
pub mod options;
pub mod response;
pub mod serial;
pub mod text;
pub mod types;
