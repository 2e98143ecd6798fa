//! What holds of the library as a whole.

pub mod agreement;
pub mod arrivals;
pub mod blocks;
pub mod caching;
pub mod candidates;
pub mod chat_contents;
pub mod chat_requests;
pub mod deltas;
pub mod documents;
pub mod endings;
pub mod failures;
pub mod gemini_contents;
pub mod gemini_requests;
pub mod hearing;
pub mod identity;
pub mod keys;
pub mod losses;
pub mod messages;
pub mod options;
pub mod overrides;
pub mod refusals;
pub mod replay;
pub mod requests;
pub mod responses_contents;
pub mod responses_requests;
pub mod retelling;
pub mod spelling;
pub mod streams;
pub mod tokens;
pub mod transcripts;
pub mod usage;
pub mod wire;
