//! A minimal pastebin core: a write-once paste store keyed by short random
//! tokens. Submissions are stored with a server-assigned id and timestamp and
//! looked up by their token, either as a (content, title) pair for rendering
//! or as the bare content for the raw-text path.

pub mod db;
pub mod errors;
pub mod handlers;
