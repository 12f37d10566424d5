//! Text messages for an incoming-webhook connector: the adaptive-card envelope
//! that carries a plain text, its JSON document, and the one HTTP POST that
//! delivers it.
//!
//! * [`json`]: compact JSON text, and what is proved of its strings;
//! * [`envelope`]: the message, its fixed fields and its text;
//! * [`document`]: the JSON document of a message;
//! * [`frame`]: the document as fixed text around the escaped message;
//! * [`sender`]: the target URL and the request that a send makes.
pub mod document;
pub mod envelope;
pub mod frame;
pub mod json;
pub mod sender;
