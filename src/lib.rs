//! Time-bounded, tamper-evident license tokens: a canonical signing input,
//! an HMAC-SHA256 signature in lowercase hex, a base64 transport envelope and
//! an inclusive validity window.
pub mod date;
pub mod hexfmt;
pub mod issue;
pub mod laws;
pub mod license;
pub mod meta;
pub mod primitives;
pub mod service;
