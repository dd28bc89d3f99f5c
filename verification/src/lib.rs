//! Review, seal and verify the exact content of an outbound message (an e-mail, a chat
//! post, a social post, a form submission): recipients, final body and attachments are
//! recorded in one manifest, and an approval records the SHA-256 of that content so that any
//! later change is detected. Nothing here sends anything.
pub mod body;
pub mod check;
pub mod digest;
pub mod email;
pub mod error;
pub mod json;
pub mod laws;
pub mod manifest;
pub mod paths;
pub mod placeholder;
pub mod promises;
pub mod review;
pub mod run;
pub mod seal;
pub mod text;
pub mod unique;
