//! Announcements: finished Work presented to the user at a moment the user
//! is not talking and the model is not answering.

pub mod window;
pub mod format;
pub mod manager;
