//! The decisions a voice session makes once a provider frame has been
//! normalized: who owns the speaker, whether a finished result may be spoken
//! now, when a session may sleep, and how user input is cleaned.

pub mod chars;
pub mod text;
pub mod provider;
pub mod clients;
pub mod strmap;
pub mod order;
pub mod clock;
pub mod permission;
pub mod response;
pub mod imap;
pub mod tables;
pub mod announcement;
pub mod turn;
pub mod gate;
pub mod session;
pub mod mode;
pub mod tools;
pub mod status;
pub mod locale;
pub mod pattern;
pub mod guards;
pub mod sleep;
pub mod frontend;
pub mod arbitration;
pub mod input;
pub mod prompt;
pub mod assets;
