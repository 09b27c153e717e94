//! User input: the parts one turn carries, how they are validated, and how
//! attachments are anchored in the turn's text.

pub mod parts;
pub mod turn;
pub mod anchors;
pub mod projection;
