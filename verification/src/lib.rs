//! The concurrent core of a terminal text editor: a revision-tracked text
//! buffer, the edit session that drives it, frame pacing, highlighting,
//! render diffing, and the message bus that carries snapshots between them.
pub mod backing;
pub mod bouncer;
pub mod display;
pub mod editor;
pub mod format;
pub mod highlight;
pub mod mailbox;
pub mod pubsub;
pub mod state;
pub mod state_laws;
pub mod terminal;
pub mod text;
pub mod text_laws;
pub mod userinput;
