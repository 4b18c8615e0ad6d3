pub mod account;
pub mod attachments;
pub mod backend;
pub mod config;
pub mod envelopes;
pub mod filename;
pub mod flags;
pub mod mailboxes;
pub mod messages;
pub mod size;
pub mod table;
pub mod text;
pub mod wizard;
