//! Turns the commit history of a repository into the items and channel
//! fields of a syndication feed.
pub mod paths;
pub mod text;
pub mod order;
pub mod outside;
pub mod ignore;
pub mod commit;
pub mod channel;
