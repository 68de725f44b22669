//! Deleting every message between two bookend messages of a channel.
//!
//! The platform hands out history in pages of at most a hundred messages, in
//! no promised order, and deletes in bulk only what is younger than fourteen
//! days. So a deletion goes page by page: each page is put in order
//! ([`paginator`]), split into what must go one by one and what may go in
//! bulk ([`partitioner`]), and turned into delete calls ([`executor`]). The
//! [`orchestrator`] runs the whole as a state machine ([`workflow`]), from
//! the check of the requester's rights ([`permission`]) and the ordering of
//! the two bookends ([`resolver`]) to the final count, and [`notice`] words
//! what the requester is told. [`laws`] holds what is proved of all of it.

pub mod clock;
pub mod error;
pub mod executor;
pub mod laws;
pub mod message;
pub mod notice;
pub mod orchestrator;
pub mod paginator;
pub mod partitioner;
pub mod permission;
pub mod resolver;
pub mod workflow;
