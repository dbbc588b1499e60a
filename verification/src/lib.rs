//! Autonomous decision-making core of a mail client: it classifies incoming
//! messages by importance, learns sender importance and behavioral rules from
//! user actions, periodically re-evaluates its own accuracy, and proactively
//! drafts replies for urgent mail.
//!
//! Network transports, the persistent storage engine and the UI are external
//! collaborators: this crate holds the verified decision logic and speaks to
//! them through plain values.

pub mod types;
pub mod text;
pub mod store;
pub mod classifier;
pub mod completion;
pub mod skills;
pub mod drafting;
pub mod scheduler;
pub mod arrivals;
pub mod html;
pub mod datetime;
pub mod mail;
