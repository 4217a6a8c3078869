//! Detection of look-alike domains in the links of chat messages.
//!
//! A link is suspicious when the host of its URL is a few edits away from a
//! protected domain without being that domain, as `dizcord.com` is from
//! `discord.com`.
//!
//! - [`distance`] computes the edit distance between two sequences.
//! - [`metric`] proves that the distance is a metric, and [`edits`] that it
//!   is the least number of single edits that lead from one sequence to the
//!   other.
//! - [`detector`] holds the policy that turns distances into a verdict on a
//!   host name or a URL.
//! - [`message`] turns the links of a chat message into warnings.
//! - [`trusted`] holds the calls into the crates that parse URLs and find
//!   links in text, with what is assumed of them.

pub mod detector;
pub mod distance;
pub mod edits;
pub mod message;
pub mod metric;
pub mod trusted;
