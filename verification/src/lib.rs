//! Compares two follower lists, each a table of `(user id, user name)` rows, and tells
//! whether the list grew, shrank or kept its size, together with the followers that
//! are on one side only.

pub mod differ;
pub mod loader;
pub mod record;
pub mod record_set;
pub mod reporter;
pub mod text;
