//! Lists the pull requests of a repository that were merged after a given one.
//!
//! The library decides; the caller fetches. It walks a newest-first listing of
//! closed pull requests page by page until the page that holds the target, and
//! then keeps the records merged strictly later than the target was.

pub mod errors;
pub mod link;
pub mod pulls;
pub mod record;
pub mod text;
pub mod time;
pub mod view;
