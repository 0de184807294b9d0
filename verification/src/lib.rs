//! Feed store, fetch scheduling and delivery policy of a feed-to-chat notifier.
//!
//! The store keeps feeds and their subscribers in step with each other, detects
//! new items by a bounded history of content hashes, and tells its owner when
//! the state has to be written out. The scheduling and delivery rules are pure
//! decisions; the program around this library performs the waiting and the
//! network traffic.
//!
//! - [`data`]: the store and its operations; [`model`] says what each of them
//!   does, [`laws`] what holds of them together.
//! - [`fetcher`]: the delay before a fetch, the queue of waiting feeds, the
//!   throttle.
//! - [`delivery`]: what follows a failed fetch or a send.
//! - [`handlers`] and [`listing`]: the rules behind the chat commands.
//! - [`clock`], [`feed`], [`history`], [`tables`], [`text`], [`lexical`]:
//!   what the others are built from.

pub mod clock;
pub mod data;
pub mod delivery;
pub mod feed;
pub mod fetcher;
pub mod handlers;
pub mod history;
pub mod laws;
pub mod lexical;
pub mod listing;
pub mod model;
pub mod tables;
pub mod text;
