//! Client-side codec for the replay catalog of Guilty Gear -Strive-.
//!
//! The crate builds the binary request for one page of replays, reads the
//! binary reply into [`Match`] records, and keeps the books of a query over
//! many pages: which page to ask for next, which matches have been seen,
//! and which records could not be read.  Sending a request over the network
//! is left to the caller:
//!
//! ```ignore
//! let mut query = get_replays(&Context::default(), 10, 30, QueryParameters::new())?;
//! loop {
//!     match query.next()? {
//!         Step::Send { url, data, .. } => query.receive(&post_form(&url, "data", &data)?),
//!         Step::Done => break,
//!     }
//! }
//! let (matches, errors) = query.finish();
//! ```
//!
//! A record that cannot be read does not spoil its page: it is reported as a
//! [`ParseError`] beside the matches of the other records.
//!
//! Every function is verified with Verus against the contract that it
//! states.  What is taken on trust are the calls into `chrono`, `rmp-serde`
//! and a few functions of the standard library; each of them stands in a
//! function of its own whose comment says what is assumed.

pub mod character;
pub mod error;
pub mod floor;
pub mod legacy;
pub mod match_set;
pub mod matches;
pub mod messagepack;
pub mod query;
pub mod requests;
pub mod stats;
pub mod text;
pub mod time;
pub mod vecs;

pub use character::Character;
pub use error::{Error, ErrorView, ParseError, ParseErrorView, Result};
pub use floor::Floor;
pub use legacy::{decode_legacy, decode_with_fallback, DecodeOutcome};
pub use match_set::MatchSet;
pub use matches::{Match, MatchView, Player, PlayerView, Winner};
pub use query::{Query, QueryParameters};
pub use requests::{
    decode, encode, get_replays, id_from_bytes, match_from_parts, match_from_replay, parse_response,
    show_buf, Context, ReplayQuery, ReplayQueryView, Step,
};
pub use stats::{MatchStats, Stats, User};
pub use time::Timestamp;
