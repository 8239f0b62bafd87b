//! Looking up song lyrics on an LRCLIB server.
//!
//! The library decides; whoever uses it talks to the server. A lookup begins with the request for
//! one track (`get`), whose outcome is handed to `lookup::request_raw`. From then on each `Step`
//! either asks for a search (`search`) or ends the lookup. `http` says when a request is sent again.
//!
//! What a search found is compared with the wanted track by `names`, `duration` and `fallback`;
//! `text` and `patterns` hold what these need of the standard library and of the `regex` crate, and
//! `tools` the functions that the application lends. `choice`, `spelling`, `wording`, `course`
//! and `behaviour` state what holds of it all.

pub mod behaviour;
pub mod choice;
pub mod course;
pub mod duration;
pub mod error;
pub mod fallback;
pub mod get;
pub mod http;
pub mod lookup;
pub mod names;
pub mod patterns;
pub mod search;
pub mod spelling;
pub mod text;
pub mod tools;
pub mod wording;
