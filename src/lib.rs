//! Client-side building blocks for a brokerage's market-data push feed: an exact
//! fixed-precision decimal codec, an option-symbol codec, the schema registry and
//! the streaming protocol state machine.

pub mod api;
pub mod common;
pub mod context;
pub mod csv;
pub mod decimal;
pub mod messages;
pub mod registry;
pub mod session;
pub mod request;
pub mod streamer;
pub mod symbol;
pub mod text;
