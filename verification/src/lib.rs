//! Backend logic of a desktop chat client that talks to a local model server.
//!
//! The server answers a generation request with a body that arrives as byte
//! chunks cut at arbitrary places. The [`reassembler`] joins those chunks back
//! into response records; [`stream`] wraps it into the event loop that a
//! transport drives, and [`laws`] proves what holds of every response.
//! [`models`] decides whether a model has to be pulled first, [`config`] holds
//! the stored configuration, and [`error`] names what can go wrong.
//!
//! [`json`] and [`text`] are the boundary to code that is not verified here:
//! the JSON parser and the lossy UTF-8 decoder.

pub mod config;
pub mod error;
pub mod json;
pub mod laws;
pub mod models;
pub mod reassembler;
pub mod record;
pub mod stream;
pub mod text;

pub use config::Config;
pub use error::Error;
pub use reassembler::{reassemble, Reassembler};
pub use record::{parse_record, read_record, GenerationRequest, GenerationResponseChunk};
pub use stream::{relay, step, Relayed, Step, StreamEvent};
