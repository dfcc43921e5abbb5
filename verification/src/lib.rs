//! Streaming speech-synthesis relay: the framing, session and transcoding
//! rules behind a text-to-speech client, stated as contracts and proved with
//! Verus.
//!
//! The library holds no sockets, clocks or files. Callers hand it bytes,
//! timestamps and upstream outcomes as plain values and act on what comes
//! back. Where it calls into another crate (JSON parsing, base64, WAV reading,
//! random ids), the call stands in a small function whose contract is taken on
//! trust and says so.
//!
//! - [`sse`] carves server-sent events out of a growing byte buffer.
//! - [`payload`] tells what one event payload asks for.
//! - [`relay`] turns upstream outcomes into the events of the local bus;
//!   [`handles`] keeps the table of running relays.
//! - [`server`] is the registry of pull-mode sessions, [`endpoint`] the
//!   decisions of the HTTP endpoint that serves them.
//! - [`request`] and [`upstream`] describe what is asked of the provider and
//!   what it can answer.
//! - [`wav`], [`audio`], [`level`] and [`rate`] transcode decoded audio to
//!   16-bit PCM; [`files`] names the temporary files that hold the result.
//! - [`text`] and [`helpers`] hold the text rules that the rest leans on.

pub mod audio;
pub mod endpoint;
pub mod error;
pub mod files;
pub mod handles;
pub mod helpers;
pub mod level;
pub mod payload;
pub mod rate;
pub mod relay;
pub mod request;
pub mod server;
pub mod sse;
pub mod text;
pub mod upstream;
pub mod wav;
mod wide;
