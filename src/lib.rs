//! A non-blocking handoff between a callback-driven producer (a browser
//! file-upload handler) and a tick-driven consumer (a game engine's update
//! loop).
//!
//! * [`payload`]: the value carried across.
//! * [`channel`]: the transfer channel, an unbounded FIFO queue.
//! * [`trigger`]: what an upload event does to the channel.
//! * [`poll`]: what each engine tick takes from the channel.
pub mod channel;
pub mod payload;
pub mod poll;
pub mod trigger;

pub use channel::TransferChannel;
pub use payload::Payload;
pub use poll::poll_tick;
pub use trigger::{file_to_read, ingest, IngestError, Ingested, Upload};
