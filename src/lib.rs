//! Fixed-frame binary transport over a byte stream.
//!
//! The library holds the decisions of a message endpoint that moves
//! frames of a fixed size over a stream: how a payload becomes a frame,
//! how the bytes that reads hand back are gathered into frames, and which
//! error each failure is reported as. Reading and writing the stream
//! itself, and turning messages into payload bytes, are left to the caller.

mod error;
mod frame;

pub use error::TcpCommError;
pub use frame::{
    frame_or_read, lemma_frames_in_send_order, lemma_round_trip, lemma_step_keeps_bytes, zero_padded,
    FixedFrame, FixedFrame512, FixedFrameK1, FixedFrameK2, ReadEvent, RecvStep,
};
pub use error::error_text;
