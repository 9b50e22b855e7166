//! A two-stage audio streaming pipeline: bounded byte queues between stages,
//! length-prefixed framing of decoded PCM, an MP3 decode stage, a network
//! ingest stage and a paced playback stage.

pub mod bytes;
pub mod decode;
pub mod error;
pub mod frame;
pub mod ingest;
pub mod playback;
pub mod ring;

pub use decode::{decode_queue, decode_task, DecodeOutcome, Decoded};
pub use error::Error;
pub use frame::{read_frame_header, read_frame_payload, release_frame, write_frame, write_pcm_frame};
pub use ingest::{enqueue_bytes, on_socket_read, IngestOutcome, SocketRead};
pub use playback::{play_task, pulse_for_sample, PlayAction, Player, Pulse};
pub use ring::{ByteQueue, ReadGrant, WriteGrant, QUEUE_CAPACITY};
