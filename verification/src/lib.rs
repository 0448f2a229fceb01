//! Ogg container pages: the page checksum, the lacing of payloads into
//! segments, the wire codec, and reader and writer state machines that do no
//! I/O of their own.

pub mod checksum;
pub mod codec;
pub mod error;
pub mod integrity;
pub mod packet;
pub mod reader;
pub mod roundtrip;
pub mod stream;
pub mod writer;

pub use codec::ByteCursor;
pub use error::OggError;
pub use packet::{OggPacket, OggPacketType, OggPacketView};
pub use reader::{OggStreamReader, OggStreamReaderView, ReadEvent, ReadProgress, ReaderStep};
pub use writer::{InnerDataSize, OggStreamWriter, OggStreamWriterView, OnSeal};
