//! A compact binary wire format for player connection logs, with a batch
//! codec and an optional zlib transport.
//!
//! A record exists in two forms. The validated form ([`PlayerLogBuilder`])
//! holds text; the compact form ([`PlayerLog`]) holds bytes and is what the
//! codec writes and reads. [`PlayerLogSerializer`] writes and reads whole
//! batches, plain or compressed.
//!
//! Every function here is verified against a mathematical description of
//! the format: `record` describes the conversions, `codec` one record's
//! bytes, `batch` a batch's bytes. The few calls into other crates
//! (byteorder, flate2, rand, uuid) and into `String::from_utf8` stand behind
//! small functions whose contracts are taken on trust; each says so.

pub mod batch;
pub mod codec;
pub mod compression;
pub mod endian;
pub mod error;
pub mod flags;
pub mod generator;
pub mod reader;
pub mod record;
pub mod text;
pub mod versions;

pub use batch::PlayerLogSerializer;
pub use compression::Compression;
pub use error::{ErrorKind, LogError};
pub use flags::LogFlags;
pub use generator::log_generator;
pub use reader::ByteReader;
pub use record::{PlayerLog, PlayerLogBuilder};
