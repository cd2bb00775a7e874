//! Decoding of the packet-details markup stream that the TShark network
//! analyzer writes, into a tree of packets, protocol layers and fields.
//!
//! - [`model`]: packets, layers and fields, each with its mathematical model.
//! - [`markup`]: markup events as plain values, and attribute lookup on them.
//! - [`decoder`]: the state machine from events to packets, with the
//!   value-selection and filtering rules for fields.
//! - [`timestamp`]: capture times in microseconds.
//! - [`session`]: the decisions of a session with the analyzer process.
//! - [`builder`]: the options of a run and the arguments they make.
//! - [`version`]: the analyzer's version, read from its version message.
//! - [`laws`]: properties of the decoder, proved over its models.

pub mod builder;
pub mod decoder;
pub mod laws;
pub mod markup;
pub mod model;
pub mod session;
pub mod text;
pub mod timestamp;
pub mod version;
pub mod vocab;

pub use decoder::{parse_xml, DecodeError, Decoder, Fed};
pub use markup::{Attribute, Tag, XmlEvent};
pub use model::{Layer, Metadata, Packet};
