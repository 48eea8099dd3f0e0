use vstd::prelude::*;
use crate::config::DataId;
use crate::message::Metadata;

verus! {

/// An input payload as delivered to the consumer: nothing, an owned
/// flat byte buffer, or a buffer view over an attached shared-memory
/// region (built by the I/O shell, which keeps the attachment alive as
/// long as the buffer is held). The reconstructed array aliases the
/// buffer either way.
pub enum RawData {
    Empty,
    Vec(Vec<u8>),
    SharedMemory(arrow::buffer::Buffer),
}

impl RawData {
    /// The payload bytes.
    pub open spec fn bytes(&self) -> Seq<u8> {
        match self {
            RawData::Empty => Seq::empty(),
            RawData::Vec(v) => v@,
            RawData::SharedMemory(b) => crate::arrow_data::buffer_bytes(*b),
        }
    }
}

/// What the daemon delivers to the node, ready for consumption.
#[non_exhaustive]
pub enum Event {
    Stop,
    Reload { operator_id: Option<String> },
    Input { id: DataId, metadata: Metadata, data: RawData },
    InputClosed { id: DataId },
    Error(String),
}

} // verus!
