use vstd::prelude::*;
use crate::codec::Serializer;
use crate::error::NodeError;
use crate::framing::{tcp_receive, tcp_send, RecvError};
use crate::message::{DaemonReply, DaemonRequest, Timestamped};

verus! {

/// The typed request/reply channel from the node to its daemon, over
/// any reliable byte stream.
pub struct DaemonChannel<C> {
    pub connection: C,
}

impl<C: std::io::Read + std::io::Write + Unpin> DaemonChannel<C> {
    pub fn new(connection: C) -> (r: DaemonChannel<C>) {
        DaemonChannel { connection }
    }

    /// Send one request and collect the reply it declares: a compact
    /// binary reply, a self-describing reply carrying its variant name, or
    /// none at all —
    /// in the last case nothing is read from the stream and `Empty`
    /// is returned at once.
    pub fn request(&mut self, request: &Timestamped<DaemonRequest>) -> (r: Result<
        DaemonReply,
        NodeError,
    >)
        ensures
            !request.inner.spec_expects_reply() && (r matches Ok(rep)) ==> (r matches Ok(rep)
                && rep is Empty),
            r matches Err(e) ==> (e == NodeError::Transport || e == NodeError::Decode || e
                == NodeError::StreamEnded),
    {
        match self.send_message(request) {
            Ok(()) => {},
            Err(e) => {
                return Err(e);
            },
        }
        if request.inner.expects_tcp_bincode_reply() {
            match self.receive_reply(Serializer::Bincode) {
                Ok(Option::Some(reply)) => Ok(reply),
                Ok(Option::None) => Err(NodeError::StreamEnded),
                Err(e) => Err(e),
            }
        } else if request.inner.expects_tcp_json_reply() {
            match self.receive_reply(Serializer::SerdeJson) {
                Ok(Option::Some(reply)) => Ok(reply),
                Ok(Option::None) => Err(NodeError::StreamEnded),
                Err(e) => Err(e),
            }
        } else {
            Ok(DaemonReply::Empty)
        }
    }

    /// Serialize the request in the compact binary form and ship it as
    /// one frame.
    fn send_message(&mut self, message: &Timestamped<DaemonRequest>) -> (r: Result<
        (),
        NodeError,
    >)
        ensures
            r matches Err(e) ==> e == NodeError::Transport,
    {
        let serialized = crate::wire::encode_ts_request(message);
        tcp_send(&mut self.connection, serialized.as_slice())
    }

    /// Read one frame and decode it under the declared serializer. A
    /// cleanly ended stream yields `None`; a frame that does not hold
    /// a reply of that shape is a decode fault.
    fn receive_reply(&mut self, serializer: Serializer) -> (r: Result<
        Option<DaemonReply>,
        NodeError,
    >)
        ensures
            r matches Err(e) ==> (e == NodeError::Transport || e == NodeError::Decode),
    {
        let raw = match tcp_receive(&mut self.connection) {
            Ok(raw) => raw,
            Err(RecvError::StreamEnded) => {
                return Ok(Option::None);
            },
            Err(RecvError::Io) => {
                return Err(NodeError::Transport);
            },
        };
        match crate::wire::decode_reply(serializer, &raw) {
            Option::Some(reply) => Ok(Option::Some(reply)),
            Option::None => Err(NodeError::Decode),
        }
    }
}

} // verus!
