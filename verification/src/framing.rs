use vstd::prelude::*;
use crate::codec::{enc_bytes, enc_u64};
use crate::error::NodeError;

verus! {

/// Why a receive gave no frame: the peer closed the stream cleanly, or
/// some other transport fault occurred.
#[derive(Clone, Copy, Debug, PartialEq, Eq, Structural)]
pub enum RecvError {
    StreamEnded,
    Io,
}

/// Relies on std::io::Write::write_all: writes the whole buffer or
/// returns an error.
#[verifier::external_body]
fn io_write_all<W: std::io::Write>(w: &mut W, bytes: &[u8]) -> (r: Result<(), ()>) {
    w.write_all(bytes).map_err(|_| ())
}

/// Relies on std::io::Write::flush.
#[verifier::external_body]
fn io_flush<W: std::io::Write>(w: &mut W) -> (r: Result<(), ()>) {
    w.flush().map_err(|_| ())
}

/// Relies on std::io::Read::read_exact: on success the buffer was
/// filled completely. A clean end of stream or an aborted connection
/// is reported apart from the other I/O faults, as its error kind
/// documents.
#[verifier::external_body]
fn io_read_exact<R: std::io::Read>(r: &mut R, n: usize) -> (res: Result<Vec<u8>, RecvError>)
    ensures
        res matches Ok(v) ==> v@.len() == n,
{
    let mut buf = vec![0u8; n];
    match r.read_exact(&mut buf) {
        Ok(()) => Ok(buf),
        Err(e) => match e.kind() {
            std::io::ErrorKind::UnexpectedEof | std::io::ErrorKind::ConnectionAborted => {
                Err(RecvError::StreamEnded)
            },
            _ => Err(RecvError::Io),
        },
    }
}

/// Build one frame: the payload length as 8 little-endian bytes, then
/// the payload itself.
pub fn encode_frame(message: &[u8]) -> (r: Vec<u8>)
    ensures
        r@ == enc_bytes(message@),
{
    let mut out: Vec<u8> = Vec::new();
    crate::wire::write_u64(&mut out, message.len() as u64);
    out.extend_from_slice(message);
    assert(out@ =~= enc_bytes(message@));
    out
}

/// Write one length-prefixed frame to the stream and flush it.
pub fn tcp_send<W: std::io::Write + Unpin>(connection: &mut W, message: &[u8]) -> (r: Result<
    (),
    NodeError,
>)
    ensures
        r matches Err(e) ==> e == NodeError::Transport,
{
    let frame = encode_frame(message);
    match io_write_all(connection, frame.as_slice()) {
        Ok(()) => match io_flush(connection) {
            Ok(()) => Ok(()),
            Err(_) => Err(NodeError::Transport),
        },
        Err(_) => Err(NodeError::Transport),
    }
}

/// Read one length-prefixed frame from the stream: 8 length bytes,
/// then exactly that many payload bytes.
pub fn tcp_receive<R: std::io::Read + Unpin>(connection: &mut R) -> (r: Result<
    Vec<u8>,
    RecvError,
>) {
    let header = match io_read_exact(connection, 8) {
        Ok(h) => h,
        Err(e) => {
            return Err(e);
        },
    };
    let len = vstd::bytes::u64_from_le_bytes(header.as_slice());
    if len > usize::MAX as u64 {
        return Err(RecvError::Io);
    }
    io_read_exact(connection, len as usize)
}

} // verus!
