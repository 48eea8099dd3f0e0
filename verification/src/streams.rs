use vstd::prelude::*;
use crate::event::Event;
use crate::message::DropToken;

verus! {

/// Whether a failed receive may still be retried: the queue was merely
/// empty (or the wait timed out), or the sending side is gone for good.
#[derive(Clone, Copy, Debug, PartialEq, Eq, Structural)]
pub enum ChannelClosed {
    Empty,
    Disconnected,
}

#[verifier::external_type_specification]
#[verifier::external_body]
#[verifier::reject_recursive_types(T)]
pub struct ExReceiver<T>(flume::Receiver<T>);

/// Relies on flume::Receiver::try_recv: hands out a queued value
/// without blocking, or says whether the channel is empty or
/// disconnected.
#[verifier::external_body]
fn chan_try_recv<T>(rx: &flume::Receiver<T>) -> (r: Result<T, ChannelClosed>) {
    rx.try_recv().map_err(|e| match e {
        flume::TryRecvError::Empty => ChannelClosed::Empty,
        flume::TryRecvError::Disconnected => ChannelClosed::Disconnected,
    })
}

/// Relies on flume::Receiver::recv: blocks until a value arrives or
/// every sender is gone.
#[verifier::external_body]
fn chan_recv<T>(rx: &flume::Receiver<T>) -> (r: Result<T, ChannelClosed>) {
    rx.recv().map_err(|_| ChannelClosed::Disconnected)
}

/// Relies on flume::Receiver::recv_timeout: blocks up to the given
/// number of milliseconds.
#[verifier::external_body]
fn chan_recv_timeout<T>(rx: &flume::Receiver<T>, millis: u64) -> (r: Result<T, ChannelClosed>) {
    rx.recv_timeout(std::time::Duration::from_millis(millis)).map_err(|e| match e {
        flume::RecvTimeoutError::Timeout => ChannelClosed::Empty,
        flume::RecvTimeoutError::Disconnected => ChannelClosed::Disconnected,
    })
}

/// Relies on flume::Receiver::len: how many values are queued.
#[verifier::external_body]
fn chan_len<T>(rx: &flume::Receiver<T>) -> (r: usize) {
    rx.len()
}

/// The one-way channel delivering input and control events to the
/// node, in the order the daemon sent them. Single consumer.
pub struct EventStream {
    pub receiver: flume::Receiver<Event>,
}

impl EventStream {
    pub fn new(receiver: flume::Receiver<Event>) -> (r: EventStream) {
        EventStream { receiver }
    }

    /// Block until the next event, or `None` once the stream is done.
    pub fn recv(&mut self) -> (r: Option<Event>) {
        match chan_recv(&self.receiver) {
            Ok(e) => Option::Some(e),
            Err(_) => Option::None,
        }
    }

    /// Collect an event without blocking.
    pub fn try_recv(&mut self) -> (r: Option<Event>) {
        match chan_try_recv(&self.receiver) {
            Ok(e) => Option::Some(e),
            Err(_) => Option::None,
        }
    }

    /// Block up to `millis` milliseconds for the next event.
    pub fn recv_timeout(&mut self, millis: u64) -> (r: Option<Event>) {
        match chan_recv_timeout(&self.receiver, millis) {
            Ok(e) => Option::Some(e),
            Err(_) => Option::None,
        }
    }
}

/// The one-way channel on which the daemon certifies that all
/// consumers have released a shared region. Single consumer.
pub struct DropStream {
    pub receiver: flume::Receiver<DropToken>,
}

impl DropStream {
    pub fn new(receiver: flume::Receiver<DropToken>) -> (r: DropStream) {
        DropStream { receiver }
    }

    pub fn try_recv(&self) -> (r: Result<DropToken, ChannelClosed>) {
        chan_try_recv(&self.receiver)
    }

    pub fn recv_timeout(&self, millis: u64) -> (r: Result<DropToken, ChannelClosed>) {
        chan_recv_timeout(&self.receiver, millis)
    }

    pub fn len(&self) -> (r: usize) {
        chan_len(&self.receiver)
    }
}

} // verus!
