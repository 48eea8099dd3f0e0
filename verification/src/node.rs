use vstd::prelude::*;
use crate::channel::DaemonChannel;
use crate::clock::Clock;
use crate::config::{DataId, DataflowId, NodeConfig, NodeId, NodeRunConfig};
use crate::error::NodeError;
use crate::event::Event;
use crate::message::{
    ArrowTypeInfo, DaemonReply, DaemonRequest, DataMessage, DropToken, Metadata, Timestamped,
};
use crate::sample::{DataSample, DataSampleType, Region};
use crate::streams::{ChannelClosed, DropStream, EventStream};

verus! {

/// Payloads of at least this many bytes travel through shared memory
/// when the shared-memory subsystem is enabled; smaller ones are sent
/// inline.
pub const ZERO_COPY_THRESHOLD: usize = 4096;

/// The reuse cache never holds more than this many idle regions.
pub const MAX_CACHE_SIZE: usize = 20;

/// How long the teardown path waits for each outstanding drop token,
/// in milliseconds.
pub const TEARDOWN_WAIT_MILLIS: u64 = 500;

/// The node facade: owns the control channel, the drop stream, the
/// declared output set, the shared-memory reuse cache and the
/// in-flight table of regions awaiting their drop token.
pub struct DoraNode<C> {
    pub id: NodeId,
    pub dataflow_id: DataflowId,
    pub node_config: NodeRunConfig,
    pub control_channel: ControlChannel<C>,
    pub clock: Clock,
    pub sent_out_shared_memory: Vec<(u64, Region)>,
    pub drop_stream: DropStream,
    pub cache: Vec<Region>,
    pub dataflow_descriptor: String,
    pub next_token: u64,
    pub shared_memory_enabled: bool,
}

/// The sending half of the node: wraps the daemon channel and issues
/// output, close and teardown notifications.
pub struct ControlChannel<C> {
    pub channel: DaemonChannel<C>,
}

impl<C: std::io::Read + std::io::Write + Unpin> ControlChannel<C> {
    pub fn new(channel: DaemonChannel<C>) -> (r: ControlChannel<C>) {
        ControlChannel { channel }
    }

    /// Issue a `SendOutput` request and accept only an `Empty` reply.
    pub fn send_message(
        &mut self,
        timestamp: crate::message::Timestamp,
        output_id: DataId,
        metadata: Metadata,
        data: Option<DataMessage>,
    ) -> (r: Result<(), NodeError>)
        ensures
            r matches Err(e) ==> (e == NodeError::Transport || e == NodeError::Decode || e
                == NodeError::StreamEnded || e == NodeError::UnexpectedReply),
    {
        let request = Timestamped {
            inner: DaemonRequest::SendOutput { output_id, metadata, data },
            timestamp,
        };
        match self.channel.request(&request) {
            Ok(DaemonReply::Empty) => Ok(()),
            Ok(_) => Err(NodeError::UnexpectedReply),
            Err(e) => Err(e),
        }
    }

    /// Report a batch of outputs as closed.
    pub fn report_closed_outputs(
        &mut self,
        timestamp: crate::message::Timestamp,
        outputs: Vec<DataId>,
    ) -> (r: Result<(), NodeError>)
        ensures
            r matches Err(e) ==> (e == NodeError::Transport || e == NodeError::Decode || e
                == NodeError::StreamEnded || e == NodeError::UnexpectedReply),
    {
        let request = Timestamped { inner: DaemonRequest::CloseOutputs { outputs }, timestamp };
        match self.channel.request(&request) {
            Ok(DaemonReply::Empty) => Ok(()),
            Ok(_) => Err(NodeError::UnexpectedReply),
            Err(e) => Err(e),
        }
    }

    /// The final notification at teardown; expects no reply at all.
    pub fn report_outputs_done(&mut self, timestamp: crate::message::Timestamp) -> (r: Result<
        (),
        NodeError,
    >) {
        let request = Timestamped { inner: DaemonRequest::OutputsDone, timestamp };
        match self.channel.request(&request) {
            Ok(_) => Ok(()),
            Err(e) => Err(e),
        }
    }
}

/// What a convenience send produced: either the inline message went
/// out, or — for a payload at the zero-copy threshold — the filled
/// shared sample is handed back with its descriptor and parameters,
/// to be published into its region (the I/O shell's step, needing the
/// region crate's raw access) and then shipped by name through
/// `send_output_sample`.
pub enum SendOutcome {
    Sent,
    AwaitingPublication {
        sample: DataSample,
        type_info: ArrowTypeInfo,
        parameters: crate::message::MetadataParameters,
    },
}

impl<C: std::io::Read + std::io::Write + Unpin> DoraNode<C> {
    /// The keys of the in-flight table.
    pub open spec fn inflight_keys(&self) -> Seq<u64> {
        self.sent_out_shared_memory@.map_values(|e: (u64, Region)| e.0)
    }

    pub open spec fn inflight_contains(&self, k: u64) -> bool {
        self.inflight_keys().contains(k)
    }

    /// The node's immutable identity: its name, its dataflow and the
    /// dataflow description it was given at initialization.
    pub open spec fn same_identity(&self, other: &Self) -> bool {
        &&& self.id == other.id
        &&& self.dataflow_id == other.dataflow_id
        &&& self.dataflow_descriptor == other.dataflow_descriptor
    }

    /// Every in-flight entry of `self` was already in flight in
    /// `other`: the table gained nothing.
    pub open spec fn entries_subset_of(&self, other: &Self) -> bool {
        forall|e: (u64, Region)|
            #[trigger] self.sent_out_shared_memory@.contains(e)
                ==> other.sent_out_shared_memory@.contains(e)
    }

    /// The facade's invariant: declared ids unique; the cache within
    /// its bound and well formed; in-flight entries well formed, with
    /// pairwise distinct tokens, all minted below `next_token`.
    pub open spec fn wf(&self) -> bool {
        &&& self.node_config.wf()
        &&& self.cache@.len() <= MAX_CACHE_SIZE
        &&& (forall|i: int| 0 <= i < self.cache@.len() ==> (#[trigger] self.cache@[i]).wf())
        &&& (forall|i: int|
            0 <= i < self.sent_out_shared_memory@.len() ==> (
            #[trigger] self.sent_out_shared_memory@[i]).1.wf())
        &&& (forall|i: int, j: int|
            0 <= i < j < self.sent_out_shared_memory@.len()
                ==> self.sent_out_shared_memory@[i].0 != self.sent_out_shared_memory@[j].0)
        &&& (forall|i: int|
            0 <= i < self.sent_out_shared_memory@.len() ==> (
            #[trigger] self.sent_out_shared_memory@[i]).0 < self.next_token)
    }

    /// The cache never outgrows its bound.
    pub proof fn lemma_cache_bounded(&self)
        requires
            self.wf(),
        ensures
            self.cache@.len() <= 20,
    {
    }

    /// Every shared-memory send mints its own drop token: the tokens
    /// of the regions in flight are pairwise distinct, and all lie
    /// below the next token to be minted.
    pub proof fn lemma_inflight_tokens_distinct(&self)
        requires
            self.wf(),
        ensures
            forall|i: int, j: int|
                0 <= i < j < self.inflight_keys().len() ==> self.inflight_keys()[i]
                    != self.inflight_keys()[j],
            forall|i: int|
                0 <= i < self.inflight_keys().len() ==> #[trigger] self.inflight_keys()[i]
                    < self.next_token,
    {
        assert forall|i: int, j: int|
            0 <= i < j < self.inflight_keys().len() implies self.inflight_keys()[i]
            != self.inflight_keys()[j] by {
            assert(self.sent_out_shared_memory@[i].0 != self.sent_out_shared_memory@[j].0);
        }
        assert forall|i: int|
            0 <= i < self.inflight_keys().len() implies #[trigger] self.inflight_keys()[i]
            < self.next_token by {
            assert(self.sent_out_shared_memory@[i].0 < self.next_token);
        }
    }

    /// A token about to be minted is never already in flight.
    pub proof fn lemma_fresh_token(&self)
        requires
            self.wf(),
        ensures
            !self.inflight_contains(self.next_token),
    {
        if self.inflight_contains(self.next_token) {
            let i = choose|i: int|
                0 <= i < self.inflight_keys().len() && self.inflight_keys()[i]
                    == self.next_token;
            assert(self.sent_out_shared_memory@[i].0 == self.next_token);
        }
    }

    /// Assemble a node from its configuration, an open control
    /// connection and the two delivery channels.
    pub fn init(
        node_config: NodeConfig,
        control_connection: C,
        events: flume::Receiver<Event>,
        drops: flume::Receiver<DropToken>,
        shared_memory_enabled: bool,
    ) -> (r: (DoraNode<C>, EventStream))
        requires
            node_config.run_config.wf(),
        ensures
            r.0.wf(),
            r.0.node_config == node_config.run_config,
            r.0.id@ == node_config.node_id@,
            r.0.dataflow_id@ == node_config.dataflow_id@,
            r.0.dataflow_descriptor@ == node_config.dataflow_descriptor@,
            r.0.shared_memory_enabled == shared_memory_enabled,
            r.0.sent_out_shared_memory@.len() == 0,
            r.0.cache@.len() == 0,
            r.0.next_token == 0,
            r.0.clock.last == 0,
    {
        let NodeConfig {
            dataflow_id,
            node_id,
            run_config,
            daemon_communication: _,
            dataflow_descriptor,
            dynamic: _,
        } = node_config;
        let channel = DaemonChannel::new(control_connection);
        let node = DoraNode {
            id: node_id,
            dataflow_id,
            node_config: run_config,
            control_channel: ControlChannel::new(channel),
            clock: Clock::new(1),
            sent_out_shared_memory: Vec::new(),
            drop_stream: DropStream::new(drops),
            cache: Vec::new(),
            dataflow_descriptor,
            next_token: 0,
            shared_memory_enabled,
        };
        (node, EventStream::new(events))
    }

    pub fn id(&self) -> (r: &NodeId)
        ensures
            r == &self.id,
    {
        &self.id
    }

    pub fn dataflow_id(&self) -> (r: &DataflowId)
        ensures
            r == &self.dataflow_id,
    {
        &self.dataflow_id
    }

    pub fn node_config(&self) -> (r: &NodeRunConfig)
        ensures
            r == &self.node_config,
    {
        &self.node_config
    }

    /// The raw text of the dataflow description this node is part of.
    pub fn dataflow_descriptor(&self) -> (r: &String)
        ensures
            r == &self.dataflow_descriptor,
    {
        &self.dataflow_descriptor
    }

    pub fn cache_len(&self) -> (r: usize)
        ensures
            r == self.cache@.len(),
    {
        self.cache.len()
    }

    pub fn in_flight_len(&self) -> (r: usize)
        ensures
            r == self.sent_out_shared_memory@.len(),
    {
        self.sent_out_shared_memory.len()
    }

    /// Provide a writable buffer of exactly `data_len` bytes: backed by
    /// shared memory when the subsystem is enabled and the payload
    /// reaches the zero-copy threshold, by the heap otherwise.
    pub fn allocate_data_sample(&mut self, data_len: usize) -> (r: Result<DataSample, NodeError>)
        requires
            old(self).wf(),
        ensures
            final(self).wf(),
            final(self).node_config == old(self).node_config,
            final(self).next_token == old(self).next_token,
            final(self).sent_out_shared_memory == old(self).sent_out_shared_memory,
            final(self).shared_memory_enabled == old(self).shared_memory_enabled,
            final(self).clock == old(self).clock,
            final(self).control_channel == old(self).control_channel,
            final(self).drop_stream == old(self).drop_stream,
            final(self).same_identity(old(self)),
            match r {
                Ok(s) => s.wf() && s.len == data_len && !s.is_published() && s.bytes()
                    == Seq::new(data_len as nat, |i: int| 0u8) && (s.is_shared() <==> (old(
                    self,
                ).shared_memory_enabled && data_len >= ZERO_COPY_THRESHOLD)),
                Err(e) => e == NodeError::AllocationFailure && final(self).cache
                    == old(self).cache,
            },
            !(old(self).shared_memory_enabled && data_len >= ZERO_COPY_THRESHOLD) ==> (r is Ok
                && final(self).cache == old(self).cache),
    {
        if self.shared_memory_enabled && data_len >= ZERO_COPY_THRESHOLD {
            let region = match self.allocate_shared_memory(data_len) {
                Ok(region) => region,
                Err(e) => {
                    return Err(e);
                },
            };
            Ok(DataSample::shared(region, data_len))
        } else {
            Ok(DataSample::heap(data_len))
        }
    }

    /// Take the smallest cached region whose capacity reaches
    /// `data_len`, preferring the most recently inserted among equals;
    /// map a fresh region of exactly `data_len` bytes when the cache
    /// has none that fits.
    pub fn allocate_shared_memory(&mut self, data_len: usize) -> (r: Result<Region, NodeError>)
        requires
            old(self).wf(),
        ensures
            final(self).wf(),
            final(self).node_config == old(self).node_config,
            final(self).next_token == old(self).next_token,
            final(self).sent_out_shared_memory == old(self).sent_out_shared_memory,
            final(self).shared_memory_enabled == old(self).shared_memory_enabled,
            final(self).clock == old(self).clock,
            final(self).control_channel == old(self).control_channel,
            final(self).drop_stream == old(self).drop_stream,
            final(self).same_identity(old(self)),
            match r {
                Ok(region) => region.wf() && region.capacity >= data_len,
                Err(e) => e == NodeError::AllocationFailure && final(self).cache
                    == old(self).cache,
            },
            (exists|j: int|
                0 <= j < old(self).cache@.len() && (#[trigger] old(self).cache@[j]).capacity
                    >= data_len) ==> (r matches Ok(region) && exists|i: int|
                {
                    &&& 0 <= i < old(self).cache@.len()
                    &&& region == old(self).cache@[i]
                    &&& final(self).cache@ == old(self).cache@.remove(i)
                    &&& (forall|j: int|
                        0 <= j < old(self).cache@.len() && (#[trigger] old(
                            self,
                        ).cache@[j]).capacity >= data_len ==> old(self).cache@[i].capacity <= old(
                            self,
                        ).cache@[j].capacity && (old(self).cache@[j].capacity == old(
                            self,
                        ).cache@[i].capacity ==> j <= i))
                }),
            !(exists|j: int|
                0 <= j < old(self).cache@.len() && (#[trigger] old(self).cache@[j]).capacity
                    >= data_len) ==> (match r {
                Ok(region) => final(self).cache == old(self).cache && region.capacity == data_len,
                Err(e) => true,
            }),
    {
        let n = self.cache.len();
        let mut best: Option<usize> = Option::None;
        for k in 0..n
            invariant
                n == self.cache@.len(),
                *self == *old(self),
                match best {
                    Option::Some(b) => b < k && self.cache@[b as int].capacity >= data_len
                        && (forall|j: int|
                        0 <= j < k && (#[trigger] self.cache@[j]).capacity >= data_len
                            ==> self.cache@[b as int].capacity <= self.cache@[j].capacity && (
                        self.cache@[j].capacity == self.cache@[b as int].capacity ==> j <= b)),
                    Option::None => forall|j: int|
                        0 <= j < k ==> (#[trigger] self.cache@[j]).capacity < data_len,
                },
        {
            let cap = self.cache[k].capacity;
            if cap >= data_len {
                match best {
                    Option::Some(b) => {
                        if cap <= self.cache[b].capacity {
                            best = Option::Some(k);
                        }
                    },
                    Option::None => {
                        best = Option::Some(k);
                    },
                }
            }
        }
        match best {
            Option::Some(i) => {
                proof {
                    assert(old(self).cache@[i as int].wf());
                    assert(self.cache@[i as int].capacity >= data_len);
                }
                let ghost taken = self.cache@[i as int];
                let region = self.cache.remove(i);
                proof {
                    assert(region == taken);
                    assert(region.capacity >= data_len);
                    assert(region.wf());
                    assert(self.cache@ =~= old(self).cache@.remove(i as int));
                    assert forall|j: int| 0 <= j < self.cache@.len() implies (
                    #[trigger] self.cache@[j]).wf() by {
                        let j0 = if j < i { j } else { j + 1 };
                        assert(self.cache@[j] == old(self).cache@[j0]);
                        assert(old(self).cache@[j0].wf());
                    }
                }
                Ok(region)
            },
            Option::None => {
                assert(forall|j: int|
                    0 <= j < self.cache@.len() ==> (#[trigger] self.cache@[j]).capacity
                        < data_len);
                Region::create(data_len)
            },
        }
    }

    /// Park an idle region for reuse; evict the oldest entries while
    /// the cache overflows its bound.
    pub fn add_to_cache(&mut self, memory: Region)
        requires
            old(self).wf(),
            memory.wf(),
        ensures
            final(self).wf(),
            final(self).node_config == old(self).node_config,
            final(self).next_token == old(self).next_token,
            final(self).sent_out_shared_memory == old(self).sent_out_shared_memory,
            final(self).shared_memory_enabled == old(self).shared_memory_enabled,
            final(self).clock == old(self).clock,
            final(self).control_channel == old(self).control_channel,
            final(self).drop_stream == old(self).drop_stream,
            final(self).same_identity(old(self)),
            final(self).cache@.len() <= MAX_CACHE_SIZE,
            old(self).cache@.len() < MAX_CACHE_SIZE ==> final(self).cache@ == old(
                self,
            ).cache@.push(memory),
            old(self).cache@.len() == MAX_CACHE_SIZE ==> final(self).cache@ == old(
                self,
            ).cache@.push(memory).drop_first(),
    {
        let ghost pushed = old(self).cache@.push(memory);
        self.cache.push(memory);
        while self.cache.len() > MAX_CACHE_SIZE
            invariant
                old(self).wf(),
                self.node_config == old(self).node_config,
                self.next_token == old(self).next_token,
                self.sent_out_shared_memory == old(self).sent_out_shared_memory,
                self.shared_memory_enabled == old(self).shared_memory_enabled,
                self.clock == old(self).clock,
                self.id == old(self).id,
                self.dataflow_id == old(self).dataflow_id,
                self.dataflow_descriptor == old(self).dataflow_descriptor,
                self.drop_stream == old(self).drop_stream,
                self.control_channel == old(self).control_channel,
                pushed == old(self).cache@.push(memory),
                self.cache@ == pushed || self.cache@ == pushed.drop_first(),
                old(self).cache@.len() < MAX_CACHE_SIZE ==> self.cache@ == pushed,
                self.cache@.len() >= pushed.len() - 1,
                forall|i: int| 0 <= i < self.cache@.len() ==> (#[trigger] self.cache@[i]).wf(),
            decreases self.cache@.len(),
        {
            proof {
                if self.cache@ != pushed {
                    assert(self.cache@.len() == pushed.len() - 1);
                }
                assert(self.cache@ == pushed);
            }
            self.cache.remove(0);
            assert(self.cache@ =~= pushed.drop_first());
        }
    }

    /// Apply every drop token the daemon has certified so far: move the
    /// matching in-flight regions back into the cache, ignore unknown
    /// tokens, stop when no token is pending, and fail when the drop
    /// stream is gone while regions may still arrive.
    pub fn handle_finished_drop_tokens(&mut self) -> (r: Result<(), NodeError>)
        requires
            old(self).wf(),
        ensures
            final(self).wf(),
            final(self).node_config == old(self).node_config,
            final(self).next_token == old(self).next_token,
            final(self).shared_memory_enabled == old(self).shared_memory_enabled,
            final(self).clock == old(self).clock,
            final(self).control_channel == old(self).control_channel,
            final(self).same_identity(old(self)),
            final(self).entries_subset_of(old(self)),
            forall|k: u64| final(self).inflight_contains(k) ==> old(self).inflight_contains(k),
            r matches Err(e) ==> e == NodeError::DropStreamClosed,
    {
        let queued = self.drop_stream.len();
        let pending = if queued < usize::MAX {
            queued + 1
        } else {
            queued
        };
        let mut drained: usize = 0;
        while drained < pending
            invariant
                self.wf(),
                self.node_config == old(self).node_config,
                self.next_token == old(self).next_token,
                self.shared_memory_enabled == old(self).shared_memory_enabled,
                self.clock == old(self).clock,
                self.control_channel == old(self).control_channel,
                self.same_identity(old(self)),
                self.entries_subset_of(old(self)),
                forall|k: u64| self.inflight_contains(k) ==> old(self).inflight_contains(k),
            decreases pending - drained,
        {
            match self.drop_stream.try_recv() {
                Ok(token) => {
                    self.reclaim(token);
                },
                Err(ChannelClosed::Empty) => {
                    return Ok(());
                },
                Err(ChannelClosed::Disconnected) => {
                    return Err(NodeError::DropStreamClosed);
                },
            }
            drained = drained + 1;
        }
        Ok(())
    }

    /// Apply one returned drop token: when it matches an in-flight
    /// entry, that entry leaves the table and its region is parked in
    /// the cache (evicting the oldest entry if the cache is full); a
    /// token with no in-flight entry changes nothing.
    pub fn reclaim(&mut self, token: DropToken)
        requires
            old(self).wf(),
        ensures
            final(self).wf(),
            final(self).node_config == old(self).node_config,
            final(self).next_token == old(self).next_token,
            final(self).shared_memory_enabled == old(self).shared_memory_enabled,
            final(self).clock == old(self).clock,
            final(self).control_channel == old(self).control_channel,
            final(self).drop_stream == old(self).drop_stream,
            final(self).same_identity(old(self)),
            final(self).entries_subset_of(old(self)),
            forall|k: u64| final(self).inflight_contains(k) ==> old(self).inflight_contains(k),
            !old(self).inflight_contains(token.0) ==> *final(self) == *old(self),
            old(self).inflight_contains(token.0) ==> exists|i: int|
                {
                    &&& 0 <= i < old(self).sent_out_shared_memory@.len()
                    &&& old(self).sent_out_shared_memory@[i].0 == token.0
                    &&& final(self).sent_out_shared_memory@ == old(
                        self,
                    ).sent_out_shared_memory@.remove(i)
                    &&& (old(self).cache@.len() < MAX_CACHE_SIZE ==> final(self).cache@ == old(
                        self,
                    ).cache@.push(old(self).sent_out_shared_memory@[i].1))
                    &&& (old(self).cache@.len() == MAX_CACHE_SIZE ==> final(self).cache@ == old(
                        self,
                    ).cache@.push(old(self).sent_out_shared_memory@[i].1).drop_first())
                },
    {
        let n = self.sent_out_shared_memory.len();
        let mut found: Option<usize> = Option::None;
        for k in 0..n
            invariant
                n == self.sent_out_shared_memory@.len(),
                *self == *old(self),
                found matches Option::Some(f) ==> f < n && self.sent_out_shared_memory@[f as int].0
                    == token.0,
                found is None ==> forall|j: int|
                    0 <= j < k ==> self.sent_out_shared_memory@[j].0 != token.0,
        {
            if self.sent_out_shared_memory[k].0 == token.0 {
                found = Option::Some(k);
            }
        }
        match found {
            Option::Some(i) => {
                let entry = self.sent_out_shared_memory.remove(i);
                proof {
                    let pre = old(self).sent_out_shared_memory@;
                    assert(self.sent_out_shared_memory@ =~= pre.remove(i as int));
                    assert(pre.map_values(|e: (u64, Region)| e.0)[i as int] == token.0);
                    assert(old(self).inflight_contains(token.0));
                    assert forall|k: u64| self.inflight_contains(k) implies old(
                        self,
                    ).inflight_contains(k) by {
                        let j = choose|j: int|
                            0 <= j < self.inflight_keys().len() && self.inflight_keys()[j] == k;
                        let j0 = if j < i { j } else { j + 1 };
                        assert(old(self).inflight_keys()[j0] == k);
                    }
                    assert forall|e: (u64, Region)|
                        #[trigger] self.sent_out_shared_memory@.contains(e) implies old(
                        self,
                    ).sent_out_shared_memory@.contains(e) by {
                        let j = choose|j: int|
                            0 <= j < self.sent_out_shared_memory@.len()
                                && self.sent_out_shared_memory@[j] == e;
                        let j0 = if j < i { j } else { j + 1 };
                        assert(old(self).sent_out_shared_memory@[j0] == e);
                    }
                }
                self.add_to_cache(entry.1);
            },
            Option::None => {
                proof {
                    assert forall|j: int|
                        0 <= j < old(self).inflight_keys().len() implies old(
                        self,
                    ).inflight_keys()[j] != token.0 by {
                        assert(old(self).sent_out_shared_memory@[j].0 != token.0);
                    }
                }
            },
        }
    }

    /// Send a filled sample (or a metadata-only message) on the given
    /// output. Pending drop tokens are applied first; an output id
    /// outside the declared set is rejected before anything is sent.
    /// A shared sample travels by region name only once its bytes were
    /// published into the region (the I/O shell's step); an
    /// unpublished shared sample is sent inline instead and its region
    /// is recycled into the cache, so no region is ever shipped
    /// unwritten.
    pub fn send_output_sample(
        &mut self,
        output_id: DataId,
        type_info: ArrowTypeInfo,
        parameters: crate::message::MetadataParameters,
        sample: Option<DataSample>,
    ) -> (r: Result<(), NodeError>)
        requires
            old(self).wf(),
            old(self).next_token < u64::MAX,
            old(self).clock.last < u64::MAX,
            sample matches Some(s) ==> s.wf(),
        ensures
            final(self).wf(),
            final(self).node_config == old(self).node_config,
            final(self).shared_memory_enabled == old(self).shared_memory_enabled,
            final(self).same_identity(old(self)),
            final(self).clock.last == old(self).clock.last || final(self).clock.last > old(self).clock.last,
            r is Ok ==> final(self).clock.last > old(self).clock.last,
            r is Ok ==> old(self).node_config.declares(output_id@),
            r matches Err(e) ==> (e == NodeError::UnknownOutput || e == NodeError::DropStreamClosed
                || e == NodeError::Transport || e == NodeError::Decode || e
                == NodeError::StreamEnded || e == NodeError::UnexpectedReply),
            (r matches Err(e) && e == NodeError::UnknownOutput) ==> !old(self).node_config.declares(output_id@),
            !old(self).node_config.declares(output_id@) ==> (r matches Err(e) && (e
                == NodeError::UnknownOutput || e == NodeError::DropStreamClosed)),
            (r is Ok && (sample matches Some(s) && s.is_shared() && s.is_published())) ==> ({
                let tbl = final(self).sent_out_shared_memory@;
                &&& final(self).inflight_contains(old(self).next_token)
                &&& final(self).next_token == old(self).next_token + 1
                &&& tbl.len() >= 1
                &&& tbl.last() == (old(self).next_token, sample->Some_0.shared_region())
                &&& (forall|i: int|
                    0 <= i < tbl.len() - 1 ==> old(self).sent_out_shared_memory@.contains(
                        #[trigger] tbl[i],
                    ))
            }),
            !(sample matches Some(s) && s.is_shared() && s.is_published()) ==> (final(self).entries_subset_of(old(self)) && final(self).next_token == old(self).next_token),
    {
        match self.handle_finished_drop_tokens() {
            Ok(()) => {},
            Err(e) => {
                return Err(e);
            },
        }
        if !self.node_config.contains_id(&output_id) {
            return Err(NodeError::UnknownOutput);
        }
        let timestamp = self.clock.new_timestamp();
        let metadata = Metadata::from_parameters(timestamp, type_info, parameters);
        let data = match sample {
            Option::Some(s) => {
                if s.shared_backed() && !s.published_backed() {
                    // the staged bytes never reached the region: send
                    // them inline and park the region for reuse
                    let (region, staging) = s.into_shared_parts();
                    self.add_to_cache(region);
                    Option::Some(DataMessage::Vec(staging))
                } else {
                    let token = DropToken(self.next_token);
                    match s.finalize(token) {
                        DataSampleType::Vec(data) => Option::Some(data),
                        DataSampleType::Shmem(data, shared_memory, drop_token) => {
                            proof {
                                self.lemma_fresh_token();
                            }
                            let ghost tbl = self.sent_out_shared_memory@;
                            self.sent_out_shared_memory.push((drop_token.0, shared_memory));
                            self.next_token = self.next_token + 1;
                            proof {
                                let pre = tbl.map_values(|e: (u64, Region)| e.0);
                                assert(self.inflight_keys() =~= pre.push(token.0));
                                assert(self.inflight_keys()[pre.len() as int] == token.0);
                                assert(self.inflight_contains(token.0));
                                assert(self.sent_out_shared_memory@.last() == (
                                    token.0,
                                    shared_memory,
                                ));
                                assert forall|i: int|
                                    0 <= i < self.sent_out_shared_memory@.len() - 1 implies tbl
                                    .contains(#[trigger] self.sent_out_shared_memory@[i]) by {
                                    assert(self.sent_out_shared_memory@[i] == tbl[i]);
                                }
                            }
                            Option::Some(data)
                        },
                    }
                }
            },
            Option::None => Option::None,
        };
        match self.control_channel.send_message(timestamp, output_id, metadata, data) {
            Ok(()) => Ok(()),
            Err(e) => Err(e),
        }
    }

    /// Copy the given bytes into a sample allocated by the threshold
    /// rule and send them with a plain byte-array descriptor; a
    /// shared-backed sample comes back as `AwaitingPublication`
    /// instead of being sent, so no region ever ships unwritten.
    pub fn send_output_bytes(
        &mut self,
        output_id: DataId,
        parameters: crate::message::MetadataParameters,
        data_len: usize,
        data: &[u8],
    ) -> (r: Result<SendOutcome, NodeError>)
        requires
            old(self).wf(),
            old(self).next_token < u64::MAX,
            old(self).clock.last < u64::MAX,
            data@.len() == data_len,
        ensures
            final(self).wf(),
            final(self).node_config == old(self).node_config,
            final(self).shared_memory_enabled == old(self).shared_memory_enabled,
            final(self).same_identity(old(self)),
            final(self).entries_subset_of(old(self)),
            final(self).next_token == old(self).next_token,
            (r matches Err(e) && e == NodeError::UnknownOutput) <==> !old(self).node_config.declares(output_id@),
            r is Ok ==> old(self).node_config.declares(output_id@),
            r matches Ok(o) ==> ((o is AwaitingPublication) <==> (old(self).shared_memory_enabled
                && data_len >= ZERO_COPY_THRESHOLD)),
            r matches Ok(SendOutcome::AwaitingPublication { sample: s, type_info: t, parameters: p })
                ==> (s.wf() && s.len == data_len && s.is_shared() && !s.is_published()
                && s.bytes() == data@ && t@ == ArrowTypeInfo::byte_array_view(data_len)
                && final(self).clock == old(self).clock),
            (r matches Ok(o) && o is Sent) ==> final(self).clock.last > old(self).clock.last,
    {
        if !self.node_config.contains_id(&output_id) {
            return Err(NodeError::UnknownOutput);
        }
        let mut sample = match self.allocate_data_sample(data_len) {
            Ok(s) => s,
            Err(e) => {
                return Err(e);
            },
        };
        sample.copy_from_slice(data);
        let type_info = ArrowTypeInfo::byte_array(data_len);
        if sample.shared_backed() {
            return Ok(SendOutcome::AwaitingPublication { sample, type_info, parameters });
        }
        match self.send_output_sample(output_id, type_info, parameters, Option::Some(sample)) {
            Ok(()) => Ok(SendOutcome::Sent),
            Err(e) => Err(e),
        }
    }

    /// Let the caller's writer fill a `data_len`-byte buffer, then
    /// proceed as `send_output_bytes`. The writer must hand back a
    /// buffer of the same length.
    pub fn send_output_raw<F: FnOnce(Vec<u8>) -> Vec<u8>>(
        &mut self,
        output_id: DataId,
        parameters: crate::message::MetadataParameters,
        data_len: usize,
        data: F,
    ) -> (r: Result<SendOutcome, NodeError>)
        requires
            old(self).wf(),
            old(self).next_token < u64::MAX,
            old(self).clock.last < u64::MAX,
            forall|v: Vec<u8>| #[trigger] call_requires(data, (v,)),
        ensures
            final(self).wf(),
            final(self).node_config == old(self).node_config,
            final(self).shared_memory_enabled == old(self).shared_memory_enabled,
            final(self).same_identity(old(self)),
            final(self).entries_subset_of(old(self)),
            final(self).next_token == old(self).next_token,
            (r matches Err(e) && e == NodeError::UnknownOutput) <==> !old(self).node_config.declares(output_id@),
            r is Ok ==> old(self).node_config.declares(output_id@),
            r matches Ok(o) ==> ((o is AwaitingPublication) <==> (old(self).shared_memory_enabled
                && data_len >= ZERO_COPY_THRESHOLD)),
            (r matches Err(e) && e == NodeError::WrongPayloadLength) ==> exists|inp: Vec<u8>, out: Vec<u8>|
                inp@ == crate::sample::zero_bytes(data_len) && #[trigger] call_ensures(
                    data,
                    (inp,),
                    out,
                ) && out@.len() != data_len,
            r matches Ok(SendOutcome::AwaitingPublication { sample: s, type_info: t, parameters: p })
                ==> (s.wf() && s.len == data_len && s.is_shared() && !s.is_published()
                && t@ == ArrowTypeInfo::byte_array_view(data_len)
                && final(self).clock == old(self).clock && exists|inp: Vec<u8>, out: Vec<u8>|
                (inp@ == crate::sample::zero_bytes(data_len) && #[trigger] call_ensures(
                    data,
                    (inp,),
                    out,
                ) && out@.len() == data_len && s.bytes() == out@)),
            (r matches Ok(o) && o is Sent) ==> (final(self).clock.last > old(self).clock.last
                && exists|inp: Vec<u8>, out: Vec<u8>|
                inp@ == crate::sample::zero_bytes(data_len) && #[trigger] call_ensures(
                    data,
                    (inp,),
                    out,
                ) && out@.len() == data_len),
    {
        let type_info = ArrowTypeInfo::byte_array(data_len);
        self.send_typed_output(output_id, type_info, parameters, data_len, data)
    }

    /// As `send_output_raw`, with an explicit type descriptor: the
    /// writer's output becomes exactly the bytes of the sample, and a
    /// wrong-length buffer is refused before anything is allocated or
    /// sent.
    pub fn send_typed_output<F: FnOnce(Vec<u8>) -> Vec<u8>>(
        &mut self,
        output_id: DataId,
        type_info: ArrowTypeInfo,
        parameters: crate::message::MetadataParameters,
        data_len: usize,
        data: F,
    ) -> (r: Result<SendOutcome, NodeError>)
        requires
            old(self).wf(),
            old(self).next_token < u64::MAX,
            old(self).clock.last < u64::MAX,
            forall|v: Vec<u8>| #[trigger] call_requires(data, (v,)),
        ensures
            final(self).wf(),
            final(self).node_config == old(self).node_config,
            final(self).shared_memory_enabled == old(self).shared_memory_enabled,
            final(self).same_identity(old(self)),
            final(self).entries_subset_of(old(self)),
            final(self).next_token == old(self).next_token,
            (r matches Err(e) && e == NodeError::UnknownOutput) <==> !old(self).node_config.declares(output_id@),
            r is Ok ==> old(self).node_config.declares(output_id@),
            r matches Ok(o) ==> ((o is AwaitingPublication) <==> (old(self).shared_memory_enabled
                && data_len >= ZERO_COPY_THRESHOLD)),
            (r matches Err(e) && e == NodeError::WrongPayloadLength) ==> exists|inp: Vec<u8>, out: Vec<u8>|
                inp@ == crate::sample::zero_bytes(data_len) && #[trigger] call_ensures(
                    data,
                    (inp,),
                    out,
                ) && out@.len() != data_len,
            r matches Ok(SendOutcome::AwaitingPublication { sample: s, type_info: t, parameters: p })
                ==> (s.wf() && s.len == data_len && s.is_shared() && !s.is_published()
                && t@ == type_info@ && p@ == parameters@
                && final(self).clock == old(self).clock && exists|inp: Vec<u8>, out: Vec<u8>|
                (inp@ == crate::sample::zero_bytes(data_len) && #[trigger] call_ensures(
                    data,
                    (inp,),
                    out,
                ) && out@.len() == data_len && s.bytes() == out@)),
            (r matches Ok(o) && o is Sent) ==> (final(self).clock.last > old(self).clock.last
                && exists|inp: Vec<u8>, out: Vec<u8>|
                inp@ == crate::sample::zero_bytes(data_len) && #[trigger] call_ensures(
                    data,
                    (inp,),
                    out,
                ) && out@.len() == data_len),
    {
        if !self.node_config.contains_id(&output_id) {
            return Err(NodeError::UnknownOutput);
        }
        let buffer: Vec<u8> = vec![0u8; data_len];
        let ghost buffer0 = buffer;
        let written = data(buffer);
        proof {
            assert(buffer0@ =~= crate::sample::zero_bytes(data_len));
        }
        if written.len() != data_len {
            proof {
                assert(call_ensures(data, (buffer0,), written));
                assert(buffer0@ == crate::sample::zero_bytes(data_len));
            }
            return Err(NodeError::WrongPayloadLength);
        }
        let mut sample = match self.allocate_data_sample(data_len) {
            Ok(s) => s,
            Err(e) => {
                return Err(e);
            },
        };
        sample.copy_from_slice(written.as_slice());
        if sample.shared_backed() {
            return Ok(SendOutcome::AwaitingPublication { sample, type_info, parameters });
        }
        match self.send_output_sample(output_id, type_info, parameters, Option::Some(sample)) {
            Ok(()) => Ok(SendOutcome::Sent),
            Err(e) => Err(e),
        }
    }

    /// After closing, the declared set is the old one minus the first
    /// `k` ids of the batch.
    pub open spec fn closed_prefix(&self, before: &Self, ids: Seq<DataId>, k: int) -> bool {
        forall|x: Seq<char>|
            self.node_config.declares(x) <==> (before.node_config.declares(x) && !(exists|j: int|
                0 <= j < k && #[trigger] ids[j]@ == x))
    }

    /// A close failed exactly at position `k`: the first `k` ids were
    /// declared and have been removed, and the `k`-th is not declared
    /// once they are gone.
    pub open spec fn close_failed_at(&self, before: &Self, ids: Seq<DataId>, k: int) -> bool {
        &&& 0 <= k < ids.len()
        &&& self.closed_prefix(before, ids, k)
        &&& (forall|j: int| 0 <= j < k ==> before.node_config.declares(#[trigger] ids[j]@))
        &&& !(before.node_config.declares(ids[k]@) && !(exists|j: int|
            0 <= j < k && #[trigger] ids[j]@ == ids[k]@))
    }

    /// Remove each id from the declared set — rejecting unknown ones,
    /// with removals made before the rejection kept, as a close is not
    /// undone — then report the batch closed to the daemon.
    pub fn close_outputs(&mut self, outputs: Vec<DataId>) -> (r: Result<(), NodeError>)
        requires
            old(self).wf(),
            old(self).clock.last < u64::MAX,
        ensures
            final(self).wf(),
            final(self).same_identity(old(self)),
            final(self).next_token == old(self).next_token,
            final(self).sent_out_shared_memory == old(self).sent_out_shared_memory,
            final(self).cache == old(self).cache,
            final(self).shared_memory_enabled == old(self).shared_memory_enabled,
            r matches Err(e) ==> (e == NodeError::UnknownOutput || e == NodeError::Transport || e
                == NodeError::Decode || e == NodeError::StreamEnded || e
                == NodeError::UnexpectedReply),
            r is Ok ==> (forall|i: int|
                0 <= i < outputs@.len() ==> old(self).node_config.declares(
                    #[trigger] outputs@[i]@,
                )),
            (exists|i: int|
                0 <= i < outputs@.len() && !old(self).node_config.declares(
                    #[trigger] outputs@[i]@,
                )) ==> (r matches Err(e) && e == NodeError::UnknownOutput),
            !(r matches Err(e) && e == NodeError::UnknownOutput) ==> (forall|x: Seq<char>|
                final(self).node_config.declares(x) <==> (old(self).node_config.declares(x)
                    && !Seq::new(outputs@.len(), |i: int| outputs@[i]@).contains(x))),
            (r matches Err(e) && e == NodeError::UnknownOutput) ==> exists|k: int|
                #[trigger] final(self).close_failed_at(old(self), outputs@, k),
    {
        let ghost idviews = Seq::new(outputs@.len(), |i: int| outputs@[i]@);
        let n = outputs.len();
        for k in 0..n
            invariant
                n == outputs@.len(),
                idviews == Seq::new(outputs@.len(), |i: int| outputs@[i]@),
                self.wf(),
                self.node_config.wf(),
                self.clock == old(self).clock,
                self.control_channel == old(self).control_channel,
                self.next_token == old(self).next_token,
                self.cache == old(self).cache,
                self.sent_out_shared_memory == old(self).sent_out_shared_memory,
                self.drop_stream == old(self).drop_stream,
                self.shared_memory_enabled == old(self).shared_memory_enabled,
                self.same_identity(old(self)),
                forall|i: int| 0 <= i < k ==> old(self).node_config.declares(#[trigger] outputs@[i]@),
                forall|x: Seq<char>|
                    self.node_config.declares(x) <==> (old(self).node_config.declares(x)
                        && !idviews.take(k as int).contains(x)),
        {
            let ghost cfg_before = self.node_config;
            let declared = self.node_config.remove_id(&outputs[k]);
            if !declared {
                proof {
                    assert forall|x: Seq<char>|
                        self.node_config.declares(x) <==> (old(self).node_config.declares(x) && !(
                        exists|j: int| 0 <= j < k && #[trigger] outputs@[j]@ == x)) by {
                        if exists|j: int| 0 <= j < k && #[trigger] outputs@[j]@ == x {
                            let j = choose|j: int| 0 <= j < k && #[trigger] outputs@[j]@ == x;
                            assert(idviews.take(k as int)[j] == x);
                        }
                        if idviews.take(k as int).contains(x) {
                            let j = choose|j: int|
                                0 <= j < k && #[trigger] idviews.take(k as int)[j] == x;
                            assert(outputs@[j]@ == x);
                        }
                    }
                    assert(self.closed_prefix(old(self), outputs@, k as int));
                    assert(!cfg_before.declares(outputs@[k as int]@));
                    if old(self).node_config.declares(outputs@[k as int]@) && !(exists|j: int|
                        0 <= j < k && #[trigger] outputs@[j]@ == outputs@[k as int]@) {
                        assert(cfg_before.declares(outputs@[k as int]@));
                    }
                    assert(self.close_failed_at(old(self), outputs@, k as int));
                }
                return Err(NodeError::UnknownOutput);
            }
            proof {
                assert(idviews[k as int] == outputs@[k as int]@);
                assert(cfg_before.declares(outputs@[k as int]@));
                assert(old(self).node_config.declares(outputs@[k as int]@));
                assert forall|x: Seq<char>|
                    self.node_config.declares(x) <==> (old(self).node_config.declares(x)
                        && !idviews.take(k + 1).contains(x)) by {
                    assert(self.node_config.declares(x) <==> (cfg_before.declares(x) && x
                        != outputs@[k as int]@));
                    assert(idviews.take(k + 1) =~= idviews.take(k as int).push(idviews[k as int]));
                    if idviews.take(k + 1).contains(x) {
                        let j = choose|j: int| 0 <= j < k + 1 && #[trigger] idviews.take(k + 1)[j] == x;
                        if j < k {
                            assert(idviews.take(k as int)[j] == x);
                        } else {
                            assert(x == idviews[k as int]);
                        }
                    }
                    if idviews.take(k as int).contains(x) || x == idviews[k as int] {
                        if idviews.take(k as int).contains(x) {
                            let j = choose|j: int| 0 <= j < k && #[trigger] idviews.take(k as int)[j] == x;
                            assert(idviews.take(k + 1)[j] == x);
                        } else {
                            assert(idviews.take(k + 1)[k as int] == x);
                        }
                    }
                }
            }
        }
        proof {
            assert(idviews.take(n as int) =~= idviews);
        }
        let timestamp = self.clock.new_timestamp();
        match self.control_channel.report_closed_outputs(timestamp, outputs) {
            Ok(()) => Ok(()),
            Err(e) => Err(e),
        }
    }

    /// Tear the node down: report every remaining output closed, wait —
    /// bounded per token — for the regions still in flight, then send
    /// the final done notification. A token that matches no entry is
    /// ignored and the wait goes on, up to a bounded number of such
    /// strays; a timeout or a closed drop stream ends the wait. Failures
    /// on this path are absorbed; the regions are unmapped regardless.
    pub fn teardown(self)
        requires
            self.wf(),
    {
        let DoraNode {
            id: _,
            dataflow_id: _,
            node_config,
            mut control_channel,
            mut clock,
            mut sent_out_shared_memory,
            drop_stream,
            cache: _,
            dataflow_descriptor: _,
            next_token: _,
            shared_memory_enabled: _,
        } = self;
        if clock.last < u64::MAX {
            let ts = clock.new_timestamp();
            let _ = control_channel.report_closed_outputs(ts, node_config.outputs);
        }
        // every owed token, everything already queued, and as many
        // strays again: enough for any well-behaved daemon
        let owed = sent_out_shared_memory.len();
        let rounds = owed.saturating_add(drop_stream.len()).saturating_add(owed).saturating_add(
            1,
        );
        let mut round: usize = 0;
        while round < rounds
            invariant
                round <= rounds,
            decreases rounds - round,
        {
            round = round + 1;
            if sent_out_shared_memory.len() == 0 {
                break;
            }
            match drop_stream.recv_timeout(TEARDOWN_WAIT_MILLIS) {
                Ok(token) => {
                    let n = sent_out_shared_memory.len();
                    let mut found: Option<usize> = Option::None;
                    for k in 0..n
                        invariant
                            n == sent_out_shared_memory@.len(),
                            found matches Option::Some(f) ==> f < n,
                    {
                        if sent_out_shared_memory[k].0 == token.0 {
                            found = Option::Some(k);
                        }
                    }
                    match found {
                        Option::Some(i) => {
                            sent_out_shared_memory.remove(i);
                        },
                        Option::None => {},
                    }
                },
                Err(_) => {
                    break;
                },
            }
        }
        if clock.last < u64::MAX {
            let ts = clock.new_timestamp();
            let _ = control_channel.report_outputs_done(ts);
        }
    }
}

/// The pure half of the bootstrap path: inspect the daemon's reply to
/// a `NodeConfig` request and rewrite the reported TCP address with the
/// address the node used to reach the daemon, keeping the reported
/// port.
pub fn node_config_from_reply(reply: DaemonReply, remote_ip: crate::config::Ipv4Address) -> (r:
    Result<NodeConfig, NodeError>)
    ensures
        match r {
            Ok(c) => (reply matches DaemonReply::NodeConfig { result: Ok(c0) } && (match c0
                .daemon_communication {
                crate::config::DaemonCommunication::Tcp { socket_addr } => c.daemon_communication
                    matches crate::config::DaemonCommunication::Tcp { socket_addr: s } && s.ip
                    == remote_ip && s.port == socket_addr.port,
                crate::config::DaemonCommunication::Shmem { region_id: b } => (match c
                    .daemon_communication {
                    crate::config::DaemonCommunication::Shmem { region_id: a } => a@ == b@,
                    _ => false,
                }),
            }) && c.node_id@ == c0.node_id@ && c.dataflow_id@ == c0.dataflow_id@ && c.run_config
                == c0.run_config && c.dataflow_descriptor@ == c0.dataflow_descriptor@ && c.dynamic
                == c0.dynamic),
            Err(NodeError::ConfigRejected) => reply matches DaemonReply::NodeConfig {
                result: Err(e),
            },
            Err(e) => e == NodeError::UnexpectedReply && !(reply matches DaemonReply::NodeConfig {
                result,
            }),
        },
{
    match reply {
        DaemonReply::NodeConfig { result: Ok(mut node_config) } => {
            node_config.rewrite_daemon_addr(remote_ip);
            Ok(node_config)
        },
        DaemonReply::NodeConfig { result: Err(_) } => Err(NodeError::ConfigRejected),
        _ => Err(NodeError::UnexpectedReply),
    }
}

} // verus!
