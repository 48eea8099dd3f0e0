use vstd::prelude::*;
use crate::config::{DataId, DataflowId, DaemonCommunication, NodeConfig, NodeId};

verus! {

broadcast use vstd::std_specs::vec::axiom_vec_index_decreases;

/// A hybrid-logical timestamp: a monotone time component and the id of
/// the clock that minted it. Opaque to the daemon protocol beyond
/// comparability.
#[derive(Clone, Copy, Debug, PartialEq, Eq, Structural)]
pub struct Timestamp {
    pub time: u64,
    pub clock_id: u64,
}

/// A value paired with the timestamp it was minted at; the unit of
/// serialization on the daemon channel.
#[derive(Clone, Debug)]
pub struct Timestamped<T> {
    pub inner: T,
    pub timestamp: Timestamp,
}

/// The token minted when a shared-memory region is sent; the daemon
/// returns it once all consumers have released the region.
#[derive(Clone, Copy, Debug, PartialEq, Eq, Structural)]
pub struct DropToken(pub u64);

/// A metadata parameter value.
#[derive(Clone, Debug)]
pub enum ParamValue {
    Bool(bool),
    Int(i64),
    Text(String),
}

/// The logical element type of a columnar array.
#[derive(Clone, Copy, Debug, PartialEq, Eq, Structural)]
pub enum LogicalType {
    UInt8,
    UInt64,
    Int32,
    Int64,
    Utf8,
    Binary,
}

/// A slice of the flat payload buffer: `len` bytes starting at `offset`.
#[derive(Clone, Copy, Debug, PartialEq, Eq, Structural)]
pub struct BufferOffset {
    pub offset: usize,
    pub len: usize,
}

/// A recursive descriptor locating an array's buffers inside a flat
/// payload: logical type, element count, logical offset, optional
/// validity bitmap, buffer slices, and child descriptors addressing the
/// same payload.
#[derive(Debug)]
pub struct ArrowTypeInfo {
    pub data_type: LogicalType,
    pub len: usize,
    pub offset: usize,
    pub validity: Option<Vec<u8>>,
    pub buffer_offsets: Vec<BufferOffset>,
    pub child_data: Vec<ArrowTypeInfo>,
}

/// Ghost mirror of `ArrowTypeInfo`.
#[verifier::ext_equal]
pub struct TypeInfoView {
    pub data_type: LogicalType,
    pub len: usize,
    pub offset: usize,
    pub validity: Option<Seq<u8>>,
    pub buffer_offsets: Seq<BufferOffset>,
    pub child_data: Seq<TypeInfoView>,
}

/// The ghost mirror of a type descriptor.
pub open spec fn type_info_view(t: ArrowTypeInfo) -> TypeInfoView
    decreases t,
{
    TypeInfoView {
        data_type: t.data_type,
        len: t.len,
        offset: t.offset,
        validity: match t.validity {
            Option::Some(v) => Option::Some(v@),
            Option::None => Option::None,
        },
        buffer_offsets: t.buffer_offsets@,
        child_data: type_info_views(t.child_data),
    }
}

/// The ghost mirrors of a list of child descriptors.
pub open spec fn type_info_views(v: Vec<ArrowTypeInfo>) -> Seq<TypeInfoView>
    decreases v,
{
    Seq::new(
        v@.len(),
        |i: int| if 0 <= i < v@.len() {
            type_info_view(v[i])
        } else {
            arbitrary()
        },
    )
}

impl View for ArrowTypeInfo {
    type V = TypeInfoView;

    open spec fn view(&self) -> TypeInfoView {
        type_info_view(*self)
    }
}

impl ArrowTypeInfo {
    /// The ghost mirror of `byte_array(data_len)`.
    pub open spec fn byte_array_view(data_len: usize) -> TypeInfoView {
        TypeInfoView {
            data_type: LogicalType::UInt8,
            len: data_len,
            offset: 0,
            validity: Option::None,
            buffer_offsets: seq![BufferOffset { offset: 0, len: data_len }],
            child_data: Seq::empty(),
        }
    }

    /// The descriptor of a plain byte array of `len` bytes: one buffer
    /// covering the whole payload, no validity bitmap, no children.
    pub fn byte_array(data_len: usize) -> (r: ArrowTypeInfo)
        ensures
            r@ == ArrowTypeInfo::byte_array_view(data_len),
    {
        let r = ArrowTypeInfo {
            data_type: LogicalType::UInt8,
            len: data_len,
            offset: 0,
            validity: Option::None,
            buffer_offsets: vec![BufferOffset { offset: 0, len: data_len }],
            child_data: Vec::new(),
        };
        proof {
            assert(r@.buffer_offsets =~= seq![BufferOffset { offset: 0, len: data_len }]);
            assert(r@.child_data =~= Seq::<TypeInfoView>::empty());
            assert(r@ =~~= ArrowTypeInfo::byte_array_view(data_len));
        }
        r
    }
}

/// How an output payload travels: inline bytes, or the first `len`
/// bytes of a named shared-memory region, to be released when
/// `drop_token` comes back.
#[derive(Debug)]
pub enum DataMessage {
    Vec(Vec<u8>),
    SharedMemory { shared_memory_id: String, len: usize, drop_token: DropToken },
}

/// Ghost mirror of `DataMessage`.
pub enum DataMessageView {
    Vec(Seq<u8>),
    SharedMemory { shared_memory_id: Seq<char>, len: usize, drop_token: DropToken },
}

impl View for DataMessage {
    type V = DataMessageView;

    open spec fn view(&self) -> DataMessageView {
        match self {
            DataMessage::Vec(v) => DataMessageView::Vec(v@),
            DataMessage::SharedMemory { shared_memory_id, len, drop_token } =>
                DataMessageView::SharedMemory {
                    shared_memory_id: shared_memory_id@,
                    len: *len,
                    drop_token: *drop_token,
                },
        }
    }
}

/// The free-form parameters attached to an output.
pub type MetadataParameters = Vec<(String, ParamValue)>;

/// What accompanies every output: the mint timestamp, the array
/// descriptor, and free-form parameters.
#[derive(Debug)]
pub struct Metadata {
    pub timestamp: Timestamp,
    pub type_info: ArrowTypeInfo,
    pub parameters: Vec<(String, ParamValue)>,
}

/// Ghost mirror of a parameter value.
pub enum ParamValueView {
    Bool(bool),
    Int(i64),
    Text(Seq<char>),
}

impl View for ParamValue {
    type V = ParamValueView;

    open spec fn view(&self) -> ParamValueView {
        match self {
            ParamValue::Bool(b) => ParamValueView::Bool(*b),
            ParamValue::Int(i) => ParamValueView::Int(*i),
            ParamValue::Text(s) => ParamValueView::Text(s@),
        }
    }
}

/// Ghost mirror of `Metadata`.
pub struct MetadataView {
    pub timestamp: Timestamp,
    pub type_info: TypeInfoView,
    pub parameters: Seq<(Seq<char>, ParamValueView)>,
}

impl View for Metadata {
    type V = MetadataView;

    open spec fn view(&self) -> MetadataView {
        MetadataView {
            timestamp: self.timestamp,
            type_info: self.type_info@,
            parameters: Seq::new(
                self.parameters@.len(),
                |i: int| (self.parameters@[i].0@, self.parameters@[i].1@),
            ),
        }
    }
}

impl Metadata {
    pub fn from_parameters(
        timestamp: Timestamp,
        type_info: ArrowTypeInfo,
        parameters: Vec<(String, ParamValue)>,
    ) -> (r: Metadata)
        ensures
            r.timestamp == timestamp,
            r.type_info@ == type_info@,
            r@.parameters == Seq::new(
                parameters@.len(),
                |i: int| (parameters@[i].0@, parameters@[i].1@),
            ),
    {
        Metadata { timestamp, type_info, parameters }
    }
}

/// A request from the node to its daemon.
#[derive(Debug)]
pub enum DaemonRequest {
    NodeConfig { node_id: NodeId },
    Register { dataflow_id: DataflowId, node_id: NodeId },
    Subscribe { dataflow_id: DataflowId, node_id: NodeId },
    SubscribeDrop { dataflow_id: DataflowId, node_id: NodeId },
    SendOutput { output_id: DataId, metadata: Metadata, data: Option<DataMessage> },
    CloseOutputs { outputs: Vec<DataId> },
    OutputsDone,
    NextEvent,
    NextDropToken,
    /// Notifies the daemon that this node has released a shared-memory
    /// input it had received under the given token.
    ReportDropToken { token: DropToken },
}

/// Ghost mirror of `DaemonRequest`.
pub enum RequestView {
    NodeConfig { node_id: Seq<char> },
    Register { dataflow_id: Seq<char>, node_id: Seq<char> },
    Subscribe { dataflow_id: Seq<char>, node_id: Seq<char> },
    SubscribeDrop { dataflow_id: Seq<char>, node_id: Seq<char> },
    SendOutput { output_id: Seq<char>, metadata: MetadataView, data: Option<DataMessageView> },
    CloseOutputs { outputs: Seq<Seq<char>> },
    OutputsDone,
    NextEvent,
    NextDropToken,
    ReportDropToken { token: DropToken },
}

impl View for DaemonRequest {
    type V = RequestView;

    open spec fn view(&self) -> RequestView {
        match self {
            DaemonRequest::NodeConfig { node_id } => RequestView::NodeConfig { node_id: node_id@ },
            DaemonRequest::Register { dataflow_id, node_id } => RequestView::Register {
                dataflow_id: dataflow_id@,
                node_id: node_id@,
            },
            DaemonRequest::Subscribe { dataflow_id, node_id } => RequestView::Subscribe {
                dataflow_id: dataflow_id@,
                node_id: node_id@,
            },
            DaemonRequest::SubscribeDrop { dataflow_id, node_id } => RequestView::SubscribeDrop {
                dataflow_id: dataflow_id@,
                node_id: node_id@,
            },
            DaemonRequest::SendOutput { output_id, metadata, data } => RequestView::SendOutput {
                output_id: output_id@,
                metadata: metadata@,
                data: match data {
                    Option::Some(d) => Option::Some(d@),
                    Option::None => Option::None,
                },
            },
            DaemonRequest::CloseOutputs { outputs } => RequestView::CloseOutputs {
                outputs: Seq::new(outputs@.len(), |i: int| outputs@[i]@),
            },
            DaemonRequest::OutputsDone => RequestView::OutputsDone,
            DaemonRequest::NextEvent => RequestView::NextEvent,
            DaemonRequest::NextDropToken => RequestView::NextDropToken,
            DaemonRequest::ReportDropToken { token } => RequestView::ReportDropToken {
                token: *token,
            },
        }
    }
}

impl DaemonRequest {
    /// Whether the daemon answers this request with a compact binary
    /// reply: every request that is answered by a fixed-shape reply.
    pub open spec fn spec_expects_bincode_reply(&self) -> bool {
        match self {
            DaemonRequest::NodeConfig { .. } => false,
            DaemonRequest::NextEvent => false,
            DaemonRequest::OutputsDone => false,
            DaemonRequest::ReportDropToken { .. } => false,
            _ => true,
        }
    }

    /// Whether the daemon answers this request with a self-describing
    /// reply, its variant spelled out by name: used for the replies
    /// with variable-length or evolving fields — the node
    /// configuration and event batches.
    pub open spec fn spec_expects_json_reply(&self) -> bool {
        match self {
            DaemonRequest::NodeConfig { .. } => true,
            DaemonRequest::NextEvent => true,
            _ => false,
        }
    }

    #[verifier::when_used_as_spec(spec_expects_bincode_reply)]
    pub fn expects_tcp_bincode_reply(&self) -> (r: bool)
        ensures
            r == self.spec_expects_bincode_reply(),
    {
        match self {
            DaemonRequest::NodeConfig { .. } => false,
            DaemonRequest::NextEvent => false,
            DaemonRequest::OutputsDone => false,
            DaemonRequest::ReportDropToken { .. } => false,
            _ => true,
        }
    }

    #[verifier::when_used_as_spec(spec_expects_json_reply)]
    pub fn expects_tcp_json_reply(&self) -> (r: bool)
        ensures
            r == self.spec_expects_json_reply(),
    {
        match self {
            DaemonRequest::NodeConfig { .. } => true,
            DaemonRequest::NextEvent => true,
            _ => false,
        }
    }

    /// Whether any reply at all is owed for this request.
    pub open spec fn spec_expects_reply(&self) -> bool {
        self.spec_expects_bincode_reply() || self.spec_expects_json_reply()
    }
}

/// An event the daemon delivers to the node, as carried on the wire.
#[derive(Debug)]
pub enum NodeEvent {
    Stop,
    Reload { operator_id: Option<String> },
    Input { id: DataId, metadata: Metadata, data: Option<DataMessage> },
    InputClosed { id: DataId },
}

/// Ghost mirror of `NodeEvent`.
pub enum NodeEventView {
    Stop,
    Reload { operator_id: Option<Seq<char>> },
    Input { id: Seq<char>, metadata: MetadataView, data: Option<DataMessageView> },
    InputClosed { id: Seq<char> },
}

impl View for NodeEvent {
    type V = NodeEventView;

    open spec fn view(&self) -> NodeEventView {
        match self {
            NodeEvent::Stop => NodeEventView::Stop,
            NodeEvent::Reload { operator_id } => NodeEventView::Reload {
                operator_id: match operator_id {
                    Option::Some(s) => Option::Some(s@),
                    Option::None => Option::None,
                },
            },
            NodeEvent::Input { id, metadata, data } => NodeEventView::Input {
                id: id@,
                metadata: metadata@,
                data: match data {
                    Option::Some(d) => Option::Some(d@),
                    Option::None => Option::None,
                },
            },
            NodeEvent::InputClosed { id } => NodeEventView::InputClosed { id: id@ },
        }
    }
}

/// Ghost mirror of `DaemonCommunication`.
pub enum DaemonCommView {
    Tcp { ip: (u8, u8, u8, u8), port: u16 },
    Shmem { region_id: Seq<char> },
}

impl View for DaemonCommunication {
    type V = DaemonCommView;

    open spec fn view(&self) -> DaemonCommView {
        match self {
            DaemonCommunication::Tcp { socket_addr } => DaemonCommView::Tcp {
                ip: (socket_addr.ip.o0, socket_addr.ip.o1, socket_addr.ip.o2, socket_addr.ip.o3),
                port: socket_addr.port,
            },
            DaemonCommunication::Shmem { region_id } => DaemonCommView::Shmem {
                region_id: region_id@,
            },
        }
    }
}

/// Ghost mirror of `NodeConfig`.
pub struct NodeConfigView {
    pub dataflow_id: Seq<char>,
    pub node_id: Seq<char>,
    pub outputs: Seq<Seq<char>>,
    pub daemon_communication: DaemonCommView,
    pub dataflow_descriptor: Seq<char>,
    pub dynamic: bool,
}

impl View for NodeConfig {
    type V = NodeConfigView;

    open spec fn view(&self) -> NodeConfigView {
        NodeConfigView {
            dataflow_id: self.dataflow_id@,
            node_id: self.node_id@,
            outputs: self.run_config.ids(),
            daemon_communication: self.daemon_communication@,
            dataflow_descriptor: self.dataflow_descriptor@,
            dynamic: self.dynamic,
        }
    }
}

/// A reply from the daemon to the node.
#[derive(Debug)]
pub enum DaemonReply {
    Empty,
    NodeConfig { result: Result<NodeConfig, String> },
    NextEvents { events: Vec<NodeEvent> },
    NextDropToken { token: Option<DropToken> },
    Error { message: String },
}

/// Ghost mirror of `DaemonReply`.
pub enum ReplyView {
    Empty,
    NodeConfig { result: Result<NodeConfigView, Seq<char>> },
    NextEvents { events: Seq<NodeEventView> },
    NextDropToken { token: Option<DropToken> },
    Error { message: Seq<char> },
}

impl View for DaemonReply {
    type V = ReplyView;

    open spec fn view(&self) -> ReplyView {
        match self {
            DaemonReply::Empty => ReplyView::Empty,
            DaemonReply::NodeConfig { result } => ReplyView::NodeConfig {
                result: match result {
                    Result::Ok(c) => Result::Ok(c@),
                    Result::Err(e) => Result::Err(e@),
                },
            },
            DaemonReply::NextEvents { events } => ReplyView::NextEvents {
                events: Seq::new(events@.len(), |i: int| events@[i]@),
            },
            DaemonReply::NextDropToken { token } => ReplyView::NextDropToken { token: *token },
            DaemonReply::Error { message } => ReplyView::Error { message: message@ },
        }
    }
}

impl<T: View> View for Timestamped<T> {
    type V = (Timestamp, T::V);

    open spec fn view(&self) -> (Timestamp, T::V) {
        (self.timestamp, self.inner@)
    }
}

} // verus!
