use dora_node_api::channel::DaemonChannel;
use dora_node_api::codec::Serializer;
use dora_node_api::config::{
    DaemonCommunication, DataId, DataflowId, Ipv4Address, NodeConfig, NodeId, NodeRunConfig,
    SocketAddress,
};
use dora_node_api::error::NodeError;
use dora_node_api::framing::encode_frame;
use dora_node_api::message::{
    ArrowTypeInfo, BufferOffset, DaemonReply, DaemonRequest, LogicalType, Timestamp, Timestamped,
};
use dora_node_api::node::node_config_from_reply;
use dora_node_api::event::RawData;
use dora_node_api::wire::encode_reply;
use arrow::array::Array;

struct ScriptedConn {
    input: Vec<u8>,
    read_pos: usize,
    output: Vec<u8>,
}

impl std::io::Read for ScriptedConn {
    fn read(&mut self, buf: &mut [u8]) -> std::io::Result<usize> {
        let remaining = &self.input[self.read_pos..];
        let n = remaining.len().min(buf.len());
        buf[..n].copy_from_slice(&remaining[..n]);
        self.read_pos += n;
        Ok(n)
    }
}

impl std::io::Write for ScriptedConn {
    fn write(&mut self, buf: &[u8]) -> std::io::Result<usize> {
        self.output.extend_from_slice(buf);
        Ok(buf.len())
    }

    fn flush(&mut self) -> std::io::Result<()> {
        Ok(())
    }
}

fn daemon_reported_config() -> NodeConfig {
    NodeConfig {
        dataflow_id: DataflowId("df".to_owned()),
        node_id: NodeId("n".to_owned()),
        run_config: NodeRunConfig { outputs: vec![DataId("out".to_owned())] },
        daemon_communication: DaemonCommunication::Tcp {
            socket_addr: SocketAddress {
                ip: Ipv4Address { o0: 127, o1: 0, o2: 0, o3: 1 },
                port: 9000,
            },
        },
        dataflow_descriptor: String::new(),
        dynamic: true,
    }
}

#[test]
fn bootstrap_rewrites_daemon_ip_keeps_port() {
    let reply = DaemonReply::NodeConfig { result: Ok(daemon_reported_config()) };
    let remote = Ipv4Address { o0: 10, o1: 0, o2: 0, o3: 5 };
    let config = node_config_from_reply(reply, remote).unwrap();
    match config.daemon_communication {
        DaemonCommunication::Tcp { socket_addr } => {
            assert_eq!(socket_addr.ip, remote);
            assert_eq!(socket_addr.port, 9000);
        },
        _ => panic!("expected a TCP channel"),
    }
}

#[test]
fn bootstrap_rejection_and_mismatch() {
    let rejected = DaemonReply::NodeConfig { result: Err("no such node".to_owned()) };
    let remote = Ipv4Address { o0: 10, o1: 0, o2: 0, o3: 5 };
    assert_eq!(node_config_from_reply(rejected, remote).unwrap_err(), NodeError::ConfigRejected);
    let other = DaemonReply::Empty;
    assert_eq!(node_config_from_reply(other, remote).unwrap_err(), NodeError::UnexpectedReply);
}

#[test]
fn node_config_request_over_the_wire() {
    // the daemon answers a NodeConfig request in the self-describing form
    let reply = DaemonReply::NodeConfig { result: Ok(daemon_reported_config()) };
    let payload = encode_reply(Serializer::SerdeJson, &reply);
    let conn = ScriptedConn { input: encode_frame(&payload), read_pos: 0, output: Vec::new() };
    let mut channel = DaemonChannel::new(conn);
    let request = Timestamped {
        inner: DaemonRequest::NodeConfig { node_id: NodeId("n".to_owned()) },
        timestamp: Timestamp { time: 1, clock_id: 1 },
    };
    let got = channel.request(&request).unwrap();
    let remote = Ipv4Address { o0: 10, o1: 0, o2: 0, o3: 5 };
    let config = node_config_from_reply(got, remote).unwrap();
    assert_eq!(config.node_id.0, "n");
}

#[test]
fn request_without_reply_reads_nothing() {
    // stage bytes that must remain untouched
    let conn = ScriptedConn { input: vec![1, 2, 3, 4, 5, 6, 7, 8], read_pos: 0, output: Vec::new() };
    let mut channel = DaemonChannel::new(conn);
    let request = Timestamped {
        inner: DaemonRequest::OutputsDone,
        timestamp: Timestamp { time: 1, clock_id: 1 },
    };
    let reply = channel.request(&request).unwrap();
    assert!(matches!(reply, DaemonReply::Empty));
    assert_eq!(channel.connection.read_pos, 0);
}

#[test]
fn request_expecting_reply_on_ended_stream_fails() {
    let conn = ScriptedConn { input: Vec::new(), read_pos: 0, output: Vec::new() };
    let mut channel = DaemonChannel::new(conn);
    let request = Timestamped {
        inner: DaemonRequest::NextEvent,
        timestamp: Timestamp { time: 1, clock_id: 1 },
    };
    assert_eq!(channel.request(&request).unwrap_err(), NodeError::StreamEnded);
}

#[test]
fn garbled_reply_is_a_decode_fault() {
    let conn = ScriptedConn { input: encode_frame(&[0xFF, 0xFF]), read_pos: 0, output: Vec::new() };
    let mut channel = DaemonChannel::new(conn);
    let request = Timestamped {
        inner: DaemonRequest::NextEvent,
        timestamp: Timestamp { time: 1, clock_id: 1 },
    };
    assert_eq!(channel.request(&request).unwrap_err(), NodeError::Decode);
}

#[test]
fn raw_data_reconstructs_byte_array() {
    let data = RawData::Vec(vec![10, 20, 30, 40]);
    let type_info = ArrowTypeInfo::byte_array(4);
    let array = data.into_arrow_array(&type_info).unwrap();
    let typed = arrow::array::UInt8Array::from(array);
    assert_eq!(typed.len(), 4);
    assert_eq!(typed.values(), &[10, 20, 30, 40]);
}

#[test]
fn raw_data_with_out_of_range_slice_is_rejected() {
    let data = RawData::Vec(vec![1, 2, 3]);
    let type_info = ArrowTypeInfo {
        data_type: LogicalType::UInt8,
        len: 8,
        offset: 0,
        validity: None,
        buffer_offsets: vec![BufferOffset { offset: 2, len: 9 }],
        child_data: vec![],
    };
    assert_eq!(data.into_arrow_array(&type_info).unwrap_err(), NodeError::Decode);
}

#[test]
fn empty_raw_data_gives_empty_array() {
    let data = RawData::Empty;
    let type_info = ArrowTypeInfo::byte_array(0);
    let array = data.into_arrow_array(&type_info).unwrap();
    assert_eq!(array.len(), 0);
}

/// A connection whose write side is broken.
struct BrokenConn;

impl std::io::Read for BrokenConn {
    fn read(&mut self, _buf: &mut [u8]) -> std::io::Result<usize> {
        Ok(0)
    }
}

impl std::io::Write for BrokenConn {
    fn write(&mut self, _buf: &[u8]) -> std::io::Result<usize> {
        Err(std::io::Error::new(std::io::ErrorKind::BrokenPipe, "broken"))
    }

    fn flush(&mut self) -> std::io::Result<()> {
        Ok(())
    }
}

#[test]
fn broken_transport_surfaces_as_transport_fault() {
    let mut channel = DaemonChannel::new(BrokenConn);
    let request = Timestamped {
        inner: DaemonRequest::NextEvent,
        timestamp: Timestamp { time: 1, clock_id: 1 },
    };
    assert_eq!(channel.request(&request).unwrap_err(), NodeError::Transport);
}

#[test]
fn raw_data_reconstructs_int64_array() {
    let values: [i64; 3] = [-1, 7, 1 << 40];
    let mut payload: Vec<u8> = Vec::new();
    for v in values {
        payload.extend_from_slice(&v.to_le_bytes());
    }
    let type_info = ArrowTypeInfo {
        data_type: LogicalType::Int64,
        len: 3,
        offset: 0,
        validity: None,
        buffer_offsets: vec![BufferOffset { offset: 0, len: 24 }],
        child_data: vec![],
    };
    let array = RawData::Vec(payload).into_arrow_array(&type_info).unwrap();
    let typed = arrow::array::Int64Array::from(array);
    assert_eq!(typed.len(), 3);
    assert_eq!(typed.values(), &values);
}

#[test]
fn short_validity_bitmap_is_rejected_not_fatal() {
    // a validity bitmap of one byte cannot cover a thousand elements
    let type_info = ArrowTypeInfo {
        data_type: LogicalType::UInt8,
        len: 1000,
        offset: 0,
        validity: Some(vec![0xFF]),
        buffer_offsets: vec![BufferOffset { offset: 0, len: 4 }],
        child_data: vec![],
    };
    let data = RawData::Vec(vec![1, 2, 3, 4]);
    assert_eq!(data.into_arrow_array(&type_info).unwrap_err(), NodeError::Decode);
}

#[test]
fn empty_payload_beats_a_non_fitting_descriptor() {
    // an empty payload yields an empty array whatever the descriptor says
    let type_info = ArrowTypeInfo {
        data_type: LogicalType::UInt8,
        len: 4,
        offset: 0,
        validity: None,
        buffer_offsets: vec![BufferOffset { offset: 0, len: 4 }],
        child_data: vec![],
    };
    let array = RawData::Vec(Vec::new()).into_arrow_array(&type_info).unwrap();
    assert_eq!(array.len(), 0);
}

#[test]
fn bootstrap_leaves_shmem_channels_unchanged() {
    let mut config = daemon_reported_config();
    config.daemon_communication =
        DaemonCommunication::Shmem { region_id: "ctrl".to_owned() };
    let reply = DaemonReply::NodeConfig { result: Ok(config) };
    let remote = Ipv4Address { o0: 10, o1: 0, o2: 0, o3: 5 };
    let out = node_config_from_reply(reply, remote).unwrap();
    match out.daemon_communication {
        DaemonCommunication::Shmem { region_id } => assert_eq!(region_id, "ctrl"),
        _ => panic!("expected the shared-memory channel to be kept"),
    }
    assert!(out.dynamic);
}
