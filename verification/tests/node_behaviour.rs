use dora_node_api::codec::Serializer;
use dora_node_api::config::{
    DaemonCommunication, DataId, DataflowId, Ipv4Address, NodeConfig, NodeId, NodeRunConfig,
    SocketAddress,
};
use dora_node_api::error::NodeError;
use dora_node_api::event::Event;
use dora_node_api::framing::encode_frame;
use dora_node_api::message::{
    ArrowTypeInfo, DaemonReply, DaemonRequest, DataMessage, DropToken, Metadata, Timestamp,
    Timestamped,
};
use dora_node_api::node::{DoraNode, SendOutcome};
use dora_node_api::wire::{encode_reply, encode_ts_request};

/// An in-memory stand-in for the daemon connection: reads come from a
/// pre-staged script, writes are captured.
struct MockConn {
    input: Vec<u8>,
    read_pos: usize,
    output: Vec<u8>,
}

impl MockConn {
    fn new() -> Self {
        MockConn { input: Vec::new(), read_pos: 0, output: Vec::new() }
    }

    fn stage_reply(&mut self, ser: Serializer, reply: &DaemonReply) {
        let payload = encode_reply(ser, reply);
        self.input.extend_from_slice(&encode_frame(&payload));
    }
}

impl std::io::Read for MockConn {
    fn read(&mut self, buf: &mut [u8]) -> std::io::Result<usize> {
        let remaining = &self.input[self.read_pos..];
        let n = remaining.len().min(buf.len());
        buf[..n].copy_from_slice(&remaining[..n]);
        self.read_pos += n;
        Ok(n)
    }
}

impl std::io::Write for MockConn {
    fn write(&mut self, buf: &[u8]) -> std::io::Result<usize> {
        self.output.extend_from_slice(buf);
        Ok(buf.len())
    }

    fn flush(&mut self) -> std::io::Result<()> {
        Ok(())
    }
}

fn test_config(outputs: Vec<&str>) -> NodeConfig {
    NodeConfig {
        dataflow_id: DataflowId("df".to_owned()),
        node_id: NodeId("n".to_owned()),
        run_config: NodeRunConfig {
            outputs: outputs.into_iter().map(|s| DataId(s.to_owned())).collect(),
        },
        daemon_communication: DaemonCommunication::Tcp {
            socket_addr: SocketAddress {
                ip: Ipv4Address { o0: 127, o1: 0, o2: 0, o3: 1 },
                port: 9000,
            },
        },
        dataflow_descriptor: String::new(),
        dynamic: false,
    }
}

type Node = (
    DoraNode<MockConn>,
    dora_node_api::streams::EventStream,
    flume::Sender<Event>,
    flume::Sender<DropToken>,
);

fn expect_send_err(r: Result<SendOutcome, NodeError>) -> NodeError {
    match r {
        Err(e) => e,
        Ok(_) => panic!("expected the send to fail"),
    }
}

fn make_node(outputs: Vec<&str>, shmem: bool, staged_replies: usize) -> Node {
    let (etx, erx) = flume::unbounded();
    let (dtx, drx) = flume::unbounded();
    let mut conn = MockConn::new();
    for _ in 0..staged_replies {
        conn.stage_reply(Serializer::Bincode, &DaemonReply::Empty);
    }
    let (node, events) = DoraNode::init(test_config(outputs), conn, erx, drx, shmem);
    (node, events, etx, dtx)
}

#[test]
fn small_output_echo() {
    let (mut node, _events, _etx, _dtx) = make_node(vec!["out"], true, 1);
    let outcome = node.send_output_bytes(DataId("out".to_owned()), vec![], 4, &[0, 1, 2, 3]).unwrap();
    assert!(matches!(outcome, SendOutcome::Sent));
    assert_eq!(node.in_flight_len(), 0);
    // exactly one frame, holding the expected SendOutput request; the
    // send minted exactly one timestamp, so the clock's last reading
    // is the one in the frame
    let ts = Timestamp { time: node.clock.last, clock_id: node.clock.clock_id };
    let expected = Timestamped {
        inner: DaemonRequest::SendOutput {
            output_id: DataId("out".to_owned()),
            metadata: Metadata {
                timestamp: ts,
                type_info: ArrowTypeInfo::byte_array(4),
                parameters: vec![],
            },
            data: Some(DataMessage::Vec(vec![0, 1, 2, 3])),
        },
        timestamp: ts,
    };
    let expected_frame = encode_frame(&encode_ts_request(&expected));
    assert_eq!(node.control_channel.channel.connection.output, expected_frame);
}

#[test]
fn zero_length_payload_is_sent_inline() {
    let (mut node, _events, _etx, _dtx) = make_node(vec!["out"], true, 1);
    let outcome = node.send_output_raw(DataId("out".to_owned()), vec![], 0, |v| v).unwrap();
    assert!(matches!(outcome, SendOutcome::Sent));
    let ts = Timestamp { time: node.clock.last, clock_id: node.clock.clock_id };
    let expected = Timestamped {
        inner: DaemonRequest::SendOutput {
            output_id: DataId("out".to_owned()),
            metadata: Metadata {
                timestamp: ts,
                type_info: ArrowTypeInfo::byte_array(0),
                parameters: vec![],
            },
            data: Some(DataMessage::Vec(vec![])),
        },
        timestamp: ts,
    };
    let expected_frame = encode_frame(&encode_ts_request(&expected));
    assert_eq!(node.control_channel.channel.connection.output, expected_frame);
}

#[test]
fn payload_below_threshold_is_heap_backed() {
    let (mut node, _events, _etx, _dtx) = make_node(vec!["out"], true, 0);
    let sample = node.allocate_data_sample(4095).unwrap();
    assert!(!sample.shared_backed());
    assert_eq!(sample.sample_len(), 4095);
}

#[test]
fn payload_at_threshold_is_shared_backed() {
    let (mut node, _events, _etx, _dtx) = make_node(vec!["out"], true, 0);
    let sample = node.allocate_data_sample(4096).unwrap();
    assert!(sample.shared_backed());
    assert_eq!(sample.sample_len(), 4096);
}

#[test]
fn shared_memory_disabled_means_heap_everywhere() {
    let (mut node, _events, _etx, _dtx) = make_node(vec!["out"], false, 0);
    let sample = node.allocate_data_sample(1 << 20).unwrap();
    assert!(!sample.shared_backed());
}

/// Send through the threshold-aware convenience: at the zero-copy
/// threshold it hands the filled shared sample back, which is then
/// published and shipped by name. Marking the sample published stands
/// in for the publishing step the I/O shell performs with its region
/// access.
fn send_published(node: &mut DoraNode<MockConn>, id: &str, len: usize, byte: u8) {
    let bytes = vec![byte; len];
    match node.send_output_bytes(DataId(id.to_owned()), vec![], len, &bytes).unwrap() {
        SendOutcome::Sent => panic!("expected a shared-backed sample"),
        SendOutcome::AwaitingPublication { mut sample, type_info, parameters } => {
            sample.mark_published();
            node.send_output_sample(DataId(id.to_owned()), type_info, parameters, Some(sample))
                .unwrap();
        },
    }
}

#[test]
fn threshold_decides_the_send_outcome() {
    let (mut node, _events, _etx, _dtx) = make_node(vec!["out"], true, 1);
    let below = vec![1u8; 4095];
    let outcome = node.send_output_bytes(DataId("out".to_owned()), vec![], 4095, &below).unwrap();
    assert!(matches!(outcome, SendOutcome::Sent));
    let at = vec![2u8; 4096];
    let outcome = node.send_output_bytes(DataId("out".to_owned()), vec![], 4096, &at).unwrap();
    match outcome {
        SendOutcome::Sent => panic!("a threshold payload must not go out unpublished"),
        SendOutcome::AwaitingPublication { sample, .. } => {
            assert!(sample.shared_backed());
            assert_eq!(sample.sample_len(), 4096);
        },
    }
}

#[test]
fn large_output_with_token_reclaim() {
    let (mut node, _events, _etx, dtx) = make_node(vec!["out"], true, 2);
    send_published(&mut node, "out", 4096, 0xAB);
    assert_eq!(node.in_flight_len(), 1);
    assert_eq!(node.cache_len(), 0);
    // the sent frame names a shared region of 4096 bytes under token 0
    let ts = Timestamp { time: node.clock.last, clock_id: node.clock.clock_id };
    let region_id = {
        // recover the region's OS id from the in-flight entry
        node.sent_out_shared_memory[0].1.id.clone()
    };
    let expected = Timestamped {
        inner: DaemonRequest::SendOutput {
            output_id: DataId("out".to_owned()),
            metadata: Metadata {
                timestamp: ts,
                type_info: ArrowTypeInfo::byte_array(4096),
                parameters: vec![],
            },
            data: Some(DataMessage::SharedMemory {
                shared_memory_id: region_id,
                len: 4096,
                drop_token: DropToken(0),
            }),
        },
        timestamp: ts,
    };
    let expected_frame = encode_frame(&encode_ts_request(&expected));
    assert_eq!(node.control_channel.channel.connection.output, expected_frame);
    // the daemon certifies the region released
    dtx.send(DropToken(0)).unwrap();
    // the next send drains the token first and caches the region
    node.send_output_bytes(DataId("out".to_owned()), vec![], 1, &[5]).unwrap();
    assert_eq!(node.in_flight_len(), 0);
    assert_eq!(node.cache_len(), 1);
}

#[test]
fn unpublished_shared_sample_is_sent_inline() {
    let (mut node, _events, _etx, _dtx) = make_node(vec!["out"], true, 1);
    let mut sample = node.allocate_data_sample(4096).unwrap();
    assert!(sample.shared_backed());
    let bytes = vec![0xCDu8; 4096];
    sample.copy_from_slice(&bytes);
    // never published: the library must not ship the unwritten region
    let type_info = ArrowTypeInfo::byte_array(4096);
    node.send_output_sample(DataId("out".to_owned()), type_info, vec![], Some(sample)).unwrap();
    assert_eq!(node.in_flight_len(), 0);
    assert_eq!(node.cache_len(), 1);
    let ts = Timestamp { time: node.clock.last, clock_id: node.clock.clock_id };
    let expected = Timestamped {
        inner: DaemonRequest::SendOutput {
            output_id: DataId("out".to_owned()),
            metadata: Metadata {
                timestamp: ts,
                type_info: ArrowTypeInfo::byte_array(4096),
                parameters: vec![],
            },
            data: Some(DataMessage::Vec(bytes)),
        },
        timestamp: ts,
    };
    let expected_frame = encode_frame(&encode_ts_request(&expected));
    assert_eq!(node.control_channel.channel.connection.output, expected_frame);
}

#[test]
fn wrong_writer_length_is_refused() {
    let (mut node, _events, _etx, _dtx) = make_node(vec!["out"], true, 0);
    let err = expect_send_err(node.send_output_raw(
        DataId("out".to_owned()),
        vec![],
        4,
        |_v| vec![1, 2],
    ));
    assert_eq!(err, NodeError::WrongPayloadLength);
    assert!(node.control_channel.channel.connection.output.is_empty());
}

#[test]
fn unknown_output_is_rejected_without_sending() {
    let (mut node, _events, _etx, _dtx) = make_node(vec!["a"], true, 0);
    let err = expect_send_err(node.send_output_bytes(DataId("b".to_owned()), vec![], 1, &[1]));
    assert_eq!(err, NodeError::UnknownOutput);
    assert!(node.control_channel.channel.connection.output.is_empty());
}

#[test]
fn unknown_drop_token_is_ignored() {
    let (mut node, _events, _etx, dtx) = make_node(vec!["out"], true, 1);
    dtx.send(DropToken(999)).unwrap();
    node.send_output_bytes(DataId("out".to_owned()), vec![], 1, &[1]).unwrap();
    assert_eq!(node.cache_len(), 0);
    assert_eq!(node.in_flight_len(), 0);
}

#[test]
fn drop_stream_disconnect_fails_sends() {
    let (mut node, _events, _etx, dtx) = make_node(vec!["out"], true, 0);
    drop(dtx);
    let err = expect_send_err(node.send_output_bytes(DataId("out".to_owned()), vec![], 1, &[1]));
    assert_eq!(err, NodeError::DropStreamClosed);
}

#[test]
fn cache_eviction_keeps_twenty_newest() {
    let (mut node, _events, _etx, dtx) = make_node(vec!["out"], true, 22);
    // put 21 distinct regions in flight
    for _ in 0..21 {
        send_published(&mut node, "out", 4096, 0);
    }
    assert_eq!(node.in_flight_len(), 21);
    for t in 0..21u64 {
        dtx.send(DropToken(t)).unwrap();
    }
    // the next send reclaims all 21; the earliest-returned is evicted
    node.send_output_bytes(DataId("out".to_owned()), vec![], 1, &[1]).unwrap();
    assert_eq!(node.in_flight_len(), 0);
    assert_eq!(node.cache_len(), 20);
}

#[test]
fn close_outputs_rejects_unknown_and_removes_known() {
    let (mut node, _events, _etx, _dtx) = make_node(vec!["a", "b"], true, 1);
    let err = node.close_outputs(vec![DataId("c".to_owned())]).unwrap_err();
    assert_eq!(err, NodeError::UnknownOutput);
    node.close_outputs(vec![DataId("a".to_owned())]).unwrap();
    assert!(!node.node_config().contains_id(&DataId("a".to_owned())));
    assert!(node.node_config().contains_id(&DataId("b".to_owned())));
}

#[test]
fn teardown_with_stuck_tokens_returns_after_timeout() {
    let (mut node, _events, _etx, dtx) = make_node(vec!["out"], true, 2);
    for _ in 0..2 {
        send_published(&mut node, "out", 4096, 0);
    }
    assert_eq!(node.in_flight_len(), 2);
    let start = std::time::Instant::now();
    // the drop stream stays silent but open
    node.teardown();
    let elapsed = start.elapsed();
    assert!(elapsed >= std::time::Duration::from_millis(400));
    assert!(elapsed < std::time::Duration::from_secs(5));
    drop(dtx);
}

#[test]
fn cache_selection_prefers_smallest_fit() {
    let (mut node, _events, _etx, dtx) = make_node(vec!["out"], true, 4);
    // two in-flight regions of different sizes
    send_published(&mut node, "out", 8192, 0);
    send_published(&mut node, "out", 4096, 0);
    dtx.send(DropToken(0)).unwrap();
    dtx.send(DropToken(1)).unwrap();
    // drain both into the cache: [8192, 4096]
    node.send_output_bytes(DataId("out".to_owned()), vec![], 1, &[1]).unwrap();
    assert_eq!(node.cache_len(), 2);
    // a 4096 request takes the smaller region, not the first
    let sample = node.allocate_data_sample(4096).unwrap();
    assert!(sample.shared_backed());
    assert_eq!(node.cache_len(), 1);
}

#[test]
fn send_rejects_a_reply_of_the_wrong_shape() {
    let (etx, erx) = flume::unbounded();
    let (_dtx2, drx) = flume::unbounded();
    drop(etx);
    let mut conn = MockConn::new();
    conn.stage_reply(
        Serializer::Bincode,
        &DaemonReply::NextDropToken { token: Some(DropToken(1)) },
    );
    let (mut node, _events) = DoraNode::init(test_config(vec!["out"]), conn, erx, drx, false);
    let err = expect_send_err(node.send_output_bytes(DataId("out".to_owned()), vec![], 1, &[9]));
    assert_eq!(err, NodeError::UnexpectedReply);
}

#[test]
fn allocated_samples_start_zero_filled() {
    let (mut node, _events, _etx, _dtx) = make_node(vec!["out"], true, 1);
    let sample = node.allocate_data_sample(8).unwrap();
    drop(sample);
    // observable through the wire: an untouched sample sends zeros
    let untouched = node.allocate_data_sample(3).unwrap();
    let type_info = ArrowTypeInfo::byte_array(3);
    node.send_output_sample(DataId("out".to_owned()), type_info, vec![], Some(untouched))
        .unwrap();
    let ts = Timestamp { time: node.clock.last, clock_id: node.clock.clock_id };
    let expected = Timestamped {
        inner: DaemonRequest::SendOutput {
            output_id: DataId("out".to_owned()),
            metadata: Metadata {
                timestamp: ts,
                type_info: ArrowTypeInfo::byte_array(3),
                parameters: vec![],
            },
            data: Some(DataMessage::Vec(vec![0, 0, 0])),
        },
        timestamp: ts,
    };
    let expected_frame = encode_frame(&encode_ts_request(&expected));
    assert_eq!(node.control_channel.channel.connection.output, expected_frame);
}

#[test]
fn failed_close_keeps_earlier_removals() {
    let (mut node, _events, _etx, _dtx) = make_node(vec!["a", "b"], true, 0);
    // "a" is removed before the unknown "c" is rejected, and stays removed
    let err = node
        .close_outputs(vec![DataId("a".to_owned()), DataId("c".to_owned())])
        .unwrap_err();
    assert_eq!(err, NodeError::UnknownOutput);
    assert!(!node.node_config().contains_id(&DataId("a".to_owned())));
    assert!(node.node_config().contains_id(&DataId("b".to_owned())));
    // and no notification went out
    assert!(node.control_channel.channel.connection.output.is_empty());
}
