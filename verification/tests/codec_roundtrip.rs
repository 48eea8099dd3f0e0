use dora_node_api::codec::Serializer;
use dora_node_api::config::{
    DaemonCommunication, DataId, DataflowId, Ipv4Address, NodeConfig, NodeId, NodeRunConfig,
    SocketAddress,
};
use dora_node_api::framing::{encode_frame, tcp_receive, tcp_send};
use dora_node_api::message::{
    ArrowTypeInfo, BufferOffset, DaemonReply, DaemonRequest, DataMessage, DropToken, LogicalType,
    Metadata, NodeEvent, ParamValue, Timestamp, Timestamped,
};
use dora_node_api::wire::{decode_reply, encode_reply, encode_ts_request};

fn sample_metadata() -> Metadata {
    let child = ArrowTypeInfo {
        data_type: LogicalType::Int64,
        len: 2,
        offset: 0,
        validity: Some(vec![0b11]),
        buffer_offsets: vec![BufferOffset { offset: 4, len: 16 }],
        child_data: vec![],
    };
    let type_info = ArrowTypeInfo {
        data_type: LogicalType::Binary,
        len: 2,
        offset: 1,
        validity: None,
        buffer_offsets: vec![BufferOffset { offset: 0, len: 4 }],
        child_data: vec![child],
    };
    Metadata {
        timestamp: Timestamp { time: 7, clock_id: 3 },
        type_info,
        parameters: vec![
            ("flag".to_owned(), ParamValue::Bool(true)),
            ("count".to_owned(), ParamValue::Int(-12)),
            ("note".to_owned(), ParamValue::Text("hello".to_owned())),
        ],
    }
}

#[test]
fn request_frame_survives_transport() {
    let request = Timestamped {
        inner: DaemonRequest::SendOutput {
            output_id: DataId("out".to_owned()),
            metadata: sample_metadata(),
            data: Some(DataMessage::Vec(vec![9, 8, 7, 6])),
        },
        timestamp: Timestamp { time: 7, clock_id: 3 },
    };
    let encoded = encode_ts_request(&request);
    let mut wire: Vec<u8> = Vec::new();
    tcp_send(&mut wire, &encoded).unwrap();
    let mut reader: &[u8] = &wire;
    let received = tcp_receive(&mut reader).unwrap();
    assert_eq!(received, encoded);
    // encoding the same value again gives the same bytes
    let encoded_again = encode_ts_request(&request);
    assert_eq!(encoded, encoded_again);
}

#[test]
fn reply_roundtrip_binary() {
    let reply = DaemonReply::NextEvents {
        events: vec![
            NodeEvent::Stop,
            NodeEvent::Reload { operator_id: Some("op".to_owned()) },
            NodeEvent::Input {
                id: DataId("in".to_owned()),
                metadata: sample_metadata(),
                data: Some(DataMessage::SharedMemory {
                    shared_memory_id: "region_a".to_owned(),
                    len: 4096,
                    drop_token: DropToken(11),
                }),
            },
            NodeEvent::InputClosed { id: DataId("in".to_owned()) },
        ],
    };
    let bytes = encode_reply(Serializer::Bincode, &reply);
    let decoded = decode_reply(Serializer::Bincode, &bytes).expect("decode");
    assert_eq!(encode_reply(Serializer::Bincode, &decoded), bytes);
}

#[test]
fn reply_roundtrip_text() {
    let config = NodeConfig {
        dataflow_id: DataflowId("df".to_owned()),
        node_id: NodeId("n".to_owned()),
        run_config: NodeRunConfig {
            outputs: vec![DataId("a".to_owned()), DataId("b".to_owned())],
        },
        daemon_communication: DaemonCommunication::Tcp {
            socket_addr: SocketAddress {
                ip: Ipv4Address { o0: 127, o1: 0, o2: 0, o3: 1 },
                port: 9000,
            },
        },
        dataflow_descriptor: "nodes: []".to_owned(),
        dynamic: false,
    };
    let reply = DaemonReply::NodeConfig { result: Ok(config) };
    let bytes = encode_reply(Serializer::SerdeJson, &reply);
    let decoded = decode_reply(Serializer::SerdeJson, &bytes).expect("decode");
    assert_eq!(encode_reply(Serializer::SerdeJson, &decoded), bytes);
    // the text form spells the variant name out at the front
    let name_len = u64::from_le_bytes(bytes[0..8].try_into().unwrap());
    assert_eq!(&bytes[8..8 + name_len as usize], b"NodeConfig");
}

#[test]
fn reply_roundtrip_token_and_error() {
    for reply in [
        DaemonReply::Empty,
        DaemonReply::NextDropToken { token: Some(DropToken(42)) },
        DaemonReply::NextDropToken { token: None },
        DaemonReply::Error { message: "boom".to_owned() },
    ] {
        for ser in [Serializer::Bincode, Serializer::SerdeJson] {
            let bytes = encode_reply(ser, &reply);
            let decoded = decode_reply(ser, &bytes).expect("decode");
            assert_eq!(encode_reply(ser, &decoded), bytes);
        }
    }
}

#[test]
fn reply_with_wrong_serializer_is_rejected() {
    let bytes = encode_reply(Serializer::SerdeJson, &DaemonReply::Empty);
    assert!(decode_reply(Serializer::Bincode, &bytes).is_none());
    let garbage = vec![0xFFu8, 1, 2];
    assert!(decode_reply(Serializer::Bincode, &garbage).is_none());
    assert!(decode_reply(Serializer::SerdeJson, &garbage).is_none());
}

#[test]
fn frame_layout_is_length_prefixed() {
    let frame = encode_frame(&[1, 2, 3]);
    assert_eq!(frame, vec![3, 0, 0, 0, 0, 0, 0, 0, 1, 2, 3]);
}
