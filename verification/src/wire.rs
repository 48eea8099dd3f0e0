//! Executable encoders and decoders for the wire format of
//! `crate::codec`. Encoders append to a byte vector; decoders walk a
//! byte vector with a cursor and return the value with the position
//! that follows it. Each is proved against the specification
//! en-/decoders, so the round-trip lemmas carry over to the executable
//! code.

use vstd::prelude::*;
use crate::codec::{
    enc_u8, enc_u64, enc_bool, enc_i64, enc_usize, enc_bytes, enc_str, enc_timestamp, enc_token,
    enc_ltype, enc_boff, enc_opt_bytes, enc_param, enc_entry, enc_items, enc_list, enc_ti,
    enc_ti_body, enc_ti_items, enc_meta, enc_opt_dm, enc_request, enc_ts_request, enc_event,
    enc_comm, enc_node_config, enc_reply, enc_reply_body, enc_opt_str, reply_tag, reply_name,
    Serializer, dec_u8, dec_u64, dec_bool, dec_i64, dec_usize, dec_bytes, dec_str, dec_timestamp,
    dec_token, dec_ltype, dec_boff, dec_opt_bytes, dec_param, dec_entry, dec_items, dec_list,
    dec_ti, dec_ti_fields, dec_ti_list, dec_meta, dec_data_message, dec_opt_dm, dec_opt_str,
    dec_event, dec_comm, dec_node_config, dec_reply, dec_reply_body, tag_of_name, opt_prepend,
    ltype_of_tag,
};
use crate::message::{
    ArrowTypeInfo, BufferOffset, DataMessage, DaemonReply, DaemonRequest, DropToken, LogicalType,
    Metadata, NodeEvent, ParamValue, ParamValueView, Timestamp, Timestamped,
};
use crate::config::{DaemonCommunication, NodeConfig};

verus! {

broadcast use vstd::std_specs::vec::group_vec_axioms, vstd::seq_lib::group_seq_properties;

pub fn write_u8(out: &mut Vec<u8>, x: u8)
    ensures
        final(out)@ == old(out)@ + enc_u8(x),
{
    out.push(x);
    assert(out@ =~= old(out)@ + enc_u8(x));
}

pub fn write_u64(out: &mut Vec<u8>, x: u64)
    ensures
        final(out)@ == old(out)@ + enc_u64(x),
{
    let mut b = vstd::bytes::u64_to_le_bytes(x);
    out.append(&mut b);
}

pub fn write_bool(out: &mut Vec<u8>, x: bool)
    ensures
        final(out)@ == old(out)@ + enc_bool(x),
{
    if x {
        write_u8(out, 1);
    } else {
        write_u8(out, 0);
    }
}

pub fn write_i64(out: &mut Vec<u8>, x: i64)
    ensures
        final(out)@ == old(out)@ + enc_i64(x),
{
    write_u64(out, x as u64);
}

pub fn write_usize(out: &mut Vec<u8>, x: usize)
    ensures
        final(out)@ == old(out)@ + enc_usize(x),
{
    write_u64(out, x as u64);
}

pub fn write_bytes(out: &mut Vec<u8>, b: &[u8])
    ensures
        final(out)@ == old(out)@ + enc_bytes(b@),
{
    write_u64(out, b.len() as u64);
    out.extend_from_slice(b);
    assert(out@ =~= old(out)@ + enc_bytes(b@));
}

pub fn write_str(out: &mut Vec<u8>, s: &str)
    ensures
        final(out)@ == old(out)@ + enc_str(s@),
{
    write_bytes(out, s.as_bytes());
}

pub fn write_timestamp(out: &mut Vec<u8>, t: &Timestamp)
    ensures
        final(out)@ == old(out)@ + enc_timestamp(*t),
{
    write_u64(out, t.time);
    write_u64(out, t.clock_id);
    assert(out@ =~= old(out)@ + enc_timestamp(*t));
}

pub fn write_token(out: &mut Vec<u8>, t: &DropToken)
    ensures
        final(out)@ == old(out)@ + enc_token(*t),
{
    write_u64(out, t.0);
}

pub fn write_ltype(out: &mut Vec<u8>, d: &LogicalType)
    ensures
        final(out)@ == old(out)@ + enc_ltype(*d),
{
    let tag: u8 = match d {
        LogicalType::UInt8 => 0,
        LogicalType::UInt64 => 1,
        LogicalType::Int32 => 2,
        LogicalType::Int64 => 3,
        LogicalType::Utf8 => 4,
        LogicalType::Binary => 5,
    };
    write_u8(out, tag);
}

pub fn write_boff(out: &mut Vec<u8>, o: &BufferOffset)
    ensures
        final(out)@ == old(out)@ + enc_boff(*o),
{
    write_usize(out, o.offset);
    write_usize(out, o.len);
    assert(out@ =~= old(out)@ + enc_boff(*o));
}

pub fn write_opt_bytes(out: &mut Vec<u8>, v: &Option<Vec<u8>>)
    ensures
        final(out)@ == old(out)@ + enc_opt_bytes(
            match v {
                Option::Some(b) => Option::Some(b@),
                Option::None => Option::None,
            },
        ),
{
    match v {
        Option::None => {
            write_u8(out, 0);
        },
        Option::Some(b) => {
            write_u8(out, 1);
            write_bytes(out, b.as_slice());
            assert(out@ =~= old(out)@ + (enc_u8(1u8) + enc_bytes(b@)));
        },
    }
}

/// Appending one more element extends the encoded item run.
pub proof fn lemma_enc_items_push<T>(items: Seq<T>, x: T, f: spec_fn(T) -> Seq<u8>)
    ensures
        enc_items(items.push(x), f) == enc_items(items, f) + f(x),
    decreases items.len(),
{
    if items.len() == 0 {
        let p = items.push(x);
        assert(p[0] == x);
        assert(p.drop_first() =~= Seq::<T>::empty());
        assert(enc_items(p.drop_first(), f) == enc_items(Seq::<T>::empty(), f));
        assert(enc_items(Seq::<T>::empty(), f) == Seq::<u8>::empty());
        assert(enc_items(p, f) == f(x) + Seq::<u8>::empty());
        assert(f(x) + Seq::<u8>::empty() =~= f(x));
        assert(enc_items(items, f) + f(x) =~= f(x));
    } else {
        assert(items.push(x)[0] == items[0]);
        assert(items.push(x).drop_first() =~= items.drop_first().push(x));
        lemma_enc_items_push(items.drop_first(), x, f);
        assert(enc_items(items.push(x), f) =~= f(items[0]) + (enc_items(items.drop_first(), f)
            + f(x)));
        assert(enc_items(items, f) + f(x) =~= f(items[0]) + (enc_items(items.drop_first(), f) + f(
            x,
        )));
    }
}

pub fn write_param(out: &mut Vec<u8>, p: &ParamValue)
    ensures
        final(out)@ == old(out)@ + enc_param(p@),
{
    match p {
        ParamValue::Bool(b) => {
            write_u8(out, 0);
            write_bool(out, *b);
        },
        ParamValue::Int(i) => {
            write_u8(out, 1);
            write_i64(out, *i);
        },
        ParamValue::Text(t) => {
            write_u8(out, 2);
            write_str(out, t.as_str());
        },
    }
    assert(out@ =~= old(out)@ + enc_param(p@));
}

pub fn write_entry(out: &mut Vec<u8>, k: &String, p: &ParamValue)
    ensures
        final(out)@ == old(out)@ + enc_entry((k@, p@)),
{
    write_str(out, k.as_str());
    write_param(out, p);
    assert(out@ =~= old(out)@ + enc_entry((k@, p@)));
}

pub fn write_params(out: &mut Vec<u8>, ps: &Vec<(String, ParamValue)>)
    ensures
        final(out)@ == old(out)@ + enc_list(
            Seq::new(ps@.len(), |i: int| (ps@[i].0@, ps@[i].1@)),
            |e: (Seq<char>, ParamValueView)| enc_entry(e),
        ),
{
    let ghost views = Seq::new(ps@.len(), |i: int| (ps@[i].0@, ps@[i].1@));
    let ghost f = |e: (Seq<char>, ParamValueView)| enc_entry(e);
    write_u64(out, ps.len() as u64);
    let ghost base = out@;
    let n = ps.len();
    for i in 0..n
        invariant
            n == ps@.len(),
            views == Seq::new(ps@.len(), |i: int| (ps@[i].0@, ps@[i].1@)),
            f == (|e: (Seq<char>, ParamValueView)| enc_entry(e)),
            out@ == base + enc_items(views.take(i as int), f),
    {
        write_entry(out, &ps[i].0, &ps[i].1);
        proof {
            assert(views[i as int] == (ps@[i as int].0@, ps@[i as int].1@));
            lemma_enc_items_push(views.take(i as int), views[i as int], f);
            assert(views.take(i as int).push(views[i as int]) =~= views.take(i + 1));
            assert(out@ =~= base + enc_items(views.take(i + 1), f));
        }
    }
    assert(views.take(n as int) =~= views);
    assert(out@ =~= old(out)@ + enc_list(views, f));
}

#[verifier::loop_isolation(false)]
pub fn write_ti(out: &mut Vec<u8>, t: &ArrowTypeInfo)
    ensures
        final(out)@ == old(out)@ + enc_ti(t@),
    decreases *t,
{
    let mut body: Vec<u8> = Vec::new();
    write_u64(&mut body, t.child_data.len() as u64);
    let ghost cviews = crate::message::type_info_views(t.child_data);
    let n = t.child_data.len();
    assert(cviews.len() == n);
    let ghost base = body@;
    for i in 0..n
        invariant
            n == t.child_data@.len(),
            cviews == crate::message::type_info_views(t.child_data),
            cviews.len() == n,
            body@ == base + enc_ti_items(cviews.take(i as int)),
    {
        write_ti(&mut body, &t.child_data[i]);
        proof {
            assert(cviews[i as int] == t.child_data[i as int]@);
            lemma_enc_ti_items_push(cviews.take(i as int), cviews[i as int]);
            assert(cviews.take(i as int).push(cviews[i as int]) =~= cviews.take(i + 1));
            assert(body@ =~= base + enc_ti_items(cviews.take(i + 1)));
        }
    }
    assert(cviews.take(n as int) =~= cviews);
    write_ltype(&mut body, &t.data_type);
    write_usize(&mut body, t.len);
    write_usize(&mut body, t.offset);
    write_opt_bytes(&mut body, &t.validity);
    let ghost bviews = t.buffer_offsets@;
    write_u64(&mut body, t.buffer_offsets.len() as u64);
    let ghost base2 = body@;
    let m = t.buffer_offsets.len();
    for j in 0..m
        invariant
            m == t.buffer_offsets@.len(),
            bviews == t.buffer_offsets@,
            body@ == base2 + enc_items(bviews.take(j as int), |o: BufferOffset| enc_boff(o)),
    {
        write_boff(&mut body, &t.buffer_offsets[j]);
        proof {
            lemma_enc_items_push(
                bviews.take(j as int),
                bviews[j as int],
                |o: BufferOffset| enc_boff(o),
            );
            assert(bviews.take(j as int).push(bviews[j as int]) =~= bviews.take(j + 1));
            assert(body@ =~= base2 + enc_items(
                bviews.take(j + 1),
                |o: BufferOffset| enc_boff(o),
            ));
        }
    }
    assert(bviews.take(m as int) =~= bviews);
    assert(body@ =~= enc_ti_body(t@));
    write_u64(out, body.len() as u64);
    out.append(&mut body);
    assert(out@ =~= old(out)@ + enc_ti(t@));
}

/// Appending one more descriptor extends the encoded descriptor run.
pub proof fn lemma_enc_ti_items_push(cs: Seq<crate::message::TypeInfoView>, x: crate::message::TypeInfoView)
    ensures
        enc_ti_items(cs.push(x)) == enc_ti_items(cs) + enc_ti(x),
    decreases cs.len(),
{
    if cs.len() == 0 {
        let p = cs.push(x);
        assert(p[0] == x);
        assert(p.drop_first() =~= Seq::<crate::message::TypeInfoView>::empty());
        assert(enc_ti_items(p.drop_first()) == enc_ti_items(
            Seq::<crate::message::TypeInfoView>::empty(),
        ));
        assert(enc_ti_items(Seq::<crate::message::TypeInfoView>::empty()) == Seq::<u8>::empty());
        assert(enc_ti_items(p) == enc_ti(x) + Seq::<u8>::empty());
        assert(enc_ti(x) + Seq::<u8>::empty() =~= enc_ti(x));
        assert(enc_ti_items(cs) + enc_ti(x) =~= enc_ti(x));
    } else {
        assert(cs.push(x)[0] == cs[0]);
        assert(cs.push(x).drop_first() =~= cs.drop_first().push(x));
        lemma_enc_ti_items_push(cs.drop_first(), x);
        assert(enc_ti_items(cs.push(x)) =~= enc_ti(cs[0]) + (enc_ti_items(cs.drop_first())
            + enc_ti(x)));
        assert(enc_ti_items(cs) + enc_ti(x) =~= enc_ti(cs[0]) + (enc_ti_items(cs.drop_first())
            + enc_ti(x)));
    }
}

pub fn write_meta(out: &mut Vec<u8>, m: &Metadata)
    ensures
        final(out)@ == old(out)@ + enc_meta(m@),
{
    write_timestamp(out, &m.timestamp);
    write_ti(out, &m.type_info);
    write_params(out, &m.parameters);
    assert(out@ =~= old(out)@ + enc_meta(m@));
}

pub fn write_data_message(out: &mut Vec<u8>, d: &DataMessage)
    ensures
        final(out)@ == old(out)@ + crate::codec::enc_data_message(d@),
{
    match d {
        DataMessage::Vec(b) => {
            write_u8(out, 0);
            write_bytes(out, b.as_slice());
        },
        DataMessage::SharedMemory { shared_memory_id, len, drop_token } => {
            write_u8(out, 1);
            write_str(out, shared_memory_id.as_str());
            write_usize(out, *len);
            write_token(out, drop_token);
        },
    }
    assert(out@ =~= old(out)@ + crate::codec::enc_data_message(d@));
}

pub fn write_opt_dm(out: &mut Vec<u8>, d: &Option<DataMessage>)
    ensures
        final(out)@ == old(out)@ + enc_opt_dm(
            match d {
                Option::Some(m) => Option::Some(m@),
                Option::None => Option::None,
            },
        ),
{
    match d {
        Option::None => {
            write_u8(out, 0);
        },
        Option::Some(m) => {
            write_u8(out, 1);
            write_data_message(out, m);
            assert(out@ =~= old(out)@ + (enc_u8(1u8) + crate::codec::enc_data_message(m@)));
        },
    }
}

pub fn write_id_list(out: &mut Vec<u8>, ids: &Vec<crate::config::DataId>)
    ensures
        final(out)@ == old(out)@ + enc_list(
            Seq::new(ids@.len(), |i: int| ids@[i]@),
            |t: Seq<char>| enc_str(t),
        ),
{
    let ghost views = Seq::new(ids@.len(), |i: int| ids@[i]@);
    let ghost f = |t: Seq<char>| enc_str(t);
    write_u64(out, ids.len() as u64);
    let ghost base = out@;
    let n = ids.len();
    for i in 0..n
        invariant
            n == ids@.len(),
            views == Seq::new(ids@.len(), |i: int| ids@[i]@),
            f == (|t: Seq<char>| enc_str(t)),
            out@ == base + enc_items(views.take(i as int), f),
    {
        write_str(out, ids[i].0.as_str());
        proof {
            assert(views[i as int] == ids@[i as int]@);
            lemma_enc_items_push(views.take(i as int), views[i as int], f);
            assert(views.take(i as int).push(views[i as int]) =~= views.take(i + 1));
            assert(out@ =~= base + enc_items(views.take(i + 1), f));
        }
    }
    assert(views.take(n as int) =~= views);
    assert(out@ =~= old(out)@ + enc_list(views, f));
}

pub fn write_request(out: &mut Vec<u8>, r: &DaemonRequest)
    ensures
        final(out)@ == old(out)@ + enc_request(r@),
{
    match r {
        DaemonRequest::NodeConfig { node_id } => {
            write_u8(out, 0);
            write_str(out, node_id.0.as_str());
        },
        DaemonRequest::Register { dataflow_id, node_id } => {
            write_u8(out, 1);
            write_str(out, dataflow_id.0.as_str());
            write_str(out, node_id.0.as_str());
        },
        DaemonRequest::Subscribe { dataflow_id, node_id } => {
            write_u8(out, 2);
            write_str(out, dataflow_id.0.as_str());
            write_str(out, node_id.0.as_str());
        },
        DaemonRequest::SubscribeDrop { dataflow_id, node_id } => {
            write_u8(out, 3);
            write_str(out, dataflow_id.0.as_str());
            write_str(out, node_id.0.as_str());
        },
        DaemonRequest::SendOutput { output_id, metadata, data } => {
            write_u8(out, 4);
            write_str(out, output_id.0.as_str());
            write_meta(out, metadata);
            write_opt_dm(out, data);
        },
        DaemonRequest::CloseOutputs { outputs } => {
            write_u8(out, 5);
            write_id_list(out, outputs);
        },
        DaemonRequest::OutputsDone => {
            write_u8(out, 6);
        },
        DaemonRequest::NextEvent => {
            write_u8(out, 7);
        },
        DaemonRequest::NextDropToken => {
            write_u8(out, 8);
        },
        DaemonRequest::ReportDropToken { token } => {
            write_u8(out, 9);
            write_token(out, token);
        },
    }
    assert(out@ =~= old(out)@ + enc_request(r@));
}

/// Serialize a timestamped request in the compact binary form used for
/// everything the node sends.
pub fn encode_ts_request(r: &Timestamped<DaemonRequest>) -> (out: Vec<u8>)
    ensures
        out@ == enc_ts_request(r.timestamp, r.inner@),
{
    let mut out: Vec<u8> = Vec::new();
    write_timestamp(&mut out, &r.timestamp);
    write_request(&mut out, &r.inner);
    assert(out@ =~= enc_ts_request(r.timestamp, r.inner@));
    out
}

pub fn write_event(out: &mut Vec<u8>, e: &NodeEvent)
    ensures
        final(out)@ == old(out)@ + enc_event(e@),
{
    match e {
        NodeEvent::Stop => {
            write_u8(out, 0);
        },
        NodeEvent::Reload { operator_id } => {
            write_u8(out, 1);
            match operator_id {
                Option::None => {
                    write_u8(out, 0);
                },
                Option::Some(t) => {
                    write_u8(out, 1);
                    write_str(out, t.as_str());
                    assert(out@ =~= old(out)@ + (enc_u8(1u8) + (enc_u8(1u8) + enc_str(t@))));
                },
            }
        },
        NodeEvent::Input { id, metadata, data } => {
            write_u8(out, 2);
            write_str(out, id.0.as_str());
            write_meta(out, metadata);
            write_opt_dm(out, data);
        },
        NodeEvent::InputClosed { id } => {
            write_u8(out, 3);
            write_str(out, id.0.as_str());
        },
    }
    assert(out@ =~= old(out)@ + enc_event(e@));
}

pub fn write_comm(out: &mut Vec<u8>, c: &DaemonCommunication)
    ensures
        final(out)@ == old(out)@ + enc_comm(c@),
{
    match c {
        DaemonCommunication::Tcp { socket_addr } => {
            write_u8(out, 0);
            write_u8(out, socket_addr.ip.o0);
            write_u8(out, socket_addr.ip.o1);
            write_u8(out, socket_addr.ip.o2);
            write_u8(out, socket_addr.ip.o3);
            write_u64(out, socket_addr.port as u64);
        },
        DaemonCommunication::Shmem { region_id } => {
            write_u8(out, 1);
            write_str(out, region_id.as_str());
        },
    }
    assert(out@ =~= old(out)@ + enc_comm(c@));
}

pub fn write_node_config(out: &mut Vec<u8>, c: &NodeConfig)
    ensures
        final(out)@ == old(out)@ + enc_node_config(c@),
{
    write_str(out, c.dataflow_id.0.as_str());
    write_str(out, c.node_id.0.as_str());
    write_id_list(out, &c.run_config.outputs);
    write_comm(out, &c.daemon_communication);
    write_str(out, c.dataflow_descriptor.as_str());
    write_bool(out, c.dynamic);
    assert(Seq::new(c.run_config.outputs@.len(), |i: int| c.run_config.outputs@[i]@)
        =~= c.run_config.ids());
    assert(out@ =~= old(out)@ + enc_node_config(c@));
}

/// Serialize a reply under the given serializer: a tag byte for the
/// compact binary form, the spelled-out variant name for the
/// self-describing form.
pub fn encode_reply(ser: Serializer, r: &DaemonReply) -> (out: Vec<u8>)
    ensures
        out@ == enc_reply(ser, r@),
{
    let mut out: Vec<u8> = Vec::new();
    match ser {
        Serializer::Bincode => {
            let tag: u8 = match r {
                DaemonReply::Empty => 0,
                DaemonReply::NodeConfig { .. } => 1,
                DaemonReply::NextEvents { .. } => 2,
                DaemonReply::NextDropToken { .. } => 3,
                DaemonReply::Error { .. } => 4,
            };
            write_u8(&mut out, tag);
        },
        Serializer::SerdeJson => {
            let name: &str = match r {
                DaemonReply::Empty => "Empty",
                DaemonReply::NodeConfig { .. } => "NodeConfig",
                DaemonReply::NextEvents { .. } => "NextEvents",
                DaemonReply::NextDropToken { .. } => "NextDropToken",
                DaemonReply::Error { .. } => "Error",
            };
            write_str(&mut out, name);
        },
    }
    write_reply_body(&mut out, r);
    assert(out@ =~= enc_reply(ser, r@));
    out
}

fn write_reply_body(out: &mut Vec<u8>, r: &DaemonReply)
    ensures
        final(out)@ == old(out)@ + enc_reply_body(r@),
{
    match r {
        DaemonReply::Empty => {
            assert(out@ =~= old(out)@ + enc_reply_body(r@));
        },
        DaemonReply::NodeConfig { result } => {
            match result {
                Result::Ok(c) => {
                    write_u8(out, 0);
                    write_node_config(out, c);
                    assert(out@ =~= old(out)@ + (enc_u8(0u8) + enc_node_config(c@)));
                },
                Result::Err(e) => {
                    write_u8(out, 1);
                    write_str(out, e.as_str());
                    assert(out@ =~= old(out)@ + (enc_u8(1u8) + enc_str(e@)));
                },
            }
        },
        DaemonReply::NextEvents { events } => {
            let ghost views = Seq::new(events@.len(), |i: int| events@[i]@);
            let ghost f = |e: crate::message::NodeEventView| enc_event(e);
            write_u64(out, events.len() as u64);
            let ghost base = out@;
            let n = events.len();
            for i in 0..n
                invariant
                    n == events@.len(),
                    views == Seq::new(events@.len(), |i: int| events@[i]@),
                    f == (|e: crate::message::NodeEventView| enc_event(e)),
                    out@ == base + enc_items(views.take(i as int), f),
            {
                write_event(out, &events[i]);
                proof {
                    assert(views[i as int] == events@[i as int]@);
                    lemma_enc_items_push(views.take(i as int), views[i as int], f);
                    assert(views.take(i as int).push(views[i as int]) =~= views.take(i + 1));
                    assert(out@ =~= base + enc_items(views.take(i + 1), f));
                }
            }
            assert(views.take(n as int) =~= views);
            assert(out@ =~= old(out)@ + enc_reply_body(r@));
        },
        DaemonReply::NextDropToken { token } => {
            match token {
                Option::None => {
                    write_u8(out, 0);
                },
                Option::Some(t) => {
                    write_u8(out, 1);
                    write_token(out, t);
                    assert(out@ =~= old(out)@ + (enc_u8(1u8) + enc_token(*t)));
                },
            }
        },
        DaemonReply::Error { message } => {
            write_str(out, message.as_str());
        },
    }
    assert(out@ =~= old(out)@ + enc_reply_body(r@));
}

// --- decoders ---

pub fn read_u8(buf: &Vec<u8>, pos: usize) -> (r: Option<(u8, usize)>)
    requires
        pos <= buf@.len(),
    ensures
        match r {
            Option::Some(v) => pos <= v.1 <= buf@.len() && v.1 == pos + 1 && dec_u8(
                buf@.skip(pos as int),
            ) == Option::Some((v.0, buf@.skip(v.1 as int))),
            Option::None => dec_u8(buf@.skip(pos as int)) is None,
        },
{
    if pos < buf.len() {
        let b = buf[pos];
        proof {
            assert(buf@.skip(pos as int)[0] == b);
            assert(buf@.skip(pos as int).skip(1) =~= buf@.skip(pos as int + 1));
        }
        Option::Some((b, pos + 1))
    } else {
        Option::None
    }
}

pub fn read_u64(buf: &Vec<u8>, pos: usize) -> (r: Option<(u64, usize)>)
    requires
        pos <= buf@.len(),
    ensures
        match r {
            Option::Some(v) => pos <= v.1 <= buf@.len() && v.1 == pos + 8 && dec_u64(
                buf@.skip(pos as int),
            ) == Option::Some((v.0, buf@.skip(v.1 as int))),
            Option::None => dec_u64(buf@.skip(pos as int)) is None,
        },
{
    if buf.len() - pos >= 8 {
        let sub = vstd::slice::slice_subrange(buf.as_slice(), pos, pos + 8);
        let x = vstd::bytes::u64_from_le_bytes(sub);
        proof {
            assert(sub@ =~= buf@.skip(pos as int).take(8));
            assert(buf@.skip(pos as int).skip(8) =~= buf@.skip(pos as int + 8));
        }
        Option::Some((x, pos + 8))
    } else {
        Option::None
    }
}

pub fn read_bool(buf: &Vec<u8>, pos: usize) -> (r: Option<(bool, usize)>)
    requires
        pos <= buf@.len(),
    ensures
        match r {
            Option::Some(v) => pos <= v.1 <= buf@.len() && dec_bool(buf@.skip(pos as int))
                == Option::Some((v.0, buf@.skip(v.1 as int))),
            Option::None => dec_bool(buf@.skip(pos as int)) is None,
        },
{
    if pos < buf.len() {
        let b = buf[pos];
        proof {
            assert(buf@.skip(pos as int)[0] == b);
            assert(buf@.skip(pos as int).skip(1) =~= buf@.skip(pos as int + 1));
        }
        if b == 0 {
            Option::Some((false, pos + 1))
        } else if b == 1 {
            Option::Some((true, pos + 1))
        } else {
            Option::None
        }
    } else {
        Option::None
    }
}

pub fn read_i64(buf: &Vec<u8>, pos: usize) -> (r: Option<(i64, usize)>)
    requires
        pos <= buf@.len(),
    ensures
        match r {
            Option::Some(v) => pos <= v.1 <= buf@.len() && dec_i64(buf@.skip(pos as int))
                == Option::Some((v.0, buf@.skip(v.1 as int))),
            Option::None => dec_i64(buf@.skip(pos as int)) is None,
        },
{
    match read_u64(buf, pos) {
        Option::Some((x, p)) => Option::Some((x as i64, p)),
        Option::None => Option::None,
    }
}

pub fn read_usize(buf: &Vec<u8>, pos: usize) -> (r: Option<(usize, usize)>)
    requires
        pos <= buf@.len(),
    ensures
        match r {
            Option::Some(v) => pos <= v.1 <= buf@.len() && dec_usize(buf@.skip(pos as int))
                == Option::Some((v.0, buf@.skip(v.1 as int))),
            Option::None => dec_usize(buf@.skip(pos as int)) is None,
        },
{
    match read_u64(buf, pos) {
        Option::Some((x, p)) => if x <= usize::MAX as u64 {
            Option::Some((x as usize, p))
        } else {
            Option::None
        },
        Option::None => Option::None,
    }
}

pub fn read_bytes(buf: &Vec<u8>, pos: usize) -> (r: Option<(Vec<u8>, usize)>)
    requires
        pos <= buf@.len(),
    ensures
        match r {
            Option::Some(v) => pos <= v.1 <= buf@.len() && dec_bytes(buf@.skip(pos as int))
                == Option::Some((v.0@, buf@.skip(v.1 as int))),
            Option::None => dec_bytes(buf@.skip(pos as int)) is None,
        },
{
    match read_u64(buf, pos) {
        Option::Some((n, p)) => {
            if n <= (buf.len() - p) as u64 {
                let nn = n as usize;
                let sub = vstd::slice::slice_subrange(buf.as_slice(), p, p + nn);
                let out = vstd::slice::slice_to_vec(sub);
                proof {
                    assert(sub@ =~= buf@.skip(p as int).take(n as int));
                    assert(buf@.skip(p as int).skip(n as int) =~= buf@.skip(p as int + n));
                }
                Option::Some((out, p + nn))
            } else {
                Option::None
            }
        },
        Option::None => Option::None,
    }
}

/// Relies on String::from_utf8: succeeds exactly on valid UTF-8 input
/// and yields the decoded characters.
#[verifier::external_body]
fn string_from_utf8(v: Vec<u8>) -> (r: Result<String, ()>)
    ensures
        match r {
            Result::Ok(s) => vstd::utf8::valid_utf8(v@) && s@ == vstd::utf8::decode_utf8(v@),
            Result::Err(e) => !vstd::utf8::valid_utf8(v@),
        },
{
    String::from_utf8(v).map_err(|_| ())
}

pub fn read_string(buf: &Vec<u8>, pos: usize) -> (r: Option<(String, usize)>)
    requires
        pos <= buf@.len(),
    ensures
        match r {
            Option::Some(v) => pos <= v.1 <= buf@.len() && dec_str(buf@.skip(pos as int))
                == Option::Some((v.0@, buf@.skip(v.1 as int))),
            Option::None => dec_str(buf@.skip(pos as int)) is None,
        },
{
    match read_bytes(buf, pos) {
        Option::Some((b, p)) => match string_from_utf8(b) {
            Result::Ok(s) => Option::Some((s, p)),
            Result::Err(_) => Option::None,
        },
        Option::None => Option::None,
    }
}

pub fn read_timestamp(buf: &Vec<u8>, pos: usize) -> (r: Option<(Timestamp, usize)>)
    requires
        pos <= buf@.len(),
    ensures
        match r {
            Option::Some(v) => pos <= v.1 <= buf@.len() && dec_timestamp(buf@.skip(pos as int))
                == Option::Some((v.0, buf@.skip(v.1 as int))),
            Option::None => dec_timestamp(buf@.skip(pos as int)) is None,
        },
{
    match read_u64(buf, pos) {
        Option::Some((time, p1)) => match read_u64(buf, p1) {
            Option::Some((clock_id, p2)) => Option::Some((Timestamp { time, clock_id }, p2)),
            Option::None => Option::None,
        },
        Option::None => Option::None,
    }
}

pub fn read_token(buf: &Vec<u8>, pos: usize) -> (r: Option<(DropToken, usize)>)
    requires
        pos <= buf@.len(),
    ensures
        match r {
            Option::Some(v) => pos <= v.1 <= buf@.len() && dec_token(buf@.skip(pos as int))
                == Option::Some((v.0, buf@.skip(v.1 as int))),
            Option::None => dec_token(buf@.skip(pos as int)) is None,
        },
{
    match read_u64(buf, pos) {
        Option::Some((x, p)) => Option::Some((DropToken(x), p)),
        Option::None => Option::None,
    }
}

pub fn read_ltype(buf: &Vec<u8>, pos: usize) -> (r: Option<(LogicalType, usize)>)
    requires
        pos <= buf@.len(),
    ensures
        match r {
            Option::Some(v) => pos <= v.1 <= buf@.len() && dec_ltype(buf@.skip(pos as int))
                == Option::Some((v.0, buf@.skip(v.1 as int))),
            Option::None => dec_ltype(buf@.skip(pos as int)) is None,
        },
{
    match read_u8(buf, pos) {
        Option::Some((t, p)) => {
            let d = if t == 0 {
                Option::Some(LogicalType::UInt8)
            } else if t == 1 {
                Option::Some(LogicalType::UInt64)
            } else if t == 2 {
                Option::Some(LogicalType::Int32)
            } else if t == 3 {
                Option::Some(LogicalType::Int64)
            } else if t == 4 {
                Option::Some(LogicalType::Utf8)
            } else if t == 5 {
                Option::Some(LogicalType::Binary)
            } else {
                Option::None
            };
            match d {
                Option::Some(d) => Option::Some((d, p)),
                Option::None => Option::None,
            }
        },
        Option::None => Option::None,
    }
}

pub fn read_boff(buf: &Vec<u8>, pos: usize) -> (r: Option<(BufferOffset, usize)>)
    requires
        pos <= buf@.len(),
    ensures
        match r {
            Option::Some(v) => pos <= v.1 <= buf@.len() && dec_boff(buf@.skip(pos as int))
                == Option::Some((v.0, buf@.skip(v.1 as int))),
            Option::None => dec_boff(buf@.skip(pos as int)) is None,
        },
{
    match read_usize(buf, pos) {
        Option::Some((offset, p1)) => match read_usize(buf, p1) {
            Option::Some((len, p2)) => Option::Some((BufferOffset { offset, len }, p2)),
            Option::None => Option::None,
        },
        Option::None => Option::None,
    }
}

pub fn read_opt_bytes(buf: &Vec<u8>, pos: usize) -> (r: Option<(Option<Vec<u8>>, usize)>)
    requires
        pos <= buf@.len(),
    ensures
        match r {
            Option::Some(v) => pos <= v.1 <= buf@.len() && dec_opt_bytes(buf@.skip(pos as int))
                == Option::Some(
                (
                    match v.0 {
                        Option::Some(b) => Option::Some(b@),
                        Option::None => Option::None,
                    },
                    buf@.skip(v.1 as int),
                ),
            ),
            Option::None => dec_opt_bytes(buf@.skip(pos as int)) is None,
        },
{
    match read_u8(buf, pos) {
        Option::Some((t, p)) => if t == 0 {
            Option::Some((Option::None, p))
        } else if t == 1 {
            match read_bytes(buf, p) {
                Option::Some((b, p2)) => Option::Some((Option::Some(b), p2)),
                Option::None => Option::None,
            }
        } else {
            Option::None
        },
        Option::None => Option::None,
    }
}

pub fn read_param(buf: &Vec<u8>, pos: usize) -> (r: Option<(ParamValue, usize)>)
    requires
        pos <= buf@.len(),
    ensures
        match r {
            Option::Some(v) => pos <= v.1 <= buf@.len() && dec_param(buf@.skip(pos as int))
                == Option::Some((v.0@, buf@.skip(v.1 as int))),
            Option::None => dec_param(buf@.skip(pos as int)) is None,
        },
{
    match read_u8(buf, pos) {
        Option::Some((t, p)) => if t == 0 {
            match read_bool(buf, p) {
                Option::Some((b, p2)) => Option::Some((ParamValue::Bool(b), p2)),
                Option::None => Option::None,
            }
        } else if t == 1 {
            match read_i64(buf, p) {
                Option::Some((i, p2)) => Option::Some((ParamValue::Int(i), p2)),
                Option::None => Option::None,
            }
        } else if t == 2 {
            match read_string(buf, p) {
                Option::Some((x, p2)) => Option::Some((ParamValue::Text(x), p2)),
                Option::None => Option::None,
            }
        } else {
            Option::None
        },
        Option::None => Option::None,
    }
}

pub fn read_entry(buf: &Vec<u8>, pos: usize) -> (r: Option<((String, ParamValue), usize)>)
    requires
        pos <= buf@.len(),
    ensures
        match r {
            Option::Some(v) => pos <= v.1 <= buf@.len() && dec_entry(buf@.skip(pos as int))
                == Option::Some(((v.0.0@, v.0.1@), buf@.skip(v.1 as int))),
            Option::None => dec_entry(buf@.skip(pos as int)) is None,
        },
{
    match read_string(buf, pos) {
        Option::Some((k, p1)) => match read_param(buf, p1) {
            Option::Some((pv, p2)) => Option::Some(((k, pv), p2)),
            Option::None => Option::None,
        },
        Option::None => Option::None,
    }
}

#[verifier::spinoff_prover]
#[verifier::rlimit(100)]
pub fn read_params(buf: &Vec<u8>, pos: usize) -> (r: Option<(Vec<(String, ParamValue)>, usize)>)
    requires
        pos <= buf@.len(),
    ensures
        match r {
            Option::Some(v) => pos <= v.1 <= buf@.len() && dec_list(
                buf@.skip(pos as int),
                |u: Seq<u8>| dec_entry(u),
            ) == Option::Some(
                (
                    Seq::new(v.0@.len(), |i: int| (v.0@[i].0@, v.0@[i].1@)),
                    buf@.skip(v.1 as int),
                ),
            ),
            Option::None => dec_list(buf@.skip(pos as int), |u: Seq<u8>| dec_entry(u)) is None,
        },
{
    let ghost g = |u: Seq<u8>| dec_entry(u);
    match read_u64(buf, pos) {
        Option::Some((n, p0)) => {
            let mut out: Vec<(String, ParamValue)> = Vec::new();
            let mut p = p0;
            let mut i: u64 = 0;
            while i < n
                invariant
                    i <= n,
                    pos <= p0 <= p <= buf@.len(),
                    out@.len() == i,
                    g == (|u: Seq<u8>| dec_entry(u)),
                    dec_u64(buf@.skip(pos as int)) == Option::Some((n, buf@.skip(p0 as int))),
                    dec_items(buf@.skip(p0 as int), n as nat, g) == opt_prepend(
                        Seq::new(out@.len(), |k: int| (out@[k].0@, out@[k].1@)),
                        dec_items(buf@.skip(p as int), (n - i) as nat, g),
                    ),
                decreases n - i,
            {
                let ghost pre = Seq::new(out@.len(), |k: int| (out@[k].0@, out@[k].1@));
                match read_entry(buf, p) {
                    Option::Some((e, p2)) => {
                        let ghost ev = (e.0@, e.1@);
                        proof {
                            assert(dec_items(buf@.skip(p as int), (n - i) as nat, g)
                                == opt_prepend(
                                seq![ev],
                                dec_items(buf@.skip(p2 as int), (n - i - 1) as nat, g),
                            ));
                        }
                        out.push(e);
                        p = p2;
                        i = i + 1;
                        proof {
                            let post = Seq::new(out@.len(), |k: int| (out@[k].0@, out@[k].1@));
                            assert(post =~= pre.push(ev));
                            match dec_items(buf@.skip(p as int), (n - i) as nat, g) {
                                Option::Some((xs, s2)) => {
                                    assert(pre + (seq![ev] + xs) =~= post + xs);
                                },
                                Option::None => {},
                            }
                        }
                    },
                    Option::None => {
                        proof {
                            assert(dec_items(buf@.skip(p as int), (n - i) as nat, g) is None);
                        }
                        return Option::None;
                    },
                }
            }
            proof {
                assert(i == n);
                assert(dec_items(buf@.skip(p as int), (n - i) as nat, g) == Option::Some(
                    (Seq::<(Seq<char>, ParamValueView)>::empty(), buf@.skip(p as int)),
                ));
                let pre = Seq::new(out@.len(), |k: int| (out@[k].0@, out@[k].1@));
                assert(pre + Seq::<(Seq<char>, ParamValueView)>::empty() =~= pre);
                assert(dec_items(buf@.skip(p0 as int), n as nat, g) == Option::Some(
                    (pre, buf@.skip(p as int)),
                ));
                assert(dec_list(buf@.skip(pos as int), g) == Option::Some(
                    (pre, buf@.skip(p as int)),
                ));
            }
            Option::Some((out, p))
        },
        Option::None => Option::None,
    }
}

/// Decode one descriptor block from the start of `buf`.
#[verifier::loop_isolation(false)]
#[verifier::spinoff_prover]
#[verifier::rlimit(100)]
pub fn decode_ti(buf: &Vec<u8>) -> (r: Option<(ArrowTypeInfo, usize)>)
    ensures
        match r {
            Option::Some(v) => v.1 <= buf@.len() && dec_ti(buf@) == Option::Some(
                (v.0@, buf@.skip(v.1 as int)),
            ),
            Option::None => dec_ti(buf@) is None,
        },
    decreases buf@.len(), 0int,
{
    let whole = buf.len();
    match read_u64(buf, 0) {
        Option::Some((ln, p0)) => {
            assert(buf@.skip(0) =~= buf@);
            if ln > (whole - p0) as u64 {
                return Option::None;
            }
            let lnu = ln as usize;
            let body: Vec<u8> = vstd::slice::slice_to_vec(
                vstd::slice::slice_subrange(buf.as_slice(), p0, p0 + lnu),
            );
            proof {
                assert(body@ =~= buf@.skip(p0 as int).take(ln as int));
            }
            let ghost rest = buf@.skip(p0 as int).skip(ln as int);
            assert(rest =~= buf@.skip(p0 + ln as int));
            // body: child count, children, then the scalar fields
            match read_u64(&body, 0) {
                Option::Some((n, q0)) => {
                    assert(body@.skip(0) =~= body@);
                    match decode_ti_list(&body, q0, n) {
                        Option::Some((children, q1)) => {
                            match read_ltype(&body, q1) {
                                Option::Some((dt, q2)) => {
                                    match read_usize(&body, q2) {
                                        Option::Some((len, q3)) => {
                                            match read_usize(&body, q3) {
                                                Option::Some((off, q4)) => {
                                                    match read_opt_bytes(&body, q4) {
                                                        Option::Some((va, q5)) => {
                                                            match read_boffs(&body, q5) {
                                                                Option::Some((offs, q6)) => {
                                                                    if q6 == body.len() {
                                                                        let t = ArrowTypeInfo {
                                                                            data_type: dt,
                                                                            len: len,
                                                                            offset: off,
                                                                            validity: va,
                                                                            buffer_offsets: offs,
                                                                            child_data: children,
                                                                        };
                                                                        proof {
                                                                            assert(body@.skip(q6 as int) =~= Seq::<u8>::empty());
                                                                            assert(dec_ti_fields(body@, rest) == Option::Some((t@, rest)));
                                                                        }
                                                                        Option::Some((t, p0 + lnu))
                                                                    } else {
                                                                        assert(body@.skip(q6 as int).len() > 0);
                                                                        Option::None
                                                                    }
                                                                },
                                                                Option::None => Option::None,
                                                            }
                                                        },
                                                        Option::None => Option::None,
                                                    }
                                                },
                                                Option::None => Option::None,
                                            }
                                        },
                                        Option::None => Option::None,
                                    }
                                },
                                Option::None => Option::None,
                            }
                        },
                        Option::None => Option::None,
                    }
                },
                Option::None => Option::None,
            }
        },
        Option::None => {
            assert(buf@.skip(0) =~= buf@);
            Option::None
        },
    }
}

/// Decode `n` consecutive descriptor blocks starting at `pos`.
#[verifier::loop_isolation(false)]
#[verifier::spinoff_prover]
#[verifier::rlimit(100)]
fn decode_ti_list(body: &Vec<u8>, pos: usize, n: u64) -> (r: Option<(Vec<ArrowTypeInfo>, usize)>)
    requires
        pos <= body@.len(),
    ensures
        match r {
            Option::Some(v) => pos <= v.1 <= body@.len() && dec_ti_list(
                body@.skip(pos as int),
                n as nat,
            ) == Option::Some(
                (crate::message::type_info_views(v.0), body@.skip(v.1 as int)),
            ),
            Option::None => dec_ti_list(body@.skip(pos as int), n as nat) is None,
        },
    decreases body@.len() - pos, 1int,
{
    let mut out: Vec<ArrowTypeInfo> = Vec::new();
    let mut p = pos;
    let mut i: u64 = 0;
    while i < n
        invariant
            i <= n,
            pos <= p <= body@.len(),
            out@.len() == i,
            dec_ti_list(body@.skip(pos as int), n as nat) == opt_prepend(
                crate::message::type_info_views(out),
                dec_ti_list(body@.skip(p as int), (n - i) as nat),
            ),
        decreases n - i,
    {
        let ghost pre = crate::message::type_info_views(out);
        let ghost s_here = body@.skip(p as int);
        match read_u64(body, p) {
            Option::Some((ln, p1)) => {
                if ln > (body.len() - p1) as u64 {
                    assert(dec_ti_list(s_here, (n - i) as nat) is None);
                    return Option::None;
                }
                let lnu = ln as usize;
                let elem: Vec<u8> = vstd::slice::slice_to_vec(
                    vstd::slice::slice_subrange(body.as_slice(), p, p1 + lnu),
                );
                proof {
                    assert(elem@ =~= s_here.take(8 + ln as int));
                }
                match decode_ti(&elem) {
                    Option::Some((t, used)) => {
                        if used != elem.len() {
                            proof {
                                assert(elem@.skip(used as int).len() > 0);
                                assert(dec_ti_list(s_here, (n - i) as nat) is None);
                            }
                            return Option::None;
                        }
                        proof {
                            assert(elem@.skip(used as int) =~= Seq::<u8>::empty());
                            assert(dec_ti_list(s_here, (n - i) as nat) == opt_prepend(
                                seq![t@],
                                dec_ti_list(s_here.skip(8 + ln as int), (n - i - 1) as nat),
                            ));
                            assert(s_here.skip(8 + ln as int) =~= body@.skip(p + 8 + ln as int));
                        }
                        out.push(t);
                        p = p1 + lnu;
                        i = i + 1;
                        proof {
                            let post = crate::message::type_info_views(out);
                            assert(post =~= pre.push(t@));
                            match dec_ti_list(body@.skip(p as int), (n - i) as nat) {
                                Option::Some((xs, s2)) => {
                                    assert(pre + (seq![t@] + xs) =~= post + xs);
                                },
                                Option::None => {},
                            }
                        }
                    },
                    Option::None => {
                        proof {
                            assert(dec_ti_list(s_here, (n - i) as nat) is None);
                        }
                        return Option::None;
                    },
                }
            },
            Option::None => {
                proof {
                    assert(dec_ti_list(s_here, (n - i) as nat) is None);
                }
                return Option::None;
            },
        }
    }
    proof {
        assert(dec_ti_list(body@.skip(p as int), 0) == Option::Some(
            (Seq::<crate::message::TypeInfoView>::empty(), body@.skip(p as int)),
        ));
        let pre = crate::message::type_info_views(out);
        assert(pre + Seq::<crate::message::TypeInfoView>::empty() =~= pre);
    }
    Option::Some((out, p))
}

/// Decode a length-prefixed run of buffer slices.
#[verifier::spinoff_prover]
#[verifier::rlimit(100)]
pub fn read_boffs(buf: &Vec<u8>, pos: usize) -> (r: Option<(Vec<BufferOffset>, usize)>)
    requires
        pos <= buf@.len(),
    ensures
        match r {
            Option::Some(v) => pos <= v.1 <= buf@.len() && dec_list(
                buf@.skip(pos as int),
                |u: Seq<u8>| dec_boff(u),
            ) == Option::Some((v.0@, buf@.skip(v.1 as int))),
            Option::None => dec_list(buf@.skip(pos as int), |u: Seq<u8>| dec_boff(u)) is None,
        },
{
    let ghost g = |u: Seq<u8>| dec_boff(u);
    match read_u64(buf, pos) {
        Option::Some((n, p0)) => {
            let mut out: Vec<BufferOffset> = Vec::new();
            let mut p = p0;
            let mut i: u64 = 0;
            while i < n
                invariant
                    i <= n,
                    pos <= p0 <= p <= buf@.len(),
                    out@.len() == i,
                    g == (|u: Seq<u8>| dec_boff(u)),
                    dec_u64(buf@.skip(pos as int)) == Option::Some((n, buf@.skip(p0 as int))),
                    dec_items(buf@.skip(p0 as int), n as nat, g) == opt_prepend(
                        out@,
                        dec_items(buf@.skip(p as int), (n - i) as nat, g),
                    ),
                decreases n - i,
            {
                let ghost pre = out@;
                match read_boff(buf, p) {
                    Option::Some((o, p2)) => {
                        proof {
                            assert(dec_items(buf@.skip(p as int), (n - i) as nat, g)
                                == opt_prepend(
                                seq![o],
                                dec_items(buf@.skip(p2 as int), (n - i - 1) as nat, g),
                            ));
                        }
                        out.push(o);
                        p = p2;
                        i = i + 1;
                        proof {
                            assert(out@ =~= pre.push(o));
                            match dec_items(buf@.skip(p as int), (n - i) as nat, g) {
                                Option::Some((xs, s2)) => {
                                    assert(pre + (seq![o] + xs) =~= out@ + xs);
                                },
                                Option::None => {},
                            }
                        }
                    },
                    Option::None => {
                        return Option::None;
                    },
                }
            }
            proof {
                assert(dec_items(buf@.skip(p as int), 0, g) == Option::Some(
                    (Seq::<BufferOffset>::empty(), buf@.skip(p as int)),
                ));
                assert(out@ + Seq::<BufferOffset>::empty() =~= out@);
            }
            Option::Some((out, p))
        },
        Option::None => Option::None,
    }
}

pub fn read_ti(buf: &Vec<u8>, pos: usize) -> (r: Option<(ArrowTypeInfo, usize)>)
    requires
        pos <= buf@.len(),
    ensures
        match r {
            Option::Some(v) => pos <= v.1 <= buf@.len() && dec_ti(buf@.skip(pos as int))
                == Option::Some((v.0@, buf@.skip(v.1 as int))),
            Option::None => dec_ti(buf@.skip(pos as int)) is None,
        },
{
    let copy: Vec<u8> = vstd::slice::slice_to_vec(
        vstd::slice::slice_subrange(buf.as_slice(), pos, buf.len()),
    );
    proof {
        assert(copy@ =~= buf@.skip(pos as int));
    }
    match decode_ti(&copy) {
        Option::Some((t, used)) => {
            proof {
                assert(copy@.skip(used as int) =~= buf@.skip(pos + used as int));
            }
            Option::Some((t, pos + used))
        },
        Option::None => Option::None,
    }
}

pub fn read_meta(buf: &Vec<u8>, pos: usize) -> (r: Option<(Metadata, usize)>)
    requires
        pos <= buf@.len(),
    ensures
        match r {
            Option::Some(v) => pos <= v.1 <= buf@.len() && dec_meta(buf@.skip(pos as int))
                == Option::Some((v.0@, buf@.skip(v.1 as int))),
            Option::None => dec_meta(buf@.skip(pos as int)) is None,
        },
{
    match read_timestamp(buf, pos) {
        Option::Some((ts, p1)) => match read_ti(buf, p1) {
            Option::Some((ti, p2)) => match read_params(buf, p2) {
                Option::Some((ps, p3)) => {
                    let m = Metadata { timestamp: ts, type_info: ti, parameters: ps };
                    proof {
                        assert(m@.parameters =~= Seq::new(
                            ps@.len(),
                            |i: int| (ps@[i].0@, ps@[i].1@),
                        ));
                    }
                    Option::Some((m, p3))
                },
                Option::None => Option::None,
            },
            Option::None => Option::None,
        },
        Option::None => Option::None,
    }
}

pub fn read_data_message(buf: &Vec<u8>, pos: usize) -> (r: Option<(DataMessage, usize)>)
    requires
        pos <= buf@.len(),
    ensures
        match r {
            Option::Some(v) => pos <= v.1 <= buf@.len() && dec_data_message(
                buf@.skip(pos as int),
            ) == Option::Some((v.0@, buf@.skip(v.1 as int))),
            Option::None => dec_data_message(buf@.skip(pos as int)) is None,
        },
{
    match read_u8(buf, pos) {
        Option::Some((t, p)) => if t == 0 {
            match read_bytes(buf, p) {
                Option::Some((b, p2)) => Option::Some((DataMessage::Vec(b), p2)),
                Option::None => Option::None,
            }
        } else if t == 1 {
            match read_string(buf, p) {
                Option::Some((id, p2)) => match read_usize(buf, p2) {
                    Option::Some((len, p3)) => match read_token(buf, p3) {
                        Option::Some((tok, p4)) => Option::Some(
                            (
                                DataMessage::SharedMemory {
                                    shared_memory_id: id,
                                    len: len,
                                    drop_token: tok,
                                },
                                p4,
                            ),
                        ),
                        Option::None => Option::None,
                    },
                    Option::None => Option::None,
                },
                Option::None => Option::None,
            }
        } else {
            Option::None
        },
        Option::None => Option::None,
    }
}

pub fn read_opt_dm(buf: &Vec<u8>, pos: usize) -> (r: Option<(Option<DataMessage>, usize)>)
    requires
        pos <= buf@.len(),
    ensures
        match r {
            Option::Some(v) => pos <= v.1 <= buf@.len() && dec_opt_dm(buf@.skip(pos as int))
                == Option::Some(
                (
                    match v.0 {
                        Option::Some(m) => Option::Some(m@),
                        Option::None => Option::None,
                    },
                    buf@.skip(v.1 as int),
                ),
            ),
            Option::None => dec_opt_dm(buf@.skip(pos as int)) is None,
        },
{
    match read_u8(buf, pos) {
        Option::Some((t, p)) => if t == 0 {
            Option::Some((Option::None, p))
        } else if t == 1 {
            match read_data_message(buf, p) {
                Option::Some((m, p2)) => Option::Some((Option::Some(m), p2)),
                Option::None => Option::None,
            }
        } else {
            Option::None
        },
        Option::None => Option::None,
    }
}

#[verifier::spinoff_prover]
#[verifier::rlimit(100)]
pub fn read_event(buf: &Vec<u8>, pos: usize) -> (r: Option<(NodeEvent, usize)>)
    requires
        pos <= buf@.len(),
    ensures
        match r {
            Option::Some(v) => pos <= v.1 <= buf@.len() && dec_event(buf@.skip(pos as int))
                == Option::Some((v.0@, buf@.skip(v.1 as int))),
            Option::None => dec_event(buf@.skip(pos as int)) is None,
        },
{
    match read_u8(buf, pos) {
        Option::Some((t, p)) => if t == 0 {
            Option::Some((NodeEvent::Stop, p))
        } else if t == 1 {
            match read_u8(buf, p) {
                Option::Some((o, p1)) => if o == 0 {
                    Option::Some((NodeEvent::Reload { operator_id: Option::None }, p1))
                } else if o == 1 {
                    match read_string(buf, p1) {
                        Option::Some((x, p2)) => Option::Some(
                            (NodeEvent::Reload { operator_id: Option::Some(x) }, p2),
                        ),
                        Option::None => Option::None,
                    }
                } else {
                    Option::None
                },
                Option::None => Option::None,
            }
        } else if t == 2 {
            match read_string(buf, p) {
                Option::Some((id, p1)) => match read_meta(buf, p1) {
                    Option::Some((m, p2)) => match read_opt_dm(buf, p2) {
                        Option::Some((d, p3)) => Option::Some(
                            (
                                NodeEvent::Input {
                                    id: crate::config::DataId(id),
                                    metadata: m,
                                    data: d,
                                },
                                p3,
                            ),
                        ),
                        Option::None => Option::None,
                    },
                    Option::None => Option::None,
                },
                Option::None => Option::None,
            }
        } else if t == 3 {
            match read_string(buf, p) {
                Option::Some((id, p1)) => Option::Some(
                    (NodeEvent::InputClosed { id: crate::config::DataId(id) }, p1),
                ),
                Option::None => Option::None,
            }
        } else {
            Option::None
        },
        Option::None => Option::None,
    }
}

#[verifier::spinoff_prover]
#[verifier::rlimit(100)]
pub fn read_events(buf: &Vec<u8>, pos: usize) -> (r: Option<(Vec<NodeEvent>, usize)>)
    requires
        pos <= buf@.len(),
    ensures
        match r {
            Option::Some(v) => pos <= v.1 <= buf@.len() && dec_list(
                buf@.skip(pos as int),
                |u: Seq<u8>| dec_event(u),
            ) == Option::Some(
                (Seq::new(v.0@.len(), |i: int| v.0@[i]@), buf@.skip(v.1 as int)),
            ),
            Option::None => dec_list(buf@.skip(pos as int), |u: Seq<u8>| dec_event(u)) is None,
        },
{
    let ghost g = |u: Seq<u8>| dec_event(u);
    match read_u64(buf, pos) {
        Option::Some((n, p0)) => {
            let mut out: Vec<NodeEvent> = Vec::new();
            let mut p = p0;
            let mut i: u64 = 0;
            while i < n
                invariant
                    i <= n,
                    pos <= p0 <= p <= buf@.len(),
                    out@.len() == i,
                    g == (|u: Seq<u8>| dec_event(u)),
                    dec_u64(buf@.skip(pos as int)) == Option::Some((n, buf@.skip(p0 as int))),
                    dec_items(buf@.skip(p0 as int), n as nat, g) == opt_prepend(
                        Seq::new(out@.len(), |k: int| out@[k]@),
                        dec_items(buf@.skip(p as int), (n - i) as nat, g),
                    ),
                decreases n - i,
            {
                let ghost pre = Seq::new(out@.len(), |k: int| out@[k]@);
                match read_event(buf, p) {
                    Option::Some((e, p2)) => {
                        let ghost ev = e@;
                        proof {
                            assert(dec_items(buf@.skip(p as int), (n - i) as nat, g)
                                == opt_prepend(
                                seq![ev],
                                dec_items(buf@.skip(p2 as int), (n - i - 1) as nat, g),
                            ));
                        }
                        out.push(e);
                        p = p2;
                        i = i + 1;
                        proof {
                            let post = Seq::new(out@.len(), |k: int| out@[k]@);
                            assert(post =~= pre.push(ev));
                            match dec_items(buf@.skip(p as int), (n - i) as nat, g) {
                                Option::Some((xs, s2)) => {
                                    assert(pre + (seq![ev] + xs) =~= post + xs);
                                },
                                Option::None => {},
                            }
                        }
                    },
                    Option::None => {
                        return Option::None;
                    },
                }
            }
            proof {
                assert(dec_items(buf@.skip(p as int), 0, g) == Option::Some(
                    (Seq::<crate::message::NodeEventView>::empty(), buf@.skip(p as int)),
                ));
                let pre = Seq::new(out@.len(), |k: int| out@[k]@);
                assert(pre + Seq::<crate::message::NodeEventView>::empty() =~= pre);
            }
            Option::Some((out, p))
        },
        Option::None => Option::None,
    }
}

pub fn read_comm(buf: &Vec<u8>, pos: usize) -> (r: Option<(DaemonCommunication, usize)>)
    requires
        pos <= buf@.len(),
    ensures
        match r {
            Option::Some(v) => pos <= v.1 <= buf@.len() && dec_comm(buf@.skip(pos as int))
                == Option::Some((v.0@, buf@.skip(v.1 as int))),
            Option::None => dec_comm(buf@.skip(pos as int)) is None,
        },
{
    match read_u8(buf, pos) {
        Option::Some((t, p)) => if t == 0 {
            match read_u8(buf, p) {
                Option::Some((a, p1)) => match read_u8(buf, p1) {
                    Option::Some((b, p2)) => match read_u8(buf, p2) {
                        Option::Some((c, p3)) => match read_u8(buf, p3) {
                            Option::Some((d, p4)) => match read_u64(buf, p4) {
                                Option::Some((port, p5)) => if port <= u16::MAX as u64 {
                                    Option::Some(
                                        (
                                            DaemonCommunication::Tcp {
                                                socket_addr: crate::config::SocketAddress {
                                                    ip: crate::config::Ipv4Address {
                                                        o0: a,
                                                        o1: b,
                                                        o2: c,
                                                        o3: d,
                                                    },
                                                    port: port as u16,
                                                },
                                            },
                                            p5,
                                        ),
                                    )
                                } else {
                                    Option::None
                                },
                                Option::None => Option::None,
                            },
                            Option::None => Option::None,
                        },
                        Option::None => Option::None,
                    },
                    Option::None => Option::None,
                },
                Option::None => Option::None,
            }
        } else if t == 1 {
            match read_string(buf, p) {
                Option::Some((id, p1)) => Option::Some(
                    (DaemonCommunication::Shmem { region_id: id }, p1),
                ),
                Option::None => Option::None,
            }
        } else {
            Option::None
        },
        Option::None => Option::None,
    }
}

#[verifier::spinoff_prover]
#[verifier::rlimit(100)]
pub fn read_id_list(buf: &Vec<u8>, pos: usize) -> (r: Option<(Vec<crate::config::DataId>, usize)>)
    requires
        pos <= buf@.len(),
    ensures
        match r {
            Option::Some(v) => pos <= v.1 <= buf@.len() && dec_list(
                buf@.skip(pos as int),
                |u: Seq<u8>| dec_str(u),
            ) == Option::Some(
                (Seq::new(v.0@.len(), |i: int| v.0@[i]@), buf@.skip(v.1 as int)),
            ),
            Option::None => dec_list(buf@.skip(pos as int), |u: Seq<u8>| dec_str(u)) is None,
        },
{
    let ghost g = |u: Seq<u8>| dec_str(u);
    match read_u64(buf, pos) {
        Option::Some((n, p0)) => {
            let mut out: Vec<crate::config::DataId> = Vec::new();
            let mut p = p0;
            let mut i: u64 = 0;
            while i < n
                invariant
                    i <= n,
                    pos <= p0 <= p <= buf@.len(),
                    out@.len() == i,
                    g == (|u: Seq<u8>| dec_str(u)),
                    dec_u64(buf@.skip(pos as int)) == Option::Some((n, buf@.skip(p0 as int))),
                    dec_items(buf@.skip(p0 as int), n as nat, g) == opt_prepend(
                        Seq::new(out@.len(), |k: int| out@[k]@),
                        dec_items(buf@.skip(p as int), (n - i) as nat, g),
                    ),
                decreases n - i,
            {
                let ghost pre = Seq::new(out@.len(), |k: int| out@[k]@);
                match read_string(buf, p) {
                    Option::Some((sid, p2)) => {
                        let ghost ev = sid@;
                        proof {
                            assert(dec_items(buf@.skip(p as int), (n - i) as nat, g)
                                == opt_prepend(
                                seq![ev],
                                dec_items(buf@.skip(p2 as int), (n - i - 1) as nat, g),
                            ));
                        }
                        out.push(crate::config::DataId(sid));
                        p = p2;
                        i = i + 1;
                        proof {
                            let post = Seq::new(out@.len(), |k: int| out@[k]@);
                            assert(post =~= pre.push(ev));
                            match dec_items(buf@.skip(p as int), (n - i) as nat, g) {
                                Option::Some((xs, s2)) => {
                                    assert(pre + (seq![ev] + xs) =~= post + xs);
                                },
                                Option::None => {},
                            }
                        }
                    },
                    Option::None => {
                        return Option::None;
                    },
                }
            }
            proof {
                assert(dec_items(buf@.skip(p as int), 0, g) == Option::Some(
                    (Seq::<Seq<char>>::empty(), buf@.skip(p as int)),
                ));
                let pre = Seq::new(out@.len(), |k: int| out@[k]@);
                assert(pre + Seq::<Seq<char>>::empty() =~= pre);
            }
            Option::Some((out, p))
        },
        Option::None => Option::None,
    }
}

#[verifier::spinoff_prover]
#[verifier::rlimit(100)]
pub fn read_node_config(buf: &Vec<u8>, pos: usize) -> (r: Option<(NodeConfig, usize)>)
    requires
        pos <= buf@.len(),
    ensures
        match r {
            Option::Some(v) => pos <= v.1 <= buf@.len() && dec_node_config(buf@.skip(pos as int))
                == Option::Some((v.0@, buf@.skip(v.1 as int))),
            Option::None => dec_node_config(buf@.skip(pos as int)) is None,
        },
{
    match read_string(buf, pos) {
        Option::Some((df, p1)) => match read_string(buf, p1) {
            Option::Some((nid, p2)) => match read_id_list(buf, p2) {
                Option::Some((outs, p3)) => match read_comm(buf, p3) {
                    Option::Some((cm, p4)) => match read_string(buf, p4) {
                        Option::Some((desc, p5)) => match read_bool(buf, p5) {
                            Option::Some((dy, p6)) => {
                                let c = NodeConfig {
                                    dataflow_id: crate::config::DataflowId(df),
                                    node_id: crate::config::NodeId(nid),
                                    run_config: crate::config::NodeRunConfig { outputs: outs },
                                    daemon_communication: cm,
                                    dataflow_descriptor: desc,
                                    dynamic: dy,
                                };
                                proof {
                                    assert(c@.outputs =~= Seq::new(
                                        outs@.len(),
                                        |i: int| outs@[i]@,
                                    ));
                                }
                                Option::Some((c, p6))
                            },
                            Option::None => Option::None,
                        },
                        Option::None => Option::None,
                    },
                    Option::None => Option::None,
                },
                Option::None => Option::None,
            },
            Option::None => Option::None,
        },
        Option::None => Option::None,
    }
}

fn read_reply_body(buf: &Vec<u8>, pos: usize, tag: u8) -> (r: Option<(DaemonReply, usize)>)
    requires
        pos <= buf@.len(),
    ensures
        match r {
            Option::Some(v) => pos <= v.1 <= buf@.len() && dec_reply_body(
                tag,
                buf@.skip(pos as int),
            ) == Option::Some((v.0@, buf@.skip(v.1 as int))),
            Option::None => dec_reply_body(tag, buf@.skip(pos as int)) is None,
        },
{
    if tag == 0 {
        Option::Some((DaemonReply::Empty, pos))
    } else if tag == 1 {
        match read_u8(buf, pos) {
            Option::Some((t, p)) => if t == 0 {
                match read_node_config(buf, p) {
                    Option::Some((c, p2)) => Option::Some(
                        (DaemonReply::NodeConfig { result: Result::Ok(c) }, p2),
                    ),
                    Option::None => Option::None,
                }
            } else if t == 1 {
                match read_string(buf, p) {
                    Option::Some((e, p2)) => Option::Some(
                        (DaemonReply::NodeConfig { result: Result::Err(e) }, p2),
                    ),
                    Option::None => Option::None,
                }
            } else {
                Option::None
            },
            Option::None => Option::None,
        }
    } else if tag == 2 {
        match read_events(buf, pos) {
            Option::Some((es, p)) => {
                let rep = DaemonReply::NextEvents { events: es };
                proof {
                    assert(rep@ matches crate::message::ReplyView::NextEvents { events }
                        && events =~= Seq::new(es@.len(), |i: int| es@[i]@));
                }
                Option::Some((rep, p))
            },
            Option::None => Option::None,
        }
    } else if tag == 3 {
        match read_u8(buf, pos) {
            Option::Some((t, p)) => if t == 0 {
                Option::Some((DaemonReply::NextDropToken { token: Option::None }, p))
            } else if t == 1 {
                match read_token(buf, p) {
                    Option::Some((tk, p2)) => Option::Some(
                        (DaemonReply::NextDropToken { token: Option::Some(tk) }, p2),
                    ),
                    Option::None => Option::None,
                }
            } else {
                Option::None
            },
            Option::None => Option::None,
        }
    } else if tag == 4 {
        match read_string(buf, pos) {
            Option::Some((m, p)) => Option::Some((DaemonReply::Error { message: m }, p)),
            Option::None => Option::None,
        }
    } else {
        Option::None
    }
}

/// Decode one reply frame under the serializer the request declared.
/// The whole frame must be consumed.
pub fn decode_reply(ser: Serializer, buf: &Vec<u8>) -> (r: Option<DaemonReply>)
    ensures
        match r {
            Option::Some(v) => dec_reply(ser, buf@) == Option::Some((v@, Seq::<u8>::empty())),
            Option::None => (dec_reply(ser, buf@) matches Option::Some((rep, rest)) ==> rest.len()
                != 0),
        },
{
    proof {
        assert(buf@.skip(0) =~= buf@);
    }
    let inner = match ser {
        Serializer::Bincode => {
            match read_u8(buf, 0) {
                Option::Some((tag, p)) => read_reply_body(buf, p, tag),
                Option::None => Option::None,
            }
        },
        Serializer::SerdeJson => {
            match read_string(buf, 0) {
                Option::Some((name, p)) => {
                    let tag: Option<u8> = if name == "Empty".to_owned() {
                        Option::Some(0)
                    } else if name == "NodeConfig".to_owned() {
                        Option::Some(1)
                    } else if name == "NextEvents".to_owned() {
                        Option::Some(2)
                    } else if name == "NextDropToken".to_owned() {
                        Option::Some(3)
                    } else if name == "Error".to_owned() {
                        Option::Some(4)
                    } else {
                        Option::None
                    };
                    match tag {
                        Option::Some(tag) => {
                            proof {
                                assert(tag_of_name(name@) == Option::Some(tag));
                            }
                            read_reply_body(buf, p, tag)
                        },
                        Option::None => {
                            proof {
                                assert(tag_of_name(name@) is None);
                            }
                            Option::None
                        },
                    }
                },
                Option::None => Option::None,
            }
        },
    };
    match inner {
        Option::Some((rep, p)) => {
            if p == buf.len() {
                proof {
                    assert(buf@.skip(p as int) =~= Seq::<u8>::empty());
                }
                Option::Some(rep)
            } else {
                Option::None
            }
        },
        Option::None => Option::None,
    }
}

} // verus!
