//! The wire encoding of the daemon protocol.
//!
//! Every value is encoded front-to-back with fixed little-endian
//! integers and length-prefixed variable parts, so that decoding is a
//! single left-to-right pass. Each decoder takes the byte sequence that
//! starts at its value and returns the value together with the
//! unconsumed suffix.

use vstd::prelude::*;
use vstd::bytes::{spec_u64_from_le_bytes, spec_u64_to_le_bytes, lemma_auto_spec_u64_to_from_le_bytes, u64_from_le_bytes, u64_to_le_bytes};

verus! {

broadcast use vstd::seq_lib::group_seq_properties;

pub open spec fn enc_u8(x: u8) -> Seq<u8> {
    seq![x]
}

pub open spec fn dec_u8(s: Seq<u8>) -> Option<(u8, Seq<u8>)> {
    if s.len() >= 1 {
        Option::Some((s[0], s.skip(1)))
    } else {
        Option::None
    }
}

pub open spec fn enc_u64(x: u64) -> Seq<u8> {
    spec_u64_to_le_bytes(x)
}

pub open spec fn dec_u64(s: Seq<u8>) -> Option<(u64, Seq<u8>)> {
    if s.len() >= 8 {
        Option::Some((spec_u64_from_le_bytes(s.take(8)), s.skip(8)))
    } else {
        Option::None
    }
}

pub open spec fn enc_bool(b: bool) -> Seq<u8> {
    if b {
        seq![1u8]
    } else {
        seq![0u8]
    }
}

pub open spec fn dec_bool(s: Seq<u8>) -> Option<(bool, Seq<u8>)> {
    if s.len() >= 1 && (s[0] == 0u8 || s[0] == 1u8) {
        Option::Some((s[0] == 1u8, s.skip(1)))
    } else {
        Option::None
    }
}

pub open spec fn enc_i64(x: i64) -> Seq<u8> {
    enc_u64(x as u64)
}

pub open spec fn dec_i64(s: Seq<u8>) -> Option<(i64, Seq<u8>)> {
    match dec_u64(s) {
        Option::Some((v, rest)) => Option::Some((v as i64, rest)),
        Option::None => Option::None,
    }
}

pub open spec fn enc_usize(x: usize) -> Seq<u8> {
    enc_u64(x as u64)
}

pub open spec fn dec_usize(s: Seq<u8>) -> Option<(usize, Seq<u8>)> {
    match dec_u64(s) {
        Option::Some((v, rest)) => if v <= usize::MAX as u64 {
            Option::Some((v as usize, rest))
        } else {
            Option::None
        },
        Option::None => Option::None,
    }
}

pub open spec fn enc_bytes(b: Seq<u8>) -> Seq<u8> {
    enc_u64(b.len() as u64) + b
}

pub open spec fn dec_bytes(s: Seq<u8>) -> Option<(Seq<u8>, Seq<u8>)> {
    match dec_u64(s) {
        Option::Some((n, rest)) => if n <= rest.len() {
            Option::Some((rest.take(n as int), rest.skip(n as int)))
        } else {
            Option::None
        },
        Option::None => Option::None,
    }
}

pub open spec fn enc_str(t: Seq<char>) -> Seq<u8> {
    enc_bytes(vstd::utf8::encode_utf8(t))
}

pub open spec fn dec_str(s: Seq<u8>) -> Option<(Seq<char>, Seq<u8>)> {
    match dec_bytes(s) {
        Option::Some((b, rest)) => if vstd::utf8::valid_utf8(b) {
            Option::Some((vstd::utf8::decode_utf8(b), rest))
        } else {
            Option::None
        },
        Option::None => Option::None,
    }
}

pub proof fn lemma_u8_rt(x: u8, rest: Seq<u8>)
    ensures
        dec_u8(enc_u8(x) + rest) == Option::Some((x, rest)),
{
    let s = enc_u8(x) + rest;
    assert(s[0] == x);
    assert(s.skip(1) =~= rest);
}

pub proof fn lemma_u64_rt(x: u64, rest: Seq<u8>)
    ensures
        dec_u64(enc_u64(x) + rest) == Option::Some((x, rest)),
{
    lemma_auto_spec_u64_to_from_le_bytes();
    let s = enc_u64(x) + rest;
    assert(s.take(8) =~= enc_u64(x));
    assert(s.skip(8) =~= rest);
}

pub proof fn lemma_bool_rt(b: bool, rest: Seq<u8>)
    ensures
        dec_bool(enc_bool(b) + rest) == Option::Some((b, rest)),
{
    let s = enc_bool(b) + rest;
    assert(s[0] == (if b { 1u8 } else { 0u8 }));
    assert(s.skip(1) =~= rest);
}

pub proof fn lemma_i64_rt(x: i64, rest: Seq<u8>)
    ensures
        dec_i64(enc_i64(x) + rest) == Option::Some((x, rest)),
{
    lemma_u64_rt(x as u64, rest);
    assert(x as u64 as i64 == x) by (bit_vector);
}

pub proof fn lemma_usize_rt(x: usize, rest: Seq<u8>)
    ensures
        dec_usize(enc_usize(x) + rest) == Option::Some((x, rest)),
{
    lemma_u64_rt(x as u64, rest);
}

pub proof fn lemma_bytes_rt(b: Seq<u8>, rest: Seq<u8>)
    requires
        b.len() <= u64::MAX,
    ensures
        dec_bytes(enc_bytes(b) + rest) == Option::Some((b, rest)),
{
    let s = enc_bytes(b) + rest;
    assert(s =~= enc_u64(b.len() as u64) + (b + rest));
    lemma_u64_rt(b.len() as u64, b + rest);
    assert((b + rest).take(b.len() as int) =~= b);
    assert((b + rest).skip(b.len() as int) =~= rest);
}

pub proof fn lemma_str_rt(t: Seq<char>, rest: Seq<u8>)
    requires
        vstd::utf8::encode_utf8(t).len() <= u64::MAX,
    ensures
        dec_str(enc_str(t) + rest) == Option::Some((t, rest)),
{
    lemma_bytes_rt(vstd::utf8::encode_utf8(t), rest);
    vstd::utf8::encode_utf8_valid_utf8(t);
    vstd::utf8::encode_utf8_decode_utf8(t);
}


// --- generic length-prefixed lists ---

pub open spec fn enc_items<T>(items: Seq<T>, f: spec_fn(T) -> Seq<u8>) -> Seq<u8>
    decreases items.len(),
{
    if items.len() == 0 {
        Seq::empty()
    } else {
        f(items[0]) + enc_items(items.drop_first(), f)
    }
}

pub open spec fn dec_items<T>(
    s: Seq<u8>,
    n: nat,
    g: spec_fn(Seq<u8>) -> Option<(T, Seq<u8>)>,
) -> Option<(Seq<T>, Seq<u8>)>
    decreases n,
{
    if n == 0 {
        Option::Some((Seq::empty(), s))
    } else {
        match g(s) {
            Option::Some((x, s1)) => match dec_items(s1, (n - 1) as nat, g) {
                Option::Some((xs, s2)) => Option::Some((seq![x] + xs, s2)),
                Option::None => Option::None,
            },
            Option::None => Option::None,
        }
    }
}

pub open spec fn enc_list<T>(items: Seq<T>, f: spec_fn(T) -> Seq<u8>) -> Seq<u8> {
    enc_u64(items.len() as u64) + enc_items(items, f)
}

pub open spec fn dec_list<T>(
    s: Seq<u8>,
    g: spec_fn(Seq<u8>) -> Option<(T, Seq<u8>)>,
) -> Option<(Seq<T>, Seq<u8>)> {
    match dec_u64(s) {
        Option::Some((n, rest)) => dec_items(rest, n as nat, g),
        Option::None => Option::None,
    }
}

pub proof fn lemma_items_rt<T>(
    items: Seq<T>,
    rest: Seq<u8>,
    f: spec_fn(T) -> Seq<u8>,
    g: spec_fn(Seq<u8>) -> Option<(T, Seq<u8>)>,
)
    requires
        forall|x: T, r: Seq<u8>| #[trigger] g(f(x) + r) == Option::Some((x, r)),
    ensures
        dec_items(enc_items(items, f) + rest, items.len(), g) == Option::Some((items, rest)),
    decreases items.len(),
{
    if items.len() == 0 {
        assert(enc_items(items, f) + rest =~= rest);
        assert(dec_items(rest, 0, g) == Option::Some((Seq::<T>::empty(), rest)));
        assert(items =~= Seq::<T>::empty());
    } else {
        let tail = items.drop_first();
        assert(enc_items(items, f) + rest =~= f(items[0]) + (enc_items(tail, f) + rest));
        assert(g(f(items[0]) + (enc_items(tail, f) + rest)) == Option::Some(
            (items[0], enc_items(tail, f) + rest),
        ));
        lemma_items_rt(tail, rest, f, g);
        assert(seq![items[0]] + tail =~= items);
    }
}

pub proof fn lemma_list_rt<T>(
    items: Seq<T>,
    rest: Seq<u8>,
    f: spec_fn(T) -> Seq<u8>,
    g: spec_fn(Seq<u8>) -> Option<(T, Seq<u8>)>,
)
    requires
        forall|x: T, r: Seq<u8>| #[trigger] g(f(x) + r) == Option::Some((x, r)),
        items.len() <= u64::MAX,
    ensures
        dec_list(enc_list(items, f) + rest, g) == Option::Some((items, rest)),
{
    assert(enc_list(items, f) + rest =~= enc_u64(items.len() as u64) + (enc_items(items, f)
        + rest));
    lemma_u64_rt(items.len() as u64, enc_items(items, f) + rest);
    lemma_items_rt(items, rest, f, g);
}

// --- protocol values ---

use crate::message::{
    Timestamp, DropToken, ParamValueView, LogicalType, BufferOffset, TypeInfoView,
    DataMessageView, MetadataView, RequestView, NodeEventView, DaemonCommView, NodeConfigView,
    ReplyView,
};

pub open spec fn enc_timestamp(t: Timestamp) -> Seq<u8> {
    enc_u64(t.time) + enc_u64(t.clock_id)
}

pub open spec fn dec_timestamp(s: Seq<u8>) -> Option<(Timestamp, Seq<u8>)> {
    match dec_u64(s) {
        Option::Some((time, s1)) => match dec_u64(s1) {
            Option::Some((clock_id, s2)) => Option::Some((Timestamp { time, clock_id }, s2)),
            Option::None => Option::None,
        },
        Option::None => Option::None,
    }
}

pub proof fn lemma_timestamp_rt(t: Timestamp, rest: Seq<u8>)
    ensures
        dec_timestamp(enc_timestamp(t) + rest) == Option::Some((t, rest)),
{
    assert(enc_timestamp(t) + rest =~= enc_u64(t.time) + (enc_u64(t.clock_id) + rest));
    lemma_u64_rt(t.time, enc_u64(t.clock_id) + rest);
    lemma_u64_rt(t.clock_id, rest);
}

pub open spec fn ltype_tag(d: LogicalType) -> u8 {
    match d {
        LogicalType::UInt8 => 0u8,
        LogicalType::UInt64 => 1u8,
        LogicalType::Int32 => 2u8,
        LogicalType::Int64 => 3u8,
        LogicalType::Utf8 => 4u8,
        LogicalType::Binary => 5u8,
    }
}

pub open spec fn enc_ltype(d: LogicalType) -> Seq<u8> {
    enc_u8(ltype_tag(d))
}

pub open spec fn ltype_of_tag(t: u8) -> Option<LogicalType> {
    if t == 0u8 {
        Option::Some(LogicalType::UInt8)
    } else if t == 1u8 {
        Option::Some(LogicalType::UInt64)
    } else if t == 2u8 {
        Option::Some(LogicalType::Int32)
    } else if t == 3u8 {
        Option::Some(LogicalType::Int64)
    } else if t == 4u8 {
        Option::Some(LogicalType::Utf8)
    } else if t == 5u8 {
        Option::Some(LogicalType::Binary)
    } else {
        Option::None
    }
}

pub open spec fn dec_ltype(s: Seq<u8>) -> Option<(LogicalType, Seq<u8>)> {
    match dec_u8(s) {
        Option::Some((t, s1)) => match ltype_of_tag(t) {
            Option::Some(d) => Option::Some((d, s1)),
            Option::None => Option::None,
        },
        Option::None => Option::None,
    }
}

pub proof fn lemma_ltype_rt(d: LogicalType, rest: Seq<u8>)
    ensures
        dec_ltype(enc_ltype(d) + rest) == Option::Some((d, rest)),
{
    lemma_u8_rt(ltype_tag(d), rest);
}

pub open spec fn enc_boff(o: BufferOffset) -> Seq<u8> {
    enc_usize(o.offset) + enc_usize(o.len)
}

pub open spec fn dec_boff(s: Seq<u8>) -> Option<(BufferOffset, Seq<u8>)> {
    match dec_usize(s) {
        Option::Some((offset, s1)) => match dec_usize(s1) {
            Option::Some((len, s2)) => Option::Some((BufferOffset { offset, len }, s2)),
            Option::None => Option::None,
        },
        Option::None => Option::None,
    }
}

pub proof fn lemma_boff_rt(o: BufferOffset, rest: Seq<u8>)
    ensures
        dec_boff(enc_boff(o) + rest) == Option::Some((o, rest)),
{
    assert(enc_boff(o) + rest =~= enc_usize(o.offset) + (enc_usize(o.len) + rest));
    lemma_usize_rt(o.offset, enc_usize(o.len) + rest);
    lemma_usize_rt(o.len, rest);
}

pub open spec fn enc_opt_bytes(v: Option<Seq<u8>>) -> Seq<u8> {
    match v {
        Option::None => enc_u8(0u8),
        Option::Some(b) => enc_u8(1u8) + enc_bytes(b),
    }
}

pub open spec fn dec_opt_bytes(s: Seq<u8>) -> Option<(Option<Seq<u8>>, Seq<u8>)> {
    match dec_u8(s) {
        Option::Some((t, s1)) => if t == 0u8 {
            Option::Some((Option::None, s1))
        } else if t == 1u8 {
            match dec_bytes(s1) {
                Option::Some((b, s2)) => Option::Some((Option::Some(b), s2)),
                Option::None => Option::None,
            }
        } else {
            Option::None
        },
        Option::None => Option::None,
    }
}

pub proof fn lemma_opt_bytes_rt(v: Option<Seq<u8>>, rest: Seq<u8>)
    requires
        v matches Option::Some(b) ==> b.len() <= u64::MAX,
    ensures
        dec_opt_bytes(enc_opt_bytes(v) + rest) == Option::Some((v, rest)),
{
    match v {
        Option::None => {
            lemma_u8_rt(0u8, rest);
        },
        Option::Some(b) => {
            assert(enc_opt_bytes(v) + rest =~= enc_u8(1u8) + (enc_bytes(b) + rest));
            lemma_u8_rt(1u8, enc_bytes(b) + rest);
            lemma_bytes_rt(b, rest);
        },
    }
}

pub open spec fn enc_opt_str(v: Option<Seq<char>>) -> Seq<u8> {
    match v {
        Option::None => enc_u8(0u8),
        Option::Some(t) => enc_u8(1u8) + enc_str(t),
    }
}

pub open spec fn dec_opt_str(s: Seq<u8>) -> Option<(Option<Seq<char>>, Seq<u8>)> {
    match dec_u8(s) {
        Option::Some((t, s1)) => if t == 0u8 {
            Option::Some((Option::None, s1))
        } else if t == 1u8 {
            match dec_str(s1) {
                Option::Some((x, s2)) => Option::Some((Option::Some(x), s2)),
                Option::None => Option::None,
            }
        } else {
            Option::None
        },
        Option::None => Option::None,
    }
}

pub proof fn lemma_opt_str_rt(v: Option<Seq<char>>, rest: Seq<u8>)
    requires
        v matches Option::Some(t) ==> vstd::utf8::encode_utf8(t).len() <= u64::MAX,
    ensures
        dec_opt_str(enc_opt_str(v) + rest) == Option::Some((v, rest)),
{
    match v {
        Option::None => {
            lemma_u8_rt(0u8, rest);
        },
        Option::Some(t) => {
            assert(enc_opt_str(v) + rest =~= enc_u8(1u8) + (enc_str(t) + rest));
            lemma_u8_rt(1u8, enc_str(t) + rest);
            lemma_str_rt(t, rest);
        },
    }
}

/// Bound on every encoded variable-length part.
pub open spec fn str_fits(t: Seq<char>) -> bool {
    vstd::utf8::encode_utf8(t).len() <= u64::MAX
}

pub open spec fn enc_param(p: ParamValueView) -> Seq<u8> {
    match p {
        ParamValueView::Bool(b) => enc_u8(0u8) + enc_bool(b),
        ParamValueView::Int(i) => enc_u8(1u8) + enc_i64(i),
        ParamValueView::Text(t) => enc_u8(2u8) + enc_str(t),
    }
}

pub open spec fn dec_param(s: Seq<u8>) -> Option<(ParamValueView, Seq<u8>)> {
    match dec_u8(s) {
        Option::Some((t, s1)) => if t == 0u8 {
            match dec_bool(s1) {
                Option::Some((b, s2)) => Option::Some((ParamValueView::Bool(b), s2)),
                Option::None => Option::None,
            }
        } else if t == 1u8 {
            match dec_i64(s1) {
                Option::Some((i, s2)) => Option::Some((ParamValueView::Int(i), s2)),
                Option::None => Option::None,
            }
        } else if t == 2u8 {
            match dec_str(s1) {
                Option::Some((x, s2)) => Option::Some((ParamValueView::Text(x), s2)),
                Option::None => Option::None,
            }
        } else {
            Option::None
        },
        Option::None => Option::None,
    }
}

pub open spec fn param_fits(p: ParamValueView) -> bool {
    match p {
        ParamValueView::Text(t) => str_fits(t),
        _ => true,
    }
}

pub proof fn lemma_param_rt(p: ParamValueView, rest: Seq<u8>)
    requires
        param_fits(p),
    ensures
        dec_param(enc_param(p) + rest) == Option::Some((p, rest)),
{
    match p {
        ParamValueView::Bool(b) => {
            assert(enc_param(p) + rest =~= enc_u8(0u8) + (enc_bool(b) + rest));
            lemma_u8_rt(0u8, enc_bool(b) + rest);
            lemma_bool_rt(b, rest);
        },
        ParamValueView::Int(i) => {
            assert(enc_param(p) + rest =~= enc_u8(1u8) + (enc_i64(i) + rest));
            lemma_u8_rt(1u8, enc_i64(i) + rest);
            lemma_i64_rt(i, rest);
        },
        ParamValueView::Text(t) => {
            assert(enc_param(p) + rest =~= enc_u8(2u8) + (enc_str(t) + rest));
            lemma_u8_rt(2u8, enc_str(t) + rest);
            lemma_str_rt(t, rest);
        },
    }
}

pub open spec fn enc_entry(e: (Seq<char>, ParamValueView)) -> Seq<u8> {
    enc_str(e.0) + enc_param(e.1)
}

pub open spec fn dec_entry(s: Seq<u8>) -> Option<((Seq<char>, ParamValueView), Seq<u8>)> {
    match dec_str(s) {
        Option::Some((k, s1)) => match dec_param(s1) {
            Option::Some((p, s2)) => Option::Some(((k, p), s2)),
            Option::None => Option::None,
        },
        Option::None => Option::None,
    }
}

pub open spec fn entry_fits(e: (Seq<char>, ParamValueView)) -> bool {
    str_fits(e.0) && param_fits(e.1)
}

pub proof fn lemma_entry_rt(e: (Seq<char>, ParamValueView), rest: Seq<u8>)
    requires
        entry_fits(e),
    ensures
        dec_entry(enc_entry(e) + rest) == Option::Some((e, rest)),
{
    assert(enc_entry(e) + rest =~= enc_str(e.0) + (enc_param(e.1) + rest));
    lemma_str_rt(e.0, enc_param(e.1) + rest);
    lemma_param_rt(e.1, rest);
}

pub open spec fn enc_token(t: DropToken) -> Seq<u8> {
    enc_u64(t.0)
}

pub open spec fn dec_token(s: Seq<u8>) -> Option<(DropToken, Seq<u8>)> {
    match dec_u64(s) {
        Option::Some((v, s1)) => Option::Some((DropToken(v), s1)),
        Option::None => Option::None,
    }
}

pub proof fn lemma_token_rt(t: DropToken, rest: Seq<u8>)
    ensures
        dec_token(enc_token(t) + rest) == Option::Some((t, rest)),
{
    lemma_u64_rt(t.0, rest);
}

pub open spec fn enc_data_message(d: DataMessageView) -> Seq<u8> {
    match d {
        DataMessageView::Vec(b) => enc_u8(0u8) + enc_bytes(b),
        DataMessageView::SharedMemory { shared_memory_id, len, drop_token } => enc_u8(1u8)
            + enc_str(shared_memory_id) + enc_usize(len) + enc_token(drop_token),
    }
}

pub open spec fn dec_data_message(s: Seq<u8>) -> Option<(DataMessageView, Seq<u8>)> {
    match dec_u8(s) {
        Option::Some((t, s1)) => if t == 0u8 {
            match dec_bytes(s1) {
                Option::Some((b, s2)) => Option::Some((DataMessageView::Vec(b), s2)),
                Option::None => Option::None,
            }
        } else if t == 1u8 {
            match dec_str(s1) {
                Option::Some((id, s2)) => match dec_usize(s2) {
                    Option::Some((len, s3)) => match dec_token(s3) {
                        Option::Some((tok, s4)) => Option::Some(
                            (
                                DataMessageView::SharedMemory {
                                    shared_memory_id: id,
                                    len: len,
                                    drop_token: tok,
                                },
                                s4,
                            ),
                        ),
                        Option::None => Option::None,
                    },
                    Option::None => Option::None,
                },
                Option::None => Option::None,
            }
        } else {
            Option::None
        },
        Option::None => Option::None,
    }
}

pub open spec fn data_message_fits(d: DataMessageView) -> bool {
    match d {
        DataMessageView::Vec(b) => b.len() <= u64::MAX,
        DataMessageView::SharedMemory { shared_memory_id, len, drop_token } => str_fits(shared_memory_id),
    }
}

proof fn lemma_dm_shm_rt(id: Seq<char>, len: usize, tok: DropToken, rest: Seq<u8>)
    requires
        str_fits(id),
    ensures
        dec_data_message(
            enc_data_message(DataMessageView::SharedMemory {
                shared_memory_id: id,
                len: len,
                drop_token: tok,
            }) + rest,
        ) == Option::Some(
            (
                DataMessageView::SharedMemory { shared_memory_id: id, len: len, drop_token: tok },
                rest,
            ),
        ),
{
    let d = DataMessageView::SharedMemory { shared_memory_id: id, len: len, drop_token: tok };
    let r3 = rest;
    let r2 = enc_token(tok) + r3;
    let r1 = enc_usize(len) + r2;
    let r0 = enc_str(id) + r1;
    assert(enc_data_message(d) + rest =~= enc_u8(1u8) + r0);
    lemma_u8_rt(1u8, r0);
    assert(r0 =~= enc_str(id) + r1);
    lemma_str_rt(id, r1);
    lemma_usize_rt(len, r2);
    lemma_token_rt(tok, r3);
}

pub proof fn lemma_data_message_rt(d: DataMessageView, rest: Seq<u8>)
    requires
        data_message_fits(d),
    ensures
        dec_data_message(enc_data_message(d) + rest) == Option::Some((d, rest)),
{
    match d {
        DataMessageView::Vec(b) => {
            assert(enc_data_message(d) + rest =~= enc_u8(0u8) + (enc_bytes(b) + rest));
            lemma_u8_rt(0u8, enc_bytes(b) + rest);
            lemma_bytes_rt(b, rest);
        },
        DataMessageView::SharedMemory { shared_memory_id, len, drop_token } => lemma_dm_shm_rt(shared_memory_id, len, drop_token, rest),
    }
}

// --- recursive type descriptors ---
//
// A descriptor is encoded as a length-prefixed block so that a decoder
// can isolate each descriptor before descending into its children:
//   u64 body length || u64 child count || children || logical type ||
//   element count || logical offset || optional validity || buffer slices

pub open spec fn enc_ti(m: TypeInfoView) -> Seq<u8>
    decreases m, 1int,
{
    enc_u64(enc_ti_body(m).len() as u64) + enc_ti_body(m)
}

pub open spec fn enc_ti_body(m: TypeInfoView) -> Seq<u8>
    decreases m, 0int,
{
    enc_u64(m.child_data.len() as u64) + enc_ti_items(m.child_data) + enc_ltype(m.data_type)
        + enc_usize(m.len) + enc_usize(m.offset) + enc_opt_bytes(m.validity) + enc_list(
        m.buffer_offsets,
        |o: BufferOffset| enc_boff(o),
    )
}

pub open spec fn enc_ti_items(cs: Seq<TypeInfoView>) -> Seq<u8>
    decreases cs, 2int,
{
    if cs.len() == 0 {
        Seq::empty()
    } else {
        enc_ti(cs[0]) + enc_ti_items(cs.drop_first())
    }
}

pub open spec fn dec_ti(s: Seq<u8>) -> Option<(TypeInfoView, Seq<u8>)>
    decreases s.len(), 0int,
{
    match dec_u64(s) {
        Option::Some((ln, r)) => if ln as nat <= r.len() {
            dec_ti_fields(r.take(ln as int), r.skip(ln as int))
        } else {
            Option::None
        },
        Option::None => Option::None,
    }
}

/// Decode the body of a descriptor; `rest` is what follows the block.
pub open spec fn dec_ti_fields(body: Seq<u8>, rest: Seq<u8>) -> Option<(TypeInfoView, Seq<u8>)>
    decreases body.len(), 1int,
{
    match dec_u64(body) {
        Option::Some((n, b1)) => match dec_ti_list(b1, n as nat) {
            Option::Some((cs, b2)) => match dec_ltype(b2) {
                Option::Some((dt, b3)) => match dec_usize(b3) {
                    Option::Some((len, b4)) => match dec_usize(b4) {
                        Option::Some((off, b5)) => match dec_opt_bytes(b5) {
                            Option::Some((va, b6)) => match dec_list(
                                b6,
                                |t: Seq<u8>| dec_boff(t),
                            ) {
                                Option::Some((offs, b7)) => if b7.len() == 0 {
                                    Option::Some(
                                        (
                                            TypeInfoView {
                                                data_type: dt,
                                                len: len,
                                                offset: off,
                                                validity: va,
                                                buffer_offsets: offs,
                                                child_data: cs,
                                            },
                                            rest,
                                        ),
                                    )
                                } else {
                                    Option::None
                                },
                                Option::None => Option::None,
                            },
                            Option::None => Option::None,
                        },
                        Option::None => Option::None,
                    },
                    Option::None => Option::None,
                },
                Option::None => Option::None,
            },
            Option::None => Option::None,
        },
        Option::None => Option::None,
    }
}

pub open spec fn dec_ti_list(s: Seq<u8>, n: nat) -> Option<(Seq<TypeInfoView>, Seq<u8>)>
    decreases s.len(), 2int,
{
    if n == 0 {
        Option::Some((Seq::empty(), s))
    } else {
        match dec_u64(s) {
            Option::Some((ln, r)) => if ln as nat <= r.len() {
                match dec_ti(s.take(8 + ln as int)) {
                    Option::Some((t, rem)) => if rem.len() == 0 {
                        match dec_ti_list(s.skip(8 + ln as int), (n - 1) as nat) {
                            Option::Some((ts, s2)) => Option::Some((seq![t] + ts, s2)),
                            Option::None => Option::None,
                        }
                    } else {
                        Option::None
                    },
                    Option::None => Option::None,
                }
            } else {
                Option::None
            },
            Option::None => Option::None,
        }
    }
}

/// Every variable-length part of the descriptor fits its length prefix.
pub open spec fn wf_ti(m: TypeInfoView) -> bool
    decreases m, 1int,
{
    &&& enc_ti_body(m).len() <= u64::MAX
    &&& m.child_data.len() <= u64::MAX
    &&& (m.validity matches Option::Some(b) ==> b.len() <= u64::MAX)
    &&& m.buffer_offsets.len() <= u64::MAX
    &&& wf_ti_list(m.child_data)
}

pub open spec fn wf_ti_list(cs: Seq<TypeInfoView>) -> bool
    decreases cs, 2int,
{
    if cs.len() == 0 {
        true
    } else {
        wf_ti(cs[0]) && wf_ti_list(cs.drop_first())
    }
}

pub proof fn lemma_ti_rt(m: TypeInfoView, rest: Seq<u8>)
    requires
        wf_ti(m),
    ensures
        dec_ti(enc_ti(m) + rest) == Option::Some((m, rest)),
    decreases m, 1int,
{
    let body = enc_ti_body(m);
    assert(enc_ti(m) + rest =~= enc_u64(body.len() as u64) + (body + rest));
    lemma_u64_rt(body.len() as u64, body + rest);
    assert((body + rest).take(body.len() as int) =~= body);
    assert((body + rest).skip(body.len() as int) =~= rest);
    lemma_ti_fields_rt(m, rest);
}

#[verifier::spinoff_prover]
#[verifier::rlimit(100)]
proof fn lemma_ti_fields_rt(m: TypeInfoView, rest: Seq<u8>)
    requires
        wf_ti(m),
    ensures
        dec_ti_fields(enc_ti_body(m), rest) == Option::Some((m, rest)),
    decreases m, 0int,
{
    let cs = m.child_data;
    let t2 = enc_ltype(m.data_type) + enc_usize(m.len) + enc_usize(m.offset) + enc_opt_bytes(
        m.validity,
    ) + enc_list(m.buffer_offsets, |o: BufferOffset| enc_boff(o));
    let t1 = enc_ti_items(cs) + t2;
    assert(enc_ti_body(m) =~= enc_u64(cs.len() as u64) + t1);
    lemma_u64_rt(cs.len() as u64, t1);
    lemma_ti_list_rt(cs, t2);
    let u5 = enc_list(m.buffer_offsets, |o: BufferOffset| enc_boff(o));
    let u4 = enc_opt_bytes(m.validity) + u5;
    let u3 = enc_usize(m.offset) + u4;
    let u2 = enc_usize(m.len) + u3;
    assert(t2 =~= enc_ltype(m.data_type) + u2);
    lemma_ltype_rt(m.data_type, u2);
    assert(u2 =~= enc_usize(m.len) + u3);
    lemma_usize_rt(m.len, u3);
    assert(u3 =~= enc_usize(m.offset) + u4);
    lemma_usize_rt(m.offset, u4);
    assert(u4 =~= enc_opt_bytes(m.validity) + u5);
    lemma_opt_bytes_rt(m.validity, u5);
    assert(u5 =~= enc_list(m.buffer_offsets, |o: BufferOffset| enc_boff(o)) + Seq::<u8>::empty());
    assert forall|x: BufferOffset, r: Seq<u8>|
        #[trigger] dec_boff(enc_boff(x) + r) == Option::Some((x, r)) by {
        lemma_boff_rt(x, r);
    }
    lemma_list_rt(
        m.buffer_offsets,
        Seq::<u8>::empty(),
        |o: BufferOffset| enc_boff(o),
        |t: Seq<u8>| dec_boff(t),
    );
}

proof fn lemma_ti_list_rt(cs: Seq<TypeInfoView>, rest: Seq<u8>)
    requires
        wf_ti_list(cs),
        cs.len() <= u64::MAX,
    ensures
        dec_ti_list(enc_ti_items(cs) + rest, cs.len()) == Option::Some((cs, rest)),
    decreases cs, 2int,
{
    if cs.len() == 0 {
        assert(enc_ti_items(cs) + rest =~= rest);
        assert(cs =~= Seq::<TypeInfoView>::empty());
    } else {
        let head = cs[0];
        let tail = cs.drop_first();
        let body0 = enc_ti_body(head);
        let s = enc_ti_items(cs) + rest;
        assert(s =~= enc_ti(head) + (enc_ti_items(tail) + rest));
        assert(s =~= enc_u64(body0.len() as u64) + (body0 + (enc_ti_items(tail) + rest)));
        lemma_u64_rt(body0.len() as u64, body0 + (enc_ti_items(tail) + rest));
        let r = body0 + (enc_ti_items(tail) + rest);
        assert(body0.len() as nat <= r.len());
        assert(s.take(8 + body0.len() as int) =~= enc_ti(head) + Seq::<u8>::empty());
        lemma_ti_rt(head, Seq::<u8>::empty());
        assert(s.skip(8 + body0.len() as int) =~= enc_ti_items(tail) + rest);
        lemma_ti_list_rt(tail, rest);
        assert(seq![head] + tail =~= cs);
    }
}

// --- metadata ---

pub open spec fn enc_meta(m: MetadataView) -> Seq<u8> {
    enc_timestamp(m.timestamp) + enc_ti(m.type_info) + enc_list(
        m.parameters,
        |e: (Seq<char>, ParamValueView)| enc_entry(e),
    )
}

pub open spec fn dec_meta(s: Seq<u8>) -> Option<(MetadataView, Seq<u8>)> {
    match dec_timestamp(s) {
        Option::Some((ts, s1)) => match dec_ti(s1) {
            Option::Some((ti, s2)) => match dec_list(s2, |t: Seq<u8>| dec_entry(t)) {
                Option::Some((ps, s3)) => Option::Some(
                    (MetadataView { timestamp: ts, type_info: ti, parameters: ps }, s3),
                ),
                Option::None => Option::None,
            },
            Option::None => Option::None,
        },
        Option::None => Option::None,
    }
}

pub open spec fn wf_meta(m: MetadataView) -> bool {
    &&& wf_ti(m.type_info)
    &&& m.parameters.len() <= u64::MAX
    &&& forall|i: int| 0 <= i < m.parameters.len() ==> entry_fits(#[trigger] m.parameters[i])
}

pub proof fn lemma_meta_rt(m: MetadataView, rest: Seq<u8>)
    requires
        wf_meta(m),
    ensures
        dec_meta(enc_meta(m) + rest) == Option::Some((m, rest)),
{
    let t2 = enc_list(m.parameters, |e: (Seq<char>, ParamValueView)| enc_entry(e)) + rest;
    let t1 = enc_ti(m.type_info) + t2;
    assert(enc_meta(m) + rest =~= enc_timestamp(m.timestamp) + t1);
    lemma_timestamp_rt(m.timestamp, t1);
    assert(t1 =~= enc_ti(m.type_info) + t2);
    lemma_ti_rt(m.type_info, t2);
    assert forall|x: (Seq<char>, ParamValueView), r: Seq<u8>|
        m.parameters.contains(x) implies #[trigger] dec_entry(enc_entry(x) + r) == Option::Some(
        (x, r),
    ) by {
        let i = choose|i: int| 0 <= i < m.parameters.len() && m.parameters[i] == x;
        lemma_entry_rt(x, r);
    }
    lemma_list_rt_each(
        m.parameters,
        rest,
        |e: (Seq<char>, ParamValueView)| enc_entry(e),
        |t: Seq<u8>| dec_entry(t),
    );
}

/// As `lemma_list_rt`, but the element hypothesis is only needed for
/// the items of the list.
pub proof fn lemma_items_rt_each<T>(
    items: Seq<T>,
    rest: Seq<u8>,
    f: spec_fn(T) -> Seq<u8>,
    g: spec_fn(Seq<u8>) -> Option<(T, Seq<u8>)>,
)
    requires
        forall|x: T, r: Seq<u8>|
            items.contains(x) ==> #[trigger] g(f(x) + r) == Option::Some((x, r)),
    ensures
        dec_items(enc_items(items, f) + rest, items.len(), g) == Option::Some((items, rest)),
    decreases items.len(),
{
    if items.len() == 0 {
        assert(enc_items(items, f) + rest =~= rest);
        assert(items =~= Seq::<T>::empty());
    } else {
        let tail = items.drop_first();
        assert(items.contains(items[0]));
        assert(enc_items(items, f) + rest =~= f(items[0]) + (enc_items(tail, f) + rest));
        assert(g(f(items[0]) + (enc_items(tail, f) + rest)) == Option::Some(
            (items[0], enc_items(tail, f) + rest),
        ));
        assert forall|x: T, r: Seq<u8>|
            tail.contains(x) implies #[trigger] g(f(x) + r) == Option::Some((x, r)) by {
            let i = choose|i: int| 0 <= i < tail.len() && tail[i] == x;
            assert(items[i + 1] == x);
            assert(items.contains(x));
        }
        lemma_items_rt_each(tail, rest, f, g);
        assert(seq![items[0]] + tail =~= items);
    }
}

pub proof fn lemma_list_rt_each<T>(
    items: Seq<T>,
    rest: Seq<u8>,
    f: spec_fn(T) -> Seq<u8>,
    g: spec_fn(Seq<u8>) -> Option<(T, Seq<u8>)>,
)
    requires
        forall|x: T, r: Seq<u8>|
            items.contains(x) ==> #[trigger] g(f(x) + r) == Option::Some((x, r)),
        items.len() <= u64::MAX,
    ensures
        dec_list(enc_list(items, f) + rest, g) == Option::Some((items, rest)),
{
    assert(enc_list(items, f) + rest =~= enc_u64(items.len() as u64) + (enc_items(items, f)
        + rest));
    lemma_u64_rt(items.len() as u64, enc_items(items, f) + rest);
    lemma_items_rt_each(items, rest, f, g);
}

// --- optional data message ---

pub open spec fn enc_opt_dm(d: Option<DataMessageView>) -> Seq<u8> {
    match d {
        Option::None => enc_u8(0u8),
        Option::Some(m) => enc_u8(1u8) + enc_data_message(m),
    }
}

pub open spec fn dec_opt_dm(s: Seq<u8>) -> Option<(Option<DataMessageView>, Seq<u8>)> {
    match dec_u8(s) {
        Option::Some((t, s1)) => if t == 0u8 {
            Option::Some((Option::None, s1))
        } else if t == 1u8 {
            match dec_data_message(s1) {
                Option::Some((m, s2)) => Option::Some((Option::Some(m), s2)),
                Option::None => Option::None,
            }
        } else {
            Option::None
        },
        Option::None => Option::None,
    }
}

pub open spec fn opt_dm_fits(d: Option<DataMessageView>) -> bool {
    d matches Option::Some(m) ==> data_message_fits(m)
}

pub proof fn lemma_opt_dm_rt(d: Option<DataMessageView>, rest: Seq<u8>)
    requires
        opt_dm_fits(d),
    ensures
        dec_opt_dm(enc_opt_dm(d) + rest) == Option::Some((d, rest)),
{
    match d {
        Option::None => {
            lemma_u8_rt(0u8, rest);
        },
        Option::Some(m) => {
            assert(enc_opt_dm(d) + rest =~= enc_u8(1u8) + (enc_data_message(m) + rest));
            lemma_u8_rt(1u8, enc_data_message(m) + rest);
            lemma_data_message_rt(m, rest);
        },
    }
}

// --- requests ---

pub open spec fn enc_request(r: RequestView) -> Seq<u8> {
    match r {
        RequestView::NodeConfig { node_id } => enc_u8(0u8) + enc_str(node_id),
        RequestView::Register { dataflow_id, node_id } => enc_u8(1u8) + enc_str(dataflow_id)
            + enc_str(node_id),
        RequestView::Subscribe { dataflow_id, node_id } => enc_u8(2u8) + enc_str(dataflow_id)
            + enc_str(node_id),
        RequestView::SubscribeDrop { dataflow_id, node_id } => enc_u8(3u8) + enc_str(dataflow_id)
            + enc_str(node_id),
        RequestView::SendOutput { output_id, metadata, data } => enc_u8(4u8) + enc_str(output_id)
            + enc_meta(metadata) + enc_opt_dm(data),
        RequestView::CloseOutputs { outputs } => enc_u8(5u8) + enc_list(
            outputs,
            |t: Seq<char>| enc_str(t),
        ),
        RequestView::OutputsDone => enc_u8(6u8),
        RequestView::NextEvent => enc_u8(7u8),
        RequestView::NextDropToken => enc_u8(8u8),
        RequestView::ReportDropToken { token } => enc_u8(9u8) + enc_token(token),
    }
}

pub open spec fn dec_request(s: Seq<u8>) -> Option<(RequestView, Seq<u8>)> {
    match dec_u8(s) {
        Option::Some((t, s1)) => if t == 0u8 {
            match dec_str(s1) {
                Option::Some((n, s2)) => Option::Some((RequestView::NodeConfig { node_id: n }, s2)),
                Option::None => Option::None,
            }
        } else if t == 1u8 {
            match dec_two_str(s1) {
                Option::Some(((d, n), s2)) => Option::Some(
                    (RequestView::Register { dataflow_id: d, node_id: n }, s2),
                ),
                Option::None => Option::None,
            }
        } else if t == 2u8 {
            match dec_two_str(s1) {
                Option::Some(((d, n), s2)) => Option::Some(
                    (RequestView::Subscribe { dataflow_id: d, node_id: n }, s2),
                ),
                Option::None => Option::None,
            }
        } else if t == 3u8 {
            match dec_two_str(s1) {
                Option::Some(((d, n), s2)) => Option::Some(
                    (RequestView::SubscribeDrop { dataflow_id: d, node_id: n }, s2),
                ),
                Option::None => Option::None,
            }
        } else if t == 4u8 {
            match dec_str(s1) {
                Option::Some((id, s2)) => match dec_meta(s2) {
                    Option::Some((m, s3)) => match dec_opt_dm(s3) {
                        Option::Some((d, s4)) => Option::Some(
                            (RequestView::SendOutput { output_id: id, metadata: m, data: d }, s4),
                        ),
                        Option::None => Option::None,
                    },
                    Option::None => Option::None,
                },
                Option::None => Option::None,
            }
        } else if t == 5u8 {
            match dec_list(s1, |u: Seq<u8>| dec_str(u)) {
                Option::Some((os, s2)) => Option::Some(
                    (RequestView::CloseOutputs { outputs: os }, s2),
                ),
                Option::None => Option::None,
            }
        } else if t == 6u8 {
            Option::Some((RequestView::OutputsDone, s1))
        } else if t == 7u8 {
            Option::Some((RequestView::NextEvent, s1))
        } else if t == 8u8 {
            Option::Some((RequestView::NextDropToken, s1))
        } else if t == 9u8 {
            match dec_token(s1) {
                Option::Some((tk, s2)) => Option::Some(
                    (RequestView::ReportDropToken { token: tk }, s2),
                ),
                Option::None => Option::None,
            }
        } else {
            Option::None
        },
        Option::None => Option::None,
    }
}

pub open spec fn dec_two_str(s: Seq<u8>) -> Option<((Seq<char>, Seq<char>), Seq<u8>)> {
    match dec_str(s) {
        Option::Some((a, s1)) => match dec_str(s1) {
            Option::Some((b, s2)) => Option::Some(((a, b), s2)),
            Option::None => Option::None,
        },
        Option::None => Option::None,
    }
}

pub open spec fn wf_request(r: RequestView) -> bool {
    match r {
        RequestView::NodeConfig { node_id } => str_fits(node_id),
        RequestView::Register { dataflow_id, node_id } => str_fits(dataflow_id) && str_fits(node_id),
        RequestView::Subscribe { dataflow_id, node_id } => str_fits(dataflow_id) && str_fits(node_id),
        RequestView::SubscribeDrop { dataflow_id, node_id } => str_fits(dataflow_id) && str_fits(node_id),
        RequestView::SendOutput { output_id, metadata, data } => str_fits(output_id) && wf_meta(metadata) && opt_dm_fits(data),
        RequestView::CloseOutputs { outputs } => outputs.len() <= u64::MAX && (forall|i: int| 0 <= i < outputs.len() ==> str_fits(#[trigger] outputs[i])),
        RequestView::OutputsDone => true,
        RequestView::NextEvent => true,
        RequestView::NextDropToken => true,
        RequestView::ReportDropToken { token } => true,
    }
}

proof fn lemma_two_str_rt(a: Seq<char>, b: Seq<char>, rest: Seq<u8>)
    requires
        str_fits(a),
        str_fits(b),
    ensures
        dec_two_str(enc_str(a) + enc_str(b) + rest) == Option::Some(((a, b), rest)),
{
    assert(enc_str(a) + enc_str(b) + rest =~= enc_str(a) + (enc_str(b) + rest));
    lemma_str_rt(a, enc_str(b) + rest);
    lemma_str_rt(b, rest);
}

proof fn lemma_req_tagged_two_str(tag: u8, a: Seq<char>, b: Seq<char>, rest: Seq<u8>)
    requires
        str_fits(a),
        str_fits(b),
    ensures
        dec_u8(enc_u8(tag) + (enc_str(a) + enc_str(b) + rest)) == Option::Some(
            (tag, enc_str(a) + enc_str(b) + rest),
        ),
        dec_two_str(enc_str(a) + enc_str(b) + rest) == Option::Some(((a, b), rest)),
{
    lemma_u8_rt(tag, enc_str(a) + enc_str(b) + rest);
    lemma_two_str_rt(a, b, rest);
}

#[verifier::spinoff_prover]
proof fn lemma_req_send_output_rt(id: Seq<char>, m: MetadataView, d: Option<DataMessageView>, rest: Seq<u8>)
    requires
        str_fits(id),
        wf_meta(m),
        opt_dm_fits(d),
    ensures
        dec_request(enc_request(RequestView::SendOutput { output_id: id, metadata: m, data: d })
            + rest) == Option::Some(
            (RequestView::SendOutput { output_id: id, metadata: m, data: d }, rest),
        ),
{
    let r = RequestView::SendOutput { output_id: id, metadata: m, data: d };
    let t2 = enc_opt_dm(d) + rest;
    let t1 = enc_meta(m) + t2;
    let t0 = enc_str(id) + t1;
    assert(enc_request(r) + rest =~= enc_u8(4u8) + t0);
    lemma_u8_rt(4u8, t0);
    assert(t0 =~= enc_str(id) + t1);
    lemma_str_rt(id, t1);
    assert(t1 =~= enc_meta(m) + t2);
    lemma_meta_rt(m, t2);
    lemma_opt_dm_rt(d, rest);
}

#[verifier::spinoff_prover]
proof fn lemma_req_close_outputs_rt(outputs: Seq<Seq<char>>, rest: Seq<u8>)
    requires
        outputs.len() <= u64::MAX,
        forall|i: int| 0 <= i < outputs.len() ==> str_fits(#[trigger] outputs[i]),
    ensures
        dec_request(enc_request(RequestView::CloseOutputs { outputs }) + rest) == Option::Some(
            (RequestView::CloseOutputs { outputs }, rest),
        ),
{
    let r = RequestView::CloseOutputs { outputs };
    let body = enc_list(outputs, |t: Seq<char>| enc_str(t)) + rest;
    assert(enc_request(r) + rest =~= enc_u8(5u8) + body);
    lemma_u8_rt(5u8, body);
    assert forall|x: Seq<char>, q: Seq<u8>|
        outputs.contains(x) implies #[trigger] dec_str(enc_str(x) + q) == Option::Some(
        (x, q),
    ) by {
        let i = choose|i: int| 0 <= i < outputs.len() && outputs[i] == x;
        lemma_str_rt(x, q);
    }
    lemma_list_rt_each(outputs, rest, |t: Seq<char>| enc_str(t), |u: Seq<u8>| dec_str(u));
}

#[verifier::spinoff_prover]
#[verifier::rlimit(100)]
pub proof fn lemma_request_rt(r: RequestView, rest: Seq<u8>)
    requires
        wf_request(r),
    ensures
        dec_request(enc_request(r) + rest) == Option::Some((r, rest)),
{
    match r {
        RequestView::NodeConfig { node_id } => {
            assert(enc_request(r) + rest =~= enc_u8(0u8) + (enc_str(node_id) + rest));
            lemma_u8_rt(0u8, enc_str(node_id) + rest);
            lemma_str_rt(node_id, rest);
        },
        RequestView::Register { dataflow_id, node_id } => {
            assert(enc_request(r) + rest =~= enc_u8(1u8) + (enc_str(dataflow_id) + enc_str(node_id)
                + rest));
            lemma_req_tagged_two_str(1u8, dataflow_id, node_id, rest);
        },
        RequestView::Subscribe { dataflow_id, node_id } => {
            assert(enc_request(r) + rest =~= enc_u8(2u8) + (enc_str(dataflow_id) + enc_str(node_id)
                + rest));
            lemma_req_tagged_two_str(2u8, dataflow_id, node_id, rest);
        },
        RequestView::SubscribeDrop { dataflow_id, node_id } => {
            assert(enc_request(r) + rest =~= enc_u8(3u8) + (enc_str(dataflow_id) + enc_str(node_id)
                + rest));
            lemma_req_tagged_two_str(3u8, dataflow_id, node_id, rest);
        },
        RequestView::SendOutput { output_id, metadata, data } => lemma_req_send_output_rt(output_id, metadata, data, rest),
        RequestView::CloseOutputs { outputs } => lemma_req_close_outputs_rt(outputs, rest),
        RequestView::OutputsDone => {
            lemma_u8_rt(6u8, rest);
            assert(enc_request(r) + rest =~= enc_u8(6u8) + rest);
        },
        RequestView::NextEvent => {
            lemma_u8_rt(7u8, rest);
            assert(enc_request(r) + rest =~= enc_u8(7u8) + rest);
        },
        RequestView::NextDropToken => {
            lemma_u8_rt(8u8, rest);
            assert(enc_request(r) + rest =~= enc_u8(8u8) + rest);
        },
        RequestView::ReportDropToken { token } => {
            assert(enc_request(r) + rest =~= enc_u8(9u8) + (enc_token(token) + rest));
            lemma_u8_rt(9u8, enc_token(token) + rest);
            lemma_token_rt(token, rest);
        },
    }
}

// --- timestamped requests: what actually crosses the wire ---

pub open spec fn enc_ts_request(t: Timestamp, r: RequestView) -> Seq<u8> {
    enc_timestamp(t) + enc_request(r)
}

pub open spec fn dec_ts_request(s: Seq<u8>) -> Option<((Timestamp, RequestView), Seq<u8>)> {
    match dec_timestamp(s) {
        Option::Some((t, s1)) => match dec_request(s1) {
            Option::Some((r, s2)) => Option::Some(((t, r), s2)),
            Option::None => Option::None,
        },
        Option::None => Option::None,
    }
}

/// The request half of the frame round trip: decoding an encoded
/// timestamped request yields it back, whatever follows it.
pub proof fn lemma_ts_request_rt(t: Timestamp, r: RequestView, rest: Seq<u8>)
    requires
        wf_request(r),
    ensures
        dec_ts_request(enc_ts_request(t, r) + rest) == Option::Some(((t, r), rest)),
{
    assert(enc_ts_request(t, r) + rest =~= enc_timestamp(t) + (enc_request(r) + rest));
    lemma_timestamp_rt(t, enc_request(r) + rest);
    lemma_request_rt(r, rest);
}

// --- daemon events ---

pub open spec fn enc_event(e: NodeEventView) -> Seq<u8> {
    match e {
        NodeEventView::Stop => enc_u8(0u8),
        NodeEventView::Reload { operator_id } => enc_u8(1u8) + enc_opt_str(operator_id),
        NodeEventView::Input { id, metadata, data } => enc_u8(2u8) + enc_str(id) + enc_meta(
            metadata,
        ) + enc_opt_dm(data),
        NodeEventView::InputClosed { id } => enc_u8(3u8) + enc_str(id),
    }
}

pub open spec fn dec_event(s: Seq<u8>) -> Option<(NodeEventView, Seq<u8>)> {
    match dec_u8(s) {
        Option::Some((t, s1)) => if t == 0u8 {
            Option::Some((NodeEventView::Stop, s1))
        } else if t == 1u8 {
            match dec_opt_str(s1) {
                Option::Some((o, s2)) => Option::Some(
                    (NodeEventView::Reload { operator_id: o }, s2),
                ),
                Option::None => Option::None,
            }
        } else if t == 2u8 {
            match dec_str(s1) {
                Option::Some((id, s2)) => match dec_meta(s2) {
                    Option::Some((m, s3)) => match dec_opt_dm(s3) {
                        Option::Some((d, s4)) => Option::Some(
                            (NodeEventView::Input { id: id, metadata: m, data: d }, s4),
                        ),
                        Option::None => Option::None,
                    },
                    Option::None => Option::None,
                },
                Option::None => Option::None,
            }
        } else if t == 3u8 {
            match dec_str(s1) {
                Option::Some((id, s2)) => Option::Some((NodeEventView::InputClosed { id: id }, s2)),
                Option::None => Option::None,
            }
        } else {
            Option::None
        },
        Option::None => Option::None,
    }
}

pub open spec fn wf_event(e: NodeEventView) -> bool {
    match e {
        NodeEventView::Stop => true,
        NodeEventView::Reload { operator_id } => (operator_id matches Option::Some(t) ==> str_fits(t)),
        NodeEventView::Input { id, metadata, data } => str_fits(id) && wf_meta(metadata) && opt_dm_fits(data),
        NodeEventView::InputClosed { id } => str_fits(id),
    }
}

#[verifier::spinoff_prover]
proof fn lemma_event_input_rt(id: Seq<char>, m: MetadataView, d: Option<DataMessageView>, rest: Seq<u8>)
    requires
        str_fits(id),
        wf_meta(m),
        opt_dm_fits(d),
    ensures
        dec_event(enc_event(NodeEventView::Input { id: id, metadata: m, data: d }) + rest)
            == Option::Some((NodeEventView::Input { id: id, metadata: m, data: d }, rest)),
{
    let e = NodeEventView::Input { id: id, metadata: m, data: d };
    let t2 = enc_opt_dm(d) + rest;
    let t1 = enc_meta(m) + t2;
    let t0 = enc_str(id) + t1;
    assert(enc_event(e) + rest =~= enc_u8(2u8) + t0);
    lemma_u8_rt(2u8, t0);
    assert(t0 =~= enc_str(id) + t1);
    lemma_str_rt(id, t1);
    assert(t1 =~= enc_meta(m) + t2);
    lemma_meta_rt(m, t2);
    lemma_opt_dm_rt(d, rest);
}

pub proof fn lemma_event_rt(e: NodeEventView, rest: Seq<u8>)
    requires
        wf_event(e),
    ensures
        dec_event(enc_event(e) + rest) == Option::Some((e, rest)),
{
    match e {
        NodeEventView::Stop => {
            lemma_u8_rt(0u8, rest);
            assert(enc_event(e) + rest =~= enc_u8(0u8) + rest);
        },
        NodeEventView::Reload { operator_id } => {
            assert(enc_event(e) + rest =~= enc_u8(1u8) + (enc_opt_str(operator_id) + rest));
            lemma_u8_rt(1u8, enc_opt_str(operator_id) + rest);
            lemma_opt_str_rt(operator_id, rest);
        },
        NodeEventView::Input { id, metadata, data } => lemma_event_input_rt(id, metadata, data, rest),
        NodeEventView::InputClosed { id } => {
            assert(enc_event(e) + rest =~= enc_u8(3u8) + (enc_str(id) + rest));
            lemma_u8_rt(3u8, enc_str(id) + rest);
            lemma_str_rt(id, rest);
        },
    }
}

// --- node configuration ---

pub open spec fn enc_comm(c: DaemonCommView) -> Seq<u8> {
    match c {
        DaemonCommView::Tcp { ip, port } => enc_u8(0u8) + enc_u8(ip.0) + enc_u8(ip.1) + enc_u8(
            ip.2,
        ) + enc_u8(ip.3) + enc_u64(port as u64),
        DaemonCommView::Shmem { region_id } => enc_u8(1u8) + enc_str(region_id),
    }
}

pub open spec fn dec_comm(s: Seq<u8>) -> Option<(DaemonCommView, Seq<u8>)> {
    match dec_u8(s) {
        Option::Some((t, s1)) => if t == 0u8 {
            match dec_u8(s1) {
                Option::Some((a, r1)) => match dec_u8(r1) {
                    Option::Some((b, r2)) => match dec_u8(r2) {
                        Option::Some((c, r3)) => match dec_u8(r3) {
                            Option::Some((d, r4)) => match dec_u64(r4) {
                                Option::Some((p, r5)) => if p <= u16::MAX as u64 {
                                    Option::Some(
                                        (
                                            DaemonCommView::Tcp {
                                                ip: (a, b, c, d),
                                                port: p as u16,
                                            },
                                            r5,
                                        ),
                                    )
                                } else {
                                    Option::None
                                },
                                Option::None => Option::None,
                            },
                            Option::None => Option::None,
                        },
                        Option::None => Option::None,
                    },
                    Option::None => Option::None,
                },
                Option::None => Option::None,
            }
        } else if t == 1u8 {
            match dec_str(s1) {
                Option::Some((id, s2)) => Option::Some(
                    (DaemonCommView::Shmem { region_id: id }, s2),
                ),
                Option::None => Option::None,
            }
        } else {
            Option::None
        },
        Option::None => Option::None,
    }
}

pub open spec fn wf_comm(c: DaemonCommView) -> bool {
    match c {
        DaemonCommView::Tcp { ip, port } => true,
        DaemonCommView::Shmem { region_id } => str_fits(region_id),
    }
}

#[verifier::spinoff_prover]
proof fn lemma_comm_tcp_rt(ip: (u8, u8, u8, u8), port: u16, rest: Seq<u8>)
    ensures
        dec_comm(enc_comm(DaemonCommView::Tcp { ip, port }) + rest) == Option::Some(
            (DaemonCommView::Tcp { ip, port }, rest),
        ),
{
    let c = DaemonCommView::Tcp { ip, port };
    let r5 = rest;
    let r4 = enc_u64(port as u64) + r5;
    let r3 = enc_u8(ip.3) + r4;
    let r2 = enc_u8(ip.2) + r3;
    let r1 = enc_u8(ip.1) + r2;
    let r0 = enc_u8(ip.0) + r1;
    assert(enc_comm(c) + rest =~= enc_u8(0u8) + r0);
    lemma_u8_rt(0u8, r0);
    assert(r0 =~= enc_u8(ip.0) + r1);
    lemma_u8_rt(ip.0, r1);
    assert(r1 =~= enc_u8(ip.1) + r2);
    lemma_u8_rt(ip.1, r2);
    assert(r2 =~= enc_u8(ip.2) + r3);
    lemma_u8_rt(ip.2, r3);
    assert(r3 =~= enc_u8(ip.3) + r4);
    lemma_u8_rt(ip.3, r4);
    lemma_u64_rt(port as u64, r5);
}

pub proof fn lemma_comm_rt(c: DaemonCommView, rest: Seq<u8>)
    requires
        wf_comm(c),
    ensures
        dec_comm(enc_comm(c) + rest) == Option::Some((c, rest)),
{
    match c {
        DaemonCommView::Tcp { ip, port } => lemma_comm_tcp_rt(ip, port, rest),
        DaemonCommView::Shmem { region_id } => {
            assert(enc_comm(c) + rest =~= enc_u8(1u8) + (enc_str(region_id) + rest));
            lemma_u8_rt(1u8, enc_str(region_id) + rest);
            lemma_str_rt(region_id, rest);
        },
    }
}

pub open spec fn enc_node_config(c: NodeConfigView) -> Seq<u8> {
    enc_str(c.dataflow_id) + enc_str(c.node_id) + enc_list(c.outputs, |t: Seq<char>| enc_str(t))
        + enc_comm(c.daemon_communication) + enc_str(c.dataflow_descriptor) + enc_bool(c.dynamic)
}

pub open spec fn dec_node_config(s: Seq<u8>) -> Option<(NodeConfigView, Seq<u8>)> {
    match dec_str(s) {
        Option::Some((df, s1)) => match dec_str(s1) {
            Option::Some((nid, s2)) => match dec_list(s2, |u: Seq<u8>| dec_str(u)) {
                Option::Some((outs, s3)) => match dec_comm(s3) {
                    Option::Some((cm, s4)) => match dec_str(s4) {
                        Option::Some((desc, s5)) => match dec_bool(s5) {
                            Option::Some((dy, s6)) => Option::Some(
                                (
                                    NodeConfigView {
                                        dataflow_id: df,
                                        node_id: nid,
                                        outputs: outs,
                                        daemon_communication: cm,
                                        dataflow_descriptor: desc,
                                        dynamic: dy,
                                    },
                                    s6,
                                ),
                            ),
                            Option::None => Option::None,
                        },
                        Option::None => Option::None,
                    },
                    Option::None => Option::None,
                },
                Option::None => Option::None,
            },
            Option::None => Option::None,
        },
        Option::None => Option::None,
    }
}

pub open spec fn wf_node_config(c: NodeConfigView) -> bool {
    &&& str_fits(c.dataflow_id)
    &&& str_fits(c.node_id)
    &&& c.outputs.len() <= u64::MAX
    &&& (forall|i: int| 0 <= i < c.outputs.len() ==> str_fits(#[trigger] c.outputs[i]))
    &&& wf_comm(c.daemon_communication)
    &&& str_fits(c.dataflow_descriptor)
}

#[verifier::spinoff_prover]
#[verifier::rlimit(100)]
pub proof fn lemma_node_config_rt(c: NodeConfigView, rest: Seq<u8>)
    requires
        wf_node_config(c),
    ensures
        dec_node_config(enc_node_config(c) + rest) == Option::Some((c, rest)),
{
    let t5 = enc_bool(c.dynamic) + rest;
    let t4 = enc_str(c.dataflow_descriptor) + t5;
    let t3 = enc_comm(c.daemon_communication) + t4;
    let t2 = enc_list(c.outputs, |t: Seq<char>| enc_str(t)) + t3;
    let t1 = enc_str(c.node_id) + t2;
    assert(enc_node_config(c) + rest =~= enc_str(c.dataflow_id) + t1);
    lemma_str_rt(c.dataflow_id, t1);
    assert(t1 =~= enc_str(c.node_id) + t2);
    lemma_str_rt(c.node_id, t2);
    assert forall|x: Seq<char>, q: Seq<u8>|
        c.outputs.contains(x) implies #[trigger] dec_str(enc_str(x) + q) == Option::Some(
        (x, q),
    ) by {
        let i = choose|i: int| 0 <= i < c.outputs.len() && c.outputs[i] == x;
        lemma_str_rt(x, q);
    }
    assert(t2 =~= enc_list(c.outputs, |t: Seq<char>| enc_str(t)) + t3);
    lemma_list_rt_each(c.outputs, t3, |t: Seq<char>| enc_str(t), |u: Seq<u8>| dec_str(u));
    assert(t3 =~= enc_comm(c.daemon_communication) + t4);
    lemma_comm_rt(c.daemon_communication, t4);
    assert(t4 =~= enc_str(c.dataflow_descriptor) + t5);
    lemma_str_rt(c.dataflow_descriptor, t5);
    lemma_bool_rt(c.dynamic, rest);
}

// --- replies, under either serializer ---

/// Which shape of reply a request declares: the compact binary form,
/// whose variant is a single tag byte, or the self-describing form,
/// whose variant is spelled out by name. The self-description goes no
/// further than the variant name over the same binary body — it
/// tolerates added or renamed variants, not skew within a variant's
/// fields.
#[derive(Clone, Copy, Debug, PartialEq, Eq, Structural)]
pub enum Serializer {
    Bincode,
    SerdeJson,
}

pub open spec fn reply_tag(r: ReplyView) -> u8 {
    match r {
        ReplyView::Empty => 0u8,
        ReplyView::NodeConfig { result } => 1u8,
        ReplyView::NextEvents { events } => 2u8,
        ReplyView::NextDropToken { token } => 3u8,
        ReplyView::Error { message } => 4u8,
    }
}

pub open spec fn reply_name(r: ReplyView) -> Seq<char> {
    match r {
        ReplyView::Empty => "Empty"@,
        ReplyView::NodeConfig { result } => "NodeConfig"@,
        ReplyView::NextEvents { events } => "NextEvents"@,
        ReplyView::NextDropToken { token } => "NextDropToken"@,
        ReplyView::Error { message } => "Error"@,
    }
}

pub open spec fn enc_reply_body(r: ReplyView) -> Seq<u8> {
    match r {
        ReplyView::Empty => Seq::empty(),
        ReplyView::NodeConfig { result } => match result {
            Result::Ok(c) => enc_u8(0u8) + enc_node_config(c),
            Result::Err(e) => enc_u8(1u8) + enc_str(e),
        },
        ReplyView::NextEvents { events } => enc_list(events, |e: NodeEventView| enc_event(e)),
        ReplyView::NextDropToken { token } => match token {
            Option::None => enc_u8(0u8),
            Option::Some(t) => enc_u8(1u8) + enc_token(t),
        },
        ReplyView::Error { message } => enc_str(message),
    }
}

pub open spec fn enc_reply(ser: Serializer, r: ReplyView) -> Seq<u8> {
    match ser {
        Serializer::Bincode => enc_u8(reply_tag(r)) + enc_reply_body(r),
        Serializer::SerdeJson => enc_str(reply_name(r)) + enc_reply_body(r),
    }
}

pub open spec fn dec_reply_body(tag: u8, s: Seq<u8>) -> Option<(ReplyView, Seq<u8>)> {
    if tag == 0u8 {
        Option::Some((ReplyView::Empty, s))
    } else if tag == 1u8 {
        match dec_u8(s) {
            Option::Some((t, s1)) => if t == 0u8 {
                match dec_node_config(s1) {
                    Option::Some((c, s2)) => Option::Some(
                        (ReplyView::NodeConfig { result: Result::Ok(c) }, s2),
                    ),
                    Option::None => Option::None,
                }
            } else if t == 1u8 {
                match dec_str(s1) {
                    Option::Some((e, s2)) => Option::Some(
                        (ReplyView::NodeConfig { result: Result::Err(e) }, s2),
                    ),
                    Option::None => Option::None,
                }
            } else {
                Option::None
            },
            Option::None => Option::None,
        }
    } else if tag == 2u8 {
        match dec_list(s, |u: Seq<u8>| dec_event(u)) {
            Option::Some((es, s1)) => Option::Some((ReplyView::NextEvents { events: es }, s1)),
            Option::None => Option::None,
        }
    } else if tag == 3u8 {
        match dec_u8(s) {
            Option::Some((t, s1)) => if t == 0u8 {
                Option::Some((ReplyView::NextDropToken { token: Option::None }, s1))
            } else if t == 1u8 {
                match dec_token(s1) {
                    Option::Some((tk, s2)) => Option::Some(
                        (ReplyView::NextDropToken { token: Option::Some(tk) }, s2),
                    ),
                    Option::None => Option::None,
                }
            } else {
                Option::None
            },
            Option::None => Option::None,
        }
    } else if tag == 4u8 {
        match dec_str(s) {
            Option::Some((m, s1)) => Option::Some((ReplyView::Error { message: m }, s1)),
            Option::None => Option::None,
        }
    } else {
        Option::None
    }
}

pub open spec fn tag_of_name(n: Seq<char>) -> Option<u8> {
    if n == "Empty"@ {
        Option::Some(0u8)
    } else if n == "NodeConfig"@ {
        Option::Some(1u8)
    } else if n == "NextEvents"@ {
        Option::Some(2u8)
    } else if n == "NextDropToken"@ {
        Option::Some(3u8)
    } else if n == "Error"@ {
        Option::Some(4u8)
    } else {
        Option::None
    }
}

pub open spec fn dec_reply(ser: Serializer, s: Seq<u8>) -> Option<(ReplyView, Seq<u8>)> {
    match ser {
        Serializer::Bincode => match dec_u8(s) {
            Option::Some((tag, s1)) => dec_reply_body(tag, s1),
            Option::None => Option::None,
        },
        Serializer::SerdeJson => match dec_str(s) {
            Option::Some((n, s1)) => match tag_of_name(n) {
                Option::Some(tag) => dec_reply_body(tag, s1),
                Option::None => Option::None,
            },
            Option::None => Option::None,
        },
    }
}

pub open spec fn wf_reply(r: ReplyView) -> bool {
    match r {
        ReplyView::Empty => true,
        ReplyView::NodeConfig { result } => match result {
            Result::Ok(c) => wf_node_config(c),
            Result::Err(e) => str_fits(e),
        },
        ReplyView::NextEvents { events } => events.len() <= u64::MAX && (forall|i: int| 0 <= i < events.len() ==> wf_event(#[trigger] events[i])),
        ReplyView::NextDropToken { token } => true,
        ReplyView::Error { message } => str_fits(message),
    }
}

proof fn lemma_reply_names_distinct()
    ensures
        tag_of_name("Empty"@) == Option::Some(0u8),
        tag_of_name("NodeConfig"@) == Option::Some(1u8),
        tag_of_name("NextEvents"@) == Option::Some(2u8),
        tag_of_name("NextDropToken"@) == Option::Some(3u8),
        tag_of_name("Error"@) == Option::Some(4u8),
        str_fits("Empty"@),
        str_fits("NodeConfig"@),
        str_fits("NextEvents"@),
        str_fits("NextDropToken"@),
        str_fits("Error"@),
{
    reveal_strlit("Empty");
    reveal_strlit("NodeConfig");
    reveal_strlit("NextEvents");
    reveal_strlit("NextDropToken");
    reveal_strlit("Error");
    broadcast use vstd::utf8::is_ascii_chars_encode_utf8, vstd::utf8::is_ascii_chars_nat_bound;

    assert("NextEvents"@[1] != "NodeConfig"@[1]);
    assert("Error"@[1] != "Empty"@[1]);
    assert(vstd::utf8::is_ascii_chars("Empty"@));
    assert(vstd::utf8::is_ascii_chars("NodeConfig"@));
    assert(vstd::utf8::is_ascii_chars("NextEvents"@));
    assert(vstd::utf8::is_ascii_chars("NextDropToken"@));
    assert(vstd::utf8::is_ascii_chars("Error"@));
}

#[verifier::spinoff_prover]
proof fn lemma_reply_body_rt(r: ReplyView, rest: Seq<u8>)
    requires
        wf_reply(r),
    ensures
        dec_reply_body(reply_tag(r), enc_reply_body(r) + rest) == Option::Some((r, rest)),
{
    match r {
        ReplyView::Empty => {
            assert(enc_reply_body(r) + rest =~= rest);
        },
        ReplyView::NodeConfig { result } => {
            match result {
                Result::Ok(c) => {
                    assert(enc_reply_body(r) + rest =~= enc_u8(0u8) + (enc_node_config(c) + rest));
                    lemma_u8_rt(0u8, enc_node_config(c) + rest);
                    lemma_node_config_rt(c, rest);
                },
                Result::Err(e) => {
                    assert(enc_reply_body(r) + rest =~= enc_u8(1u8) + (enc_str(e) + rest));
                    lemma_u8_rt(1u8, enc_str(e) + rest);
                    lemma_str_rt(e, rest);
                },
            }
        },
        ReplyView::NextEvents { events } => {
            assert forall|x: NodeEventView, q: Seq<u8>|
                events.contains(x) implies #[trigger] dec_event(enc_event(x) + q) == Option::Some(
                (x, q),
            ) by {
                let i = choose|i: int| 0 <= i < events.len() && events[i] == x;
                lemma_event_rt(x, q);
            }
            lemma_list_rt_each(events, rest, |e: NodeEventView| enc_event(e), |u: Seq<u8>| dec_event(u));
        },
        ReplyView::NextDropToken { token } => {
            match token {
                Option::None => {
                    lemma_u8_rt(0u8, rest);
                    assert(enc_reply_body(r) + rest =~= enc_u8(0u8) + rest);
                },
                Option::Some(t) => {
                    assert(enc_reply_body(r) + rest =~= enc_u8(1u8) + (enc_token(t) + rest));
                    lemma_u8_rt(1u8, enc_token(t) + rest);
                    lemma_token_rt(t, rest);
                },
            }
        },
        ReplyView::Error { message } => {
            lemma_str_rt(message, rest);
        },
    }
}

/// The reply half of the frame round trip, for either serializer:
/// decoding an encoded reply yields it back, whatever follows it.
pub proof fn lemma_reply_rt(ser: Serializer, r: ReplyView, rest: Seq<u8>)
    requires
        wf_reply(r),
    ensures
        dec_reply(ser, enc_reply(ser, r) + rest) == Option::Some((r, rest)),
{
    match ser {
        Serializer::Bincode => {
            assert(enc_reply(ser, r) + rest =~= enc_u8(reply_tag(r)) + (enc_reply_body(r) + rest));
            lemma_u8_rt(reply_tag(r), enc_reply_body(r) + rest);
            lemma_reply_body_rt(r, rest);
        },
        Serializer::SerdeJson => {
            lemma_reply_names_distinct();
            assert(enc_reply(ser, r) + rest =~= enc_str(reply_name(r)) + (enc_reply_body(r)
                + rest));
            lemma_str_rt(reply_name(r), enc_reply_body(r) + rest);
            assert(tag_of_name(reply_name(r)) == Option::Some(reply_tag(r)));
            lemma_reply_body_rt(r, rest);
        },
    }
}

/// Prefix the item list inside a decoder result.
pub open spec fn opt_prepend<T>(
    pre: Seq<T>,
    o: Option<(Seq<T>, Seq<u8>)>,
) -> Option<(Seq<T>, Seq<u8>)> {
    match o {
        Option::Some((xs, s)) => Option::Some((pre + xs, s)),
        Option::None => Option::None,
    }
}

} // verus!
