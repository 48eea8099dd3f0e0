use vstd::prelude::*;
use crate::error::NodeError;
use crate::event::RawData;
use crate::message::{ArrowTypeInfo, BufferOffset, LogicalType, TypeInfoView};

verus! {

#[verifier::external_type_specification]
#[verifier::external_body]
pub struct ExArrayData(arrow::array::ArrayData);

#[verifier::external_type_specification]
#[verifier::external_body]
pub struct ExBuffer(arrow::buffer::Buffer);

#[verifier::external_type_specification]
#[verifier::external_body]
pub struct ExDataType(arrow::datatypes::DataType);

/// The bytes a buffer view exposes.
pub uninterp spec fn buffer_bytes(b: arrow::buffer::Buffer) -> Seq<u8>;

/// Which of the element types this library uses an arrow data type is,
/// if any.
pub uninterp spec fn dt_of(d: arrow::datatypes::DataType) -> Option<LogicalType>;

/// Whether arrow accepts an array assembled from these plain parts:
/// the element type, the element count, the optional validity bitmap
/// bytes, the logical offset, the byte contents of each buffer, and
/// the number of child arrays (all of the library's element types
/// take none).
pub uninterp spec fn arrow_accepts(
    dt: LogicalType,
    len: usize,
    validity: Option<Seq<u8>>,
    offset: usize,
    buffers: Seq<Seq<u8>>,
    n_children: nat,
) -> bool;

/// Relies on arrow::buffer::Buffer::from_vec: wraps the vector's bytes
/// without copying.
#[verifier::external_body]
fn buffer_from_vec(v: Vec<u8>) -> (r: arrow::buffer::Buffer)
    ensures
        buffer_bytes(r) == v@,
{
    arrow::buffer::Buffer::from_vec(v)
}

/// Relies on arrow::buffer::Buffer::len.
#[verifier::external_body]
fn buffer_len(b: &arrow::buffer::Buffer) -> (r: usize)
    ensures
        r == buffer_bytes(*b).len(),
{
    b.len()
}

/// Relies on arrow::buffer::Buffer::slice_with_length: a zero-copy
/// view of `len` bytes from `offset`; panics only when the slice
/// leaves the buffer, which the precondition rules out.
#[verifier::external_body]
fn buffer_slice_with_length(b: &arrow::buffer::Buffer, offset: usize, len: usize) -> (r:
    arrow::buffer::Buffer)
    requires
        offset + len <= buffer_bytes(*b).len(),
    ensures
        buffer_bytes(r) == buffer_bytes(*b).subrange(offset as int, offset as int + len as int),
{
    b.slice_with_length(offset, len)
}

/// Relies on arrow::array::ArrayDataBuilder with `align_buffers`: the
/// buffers are first copied into aligned allocations where needed,
/// then the array is validated, so for the element types this library
/// uses acceptance depends on the plain values handed in alone. Of an
/// arrow data type that is none of those, nothing is claimed. The
/// builder wraps the validity bitmap before validating and panics when
/// it holds fewer than `offset + len` bits; the precondition rules
/// exactly that out.
#[verifier::external_body]
fn array_data_build(
    data_type: arrow::datatypes::DataType,
    len: usize,
    validity: Option<arrow::buffer::Buffer>,
    offset: usize,
    buffers: Vec<arrow::buffer::Buffer>,
    child_data: Vec<arrow::array::ArrayData>,
) -> (r: Result<arrow::array::ArrayData, ()>)
    requires
        validity matches Some(b) ==> offset + len <= 8 * buffer_bytes(b).len(),
    ensures
        (dt_of(data_type) matches Some(lt) ==> (r is Ok) == arrow_accepts(
            lt,
            len,
            match validity {
                Option::Some(b) => Option::Some(buffer_bytes(b)),
                Option::None => Option::None,
            },
            offset,
            Seq::new(buffers@.len(), |i: int| buffer_bytes(buffers@[i])),
            child_data@.len() as nat,
        )),
{
    arrow::array::ArrayDataBuilder::new(data_type)
        .len(len)
        .null_bit_buffer(validity)
        .offset(offset)
        .buffers(buffers)
        .child_data(child_data)
        .align_buffers(true)
        .build()
        .map_err(|_| ())
}

/// Relies on arrow::array::ArrayData::new_empty.
#[verifier::external_body]
fn array_data_new_empty(data_type: &arrow::datatypes::DataType) -> (r: arrow::array::ArrayData) {
    arrow::array::ArrayData::new_empty(data_type)
}

/// Relies on the arrow::datatypes::DataType constants.
#[verifier::external_body]
fn arrow_uint8() -> (r: arrow::datatypes::DataType)
    ensures
        dt_of(r) == Option::Some(LogicalType::UInt8),
{
    arrow::datatypes::DataType::UInt8
}

#[verifier::external_body]
fn arrow_uint64() -> (r: arrow::datatypes::DataType)
    ensures
        dt_of(r) == Option::Some(LogicalType::UInt64),
{
    arrow::datatypes::DataType::UInt64
}

#[verifier::external_body]
fn arrow_int32() -> (r: arrow::datatypes::DataType)
    ensures
        dt_of(r) == Option::Some(LogicalType::Int32),
{
    arrow::datatypes::DataType::Int32
}

#[verifier::external_body]
fn arrow_int64() -> (r: arrow::datatypes::DataType)
    ensures
        dt_of(r) == Option::Some(LogicalType::Int64),
{
    arrow::datatypes::DataType::Int64
}

#[verifier::external_body]
fn arrow_utf8() -> (r: arrow::datatypes::DataType)
    ensures
        dt_of(r) == Option::Some(LogicalType::Utf8),
{
    arrow::datatypes::DataType::Utf8
}

#[verifier::external_body]
fn arrow_binary() -> (r: arrow::datatypes::DataType)
    ensures
        dt_of(r) == Option::Some(LogicalType::Binary),
{
    arrow::datatypes::DataType::Binary
}

/// The arrow data type a logical type stands for.
pub fn to_arrow_data_type(d: &LogicalType) -> (r: arrow::datatypes::DataType)
    ensures
        dt_of(r) == Option::Some(*d),
{
    match d {
        LogicalType::UInt8 => arrow_uint8(),
        LogicalType::UInt64 => arrow_uint64(),
        LogicalType::Int32 => arrow_int32(),
        LogicalType::Int64 => arrow_int64(),
        LogicalType::Utf8 => arrow_utf8(),
        LogicalType::Binary => arrow_binary(),
    }
}

/// Every buffer slice of the descriptor — transitively through its
/// children — lies within a payload of `n` bytes.
pub open spec fn ti_fits(t: TypeInfoView, n: nat) -> bool
    decreases t, 1int,
{
    &&& (forall|i: int|
        0 <= i < t.buffer_offsets.len() ==> (#[trigger] t.buffer_offsets[i]).offset
            + t.buffer_offsets[i].len <= n)
    &&& ti_list_fits(t.child_data, n)
}

pub open spec fn ti_list_fits(cs: Seq<TypeInfoView>, n: nat) -> bool
    decreases cs, 2int,
{
    if cs.len() == 0 {
        true
    } else {
        ti_fits(cs[0], n) && ti_list_fits(cs.drop_first(), n)
    }
}

/// The byte contents of each slice a descriptor cuts from the payload.
pub open spec fn payload_slices(offs: Seq<BufferOffset>, payload: Seq<u8>) -> Seq<Seq<u8>> {
    Seq::new(
        offs.len(),
        |i: int| payload.subrange(
            offs[i].offset as int,
            offs[i].offset as int + offs[i].len as int,
        ),
    )
}

/// The whole reconstruction succeeds: every slice lies in the payload,
/// every child descriptor is itself accepted, and arrow accepts the
/// node assembled from its plain parts.
pub open spec fn arrow_tree_accepts(t: TypeInfoView, payload: Seq<u8>) -> bool
    decreases t, 1int,
{
    &&& (forall|i: int|
        0 <= i < t.buffer_offsets.len() ==> (#[trigger] t.buffer_offsets[i]).offset
            + t.buffer_offsets[i].len <= payload.len())
    &&& (t.validity matches Option::Some(b) ==> t.offset + t.len <= 8 * b.len())
    &&& arrow_children_accept(t.child_data, payload)
    &&& arrow_accepts(
        t.data_type,
        t.len,
        t.validity,
        t.offset,
        payload_slices(t.buffer_offsets, payload),
        t.child_data.len(),
    )
}

pub open spec fn arrow_children_accept(cs: Seq<TypeInfoView>, payload: Seq<u8>) -> bool
    decreases cs, 2int,
{
    if cs.len() == 0 {
        true
    } else {
        arrow_tree_accepts(cs[0], payload) && arrow_children_accept(cs.drop_first(), payload)
    }
}

proof fn lemma_children_accept_index(cs: Seq<TypeInfoView>, payload: Seq<u8>, i: int)
    requires
        arrow_children_accept(cs, payload),
        0 <= i < cs.len(),
    ensures
        arrow_tree_accepts(cs[i], payload),
    decreases cs.len(),
{
    if i > 0 {
        lemma_children_accept_index(cs.drop_first(), payload, i - 1);
        assert(cs.drop_first()[i - 1] == cs[i]);
    }
}

proof fn lemma_children_accept_all(cs: Seq<TypeInfoView>, payload: Seq<u8>)
    requires
        forall|j: int| 0 <= j < cs.len() ==> arrow_tree_accepts(#[trigger] cs[j], payload),
    ensures
        arrow_children_accept(cs, payload),
    decreases cs.len(),
{
    if cs.len() > 0 {
        assert forall|j: int| 0 <= j < cs.drop_first().len() implies arrow_tree_accepts(
            #[trigger] cs.drop_first()[j],
            payload,
        ) by {
            assert(cs.drop_first()[j] == cs[j + 1]);
        }
        lemma_children_accept_all(cs.drop_first(), payload);
    }
}

proof fn lemma_children_accept_refute(cs: Seq<TypeInfoView>, payload: Seq<u8>, i: int)
    requires
        0 <= i < cs.len(),
        !arrow_tree_accepts(cs[i], payload),
    ensures
        !arrow_children_accept(cs, payload),
{
    if arrow_children_accept(cs, payload) {
        lemma_children_accept_index(cs, payload, i);
    }
}

/// Rebuild a columnar array over a flat buffer from its descriptor.
/// An empty payload becomes an empty array of the descriptor's type,
/// whatever the descriptor. Otherwise: cut each buffer slice out of
/// the payload, rebuild the children from the same payload, and hand
/// the parts to arrow for assembly — succeeding exactly when every
/// slice lies within the payload, every validity bitmap covers its
/// elements, and arrow accepts every assembled node.
#[verifier::loop_isolation(false)]
#[verifier::spinoff_prover]
#[verifier::rlimit(100)]
pub fn buffer_into_arrow_array(
    raw_buffer: &arrow::buffer::Buffer,
    type_info: &ArrowTypeInfo,
) -> (r: Result<arrow::array::ArrayData, NodeError>)
    ensures
        buffer_bytes(*raw_buffer).len() == 0 ==> r is Ok,
        buffer_bytes(*raw_buffer).len() > 0 ==> (r is Ok) == arrow_tree_accepts(
            type_info@,
            buffer_bytes(*raw_buffer),
        ),
        (r is Ok && buffer_bytes(*raw_buffer).len() > 0) ==> ti_fits(
            type_info@,
            buffer_bytes(*raw_buffer).len(),
        ),
    decreases *type_info,
{
    let ghost payload = buffer_bytes(*raw_buffer);
    let total = buffer_len(raw_buffer);
    if total == 0 {
        let dt = to_arrow_data_type(&type_info.data_type);
        return Ok(array_data_new_empty(&dt));
    }
    match &type_info.validity {
        Option::Some(v) => {
            // arrow demands the bitmap cover offset + len elements
            if (type_info.offset as u128) + (type_info.len as u128) > 8u128 * (v.len() as u128) {
                proof {
                    assert(!arrow_tree_accepts(type_info@, payload));
                }
                return Err(NodeError::Decode);
            }
        },
        Option::None => {},
    }
    let mut buffers: Vec<arrow::buffer::Buffer> = Vec::new();
    let n_off = type_info.buffer_offsets.len();
    for i in 0..n_off
        invariant
            n_off == type_info.buffer_offsets@.len(),
            buffers@.len() == i,
            forall|j: int|
                0 <= j < i ==> (#[trigger] type_info.buffer_offsets@[j]).offset
                    + type_info.buffer_offsets@[j].len <= payload.len(),
            forall|j: int|
                0 <= j < i ==> buffer_bytes(#[trigger] buffers@[j]) == payload.subrange(
                    type_info.buffer_offsets@[j].offset as int,
                    type_info.buffer_offsets@[j].offset as int
                        + type_info.buffer_offsets@[j].len as int,
                ),
    {
        let off = type_info.buffer_offsets[i].offset;
        let len = type_info.buffer_offsets[i].len;
        if off > total || len > total - off {
            proof {
                assert(!arrow_tree_accepts(type_info@, payload));
            }
            return Err(NodeError::Decode);
        }
        buffers.push(buffer_slice_with_length(raw_buffer, off, len));
    }
    let mut child_data: Vec<arrow::array::ArrayData> = Vec::new();
    let n_child = type_info.child_data.len();
    let ghost cviews = crate::message::type_info_views(type_info.child_data);
    for i in 0..n_child
        invariant
            n_child == type_info.child_data@.len(),
            cviews == crate::message::type_info_views(type_info.child_data),
            child_data@.len() == i,
            forall|j: int| 0 <= j < i ==> ti_fits(#[trigger] cviews[j], payload.len()),
            forall|j: int| 0 <= j < i ==> arrow_tree_accepts(#[trigger] cviews[j], payload),
    {
        match buffer_into_arrow_array(raw_buffer, &type_info.child_data[i]) {
            Ok(child) => {
                child_data.push(child);
                assert(cviews[i as int] == type_info.child_data[i as int]@);
            },
            Err(e) => {
                proof {
                    assert(cviews[i as int] == type_info.child_data[i as int]@);
                    lemma_children_accept_refute(cviews, payload, i as int);
                    assert(!arrow_tree_accepts(type_info@, payload));
                }
                return Err(e);
            },
        }
    }
    proof {
        lemma_ti_list_fits_all(cviews, payload.len() as nat);
        lemma_children_accept_all(cviews, payload);
    }
    let validity: Option<arrow::buffer::Buffer> = match &type_info.validity {
        Option::Some(v) => Option::Some(
            buffer_from_vec(vstd::slice::slice_to_vec(v.as_slice())),
        ),
        Option::None => Option::None,
    };
    let data_type = to_arrow_data_type(&type_info.data_type);
    let result = array_data_build(
        data_type,
        type_info.len,
        validity,
        type_info.offset,
        buffers,
        child_data,
    );
    proof {
        assert(Seq::new(
            type_info.buffer_offsets@.len(),
            |i: int| buffer_bytes(
                Seq::new(type_info.buffer_offsets@.len(), |j: int| buffers@[j])[i],
            ),
        ) =~= payload_slices(type_info@.buffer_offsets, payload));
    }
    match result {
        Ok(array) => {
            proof {
                assert(Seq::new(buffers@.len(), |i: int| buffer_bytes(buffers@[i]))
                    =~= payload_slices(type_info@.buffer_offsets, payload));
            }
            Ok(array)
        },
        Err(_) => {
            proof {
                assert(Seq::new(buffers@.len(), |i: int| buffer_bytes(buffers@[i]))
                    =~= payload_slices(type_info@.buffer_offsets, payload));
                assert(!arrow_tree_accepts(type_info@, payload));
            }
            Err(NodeError::Decode)
        },
    }
}

proof fn lemma_ti_list_fits_all(cs: Seq<TypeInfoView>, n: nat)
    requires
        forall|j: int| 0 <= j < cs.len() ==> ti_fits(#[trigger] cs[j], n),
    ensures
        ti_list_fits(cs, n),
    decreases cs.len(),
{
    if cs.len() > 0 {
        assert forall|j: int| 0 <= j < cs.drop_first().len() implies ti_fits(
            #[trigger] cs.drop_first()[j],
            n,
        ) by {
            assert(cs.drop_first()[j] == cs[j + 1]);
        }
        lemma_ti_list_fits_all(cs.drop_first(), n);
    }
}

impl RawData {
    /// Turn a raw input payload into a columnar array described by
    /// `type_info`, sharing memory with the payload. An empty payload
    /// becomes an empty array of the descriptor's type; otherwise the
    /// reconstruction succeeds exactly when the descriptor fits the
    /// payload and arrow accepts the assembled array.
    pub fn into_arrow_array(self, type_info: &ArrowTypeInfo) -> (r: Result<
        arrow::array::ArrayData,
        NodeError,
    >)
        ensures
            self.bytes().len() == 0 ==> r is Ok,
            self.bytes().len() > 0 ==> (r is Ok) == arrow_tree_accepts(
                type_info@,
                self.bytes(),
            ),
            (r is Ok && self.bytes().len() > 0) ==> ti_fits(type_info@, self.bytes().len()),
    {
        match self {
            RawData::Empty => {
                let dt = to_arrow_data_type(&type_info.data_type);
                Ok(array_data_new_empty(&dt))
            },
            RawData::Vec(data) => {
                let raw_buffer = buffer_from_vec(data);
                buffer_into_arrow_array(&raw_buffer, type_info)
            },
            RawData::SharedMemory(raw_buffer) => buffer_into_arrow_array(
                &raw_buffer,
                type_info,
            ),
        }
    }
}

} // verus!
