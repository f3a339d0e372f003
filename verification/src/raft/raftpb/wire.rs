//! The sizes of messages in protobuf's wire format, computed by the
//! `protobuf` crate.
//!
//! An entry is encoded as a protobuf message with the fields `entry_type`
//! (number 1, an enum), `term` (2, uint64), `index` (3, uint64) and `data`
//! (4, bytes); a field that holds its default value is left out.
use vstd::prelude::*;
use crate::raft::raftpb::raft::{ConfChange, Entry, EntryView};

verus! {

/// The number of bytes of the varint encoding of `v`: one per started group
/// of seven bits, and one for zero.
pub open spec fn varint_len(v: nat) -> nat
    decreases v,
{
    if v < 128 {
        1
    } else {
        1 + varint_len(v / 128)
    }
}

/// The size of the tag of field `field`: the varint of the field number
/// shifted left by three bits, with a wire type in those bits. protobuf sizes
/// it with wire type 1; the wire type never changes the size.
pub open spec fn tag_len(field: nat) -> nat {
    varint_len(field * 8 + 1)
}

/// The largest field number that protobuf accepts.
pub const FIELD_NUMBER_MAX: u32 = 0x1fffffff;

/// protobuf's `rt::bytes_size`: the size of a bytes field, that is its tag,
/// the varint of the length, and the bytes. The sum is a `u32`; the length
/// is kept small enough for it to fit.
pub assume_specification[ protobuf::rt::bytes_size ](field_number: u32, bytes: &[u8]) -> (r: u32)
    requires
        1 <= field_number <= FIELD_NUMBER_MAX,
        bytes@.len() <= u32::MAX - 15,
    ensures
        r == tag_len(field_number as nat) + varint_len(bytes@.len()) + bytes@.len(),
;

/// The size of a varint field: protobuf's `rt::value_size` with the varint
/// wire type, that is the tag and the varint of the value.
#[verifier::external_body]
fn uint64_field_size(field_number: u32, value: u64) -> (r: u32)
    requires
        1 <= field_number <= FIELD_NUMBER_MAX,
    ensures
        r == tag_len(field_number as nat) + varint_len(value as nat),
{
    protobuf::rt::value_size(field_number, value, protobuf::wire_format::WireType::WireTypeVarint)
}

/// The largest payload whose size the encoding can give.
pub open spec fn max_data_len() -> nat {
    (u32::MAX - 15) as nat
}

/// The size of an encoded entry.
pub open spec fn entry_size(e: EntryView) -> nat {
    (if e.entry_type.number() != 0 {
        tag_len(1) + varint_len(e.entry_type.number() as nat)
    } else {
        0
    }) + (if e.term != 0 {
        tag_len(2) + varint_len(e.term as nat)
    } else {
        0
    }) + (if e.index != 0 {
        tag_len(3) + varint_len(e.index as nat)
    } else {
        0
    }) + (if e.data.len() != 0 {
        tag_len(4) + varint_len(e.data.len()) + e.data.len()
    } else {
        0
    })
}

/// The varint encoding of `v`: groups of seven bits, least significant
/// first, each but the last with its high bit set.
pub open spec fn varint_bytes(v: nat) -> Seq<u8>
    decreases v,
{
    if v < 128 {
        seq![v as u8]
    } else {
        seq![(v % 128 + 128) as u8] + varint_bytes(v / 128)
    }
}

/// The encoding of a varint field: the tag of `field` with wire type 0, then
/// the value.
pub open spec fn varint_field(field: nat, v: nat) -> Seq<u8> {
    varint_bytes(field * 8) + varint_bytes(v)
}

/// The encoding of a bytes field: the tag of `field` with wire type 2, the
/// length, then the bytes.
pub open spec fn bytes_field(field: nat, b: Seq<u8>) -> Seq<u8> {
    varint_bytes(field * 8 + 2) + varint_bytes(b.len()) + b
}

/// protobuf's `CodedOutputStream::write_uint64`, on a stream over `buf`
/// that is flushed after it: appends the encoding of a uint64 field. Writing
/// to a vector never fails.
#[verifier::external_body]
fn write_uint64_field(buf: &mut Vec<u8>, field_number: u32, value: u64)
    requires
        1 <= field_number <= FIELD_NUMBER_MAX,
    ensures
        final(buf)@ == old(buf)@ + varint_field(field_number as nat, value as nat),
{
    let mut os = protobuf::CodedOutputStream::vec(buf);
    os.write_uint64(field_number, value).unwrap();
    os.flush().unwrap();
}

/// protobuf's `CodedOutputStream::write_bytes`, on a stream over `buf` that
/// is flushed after it: appends the encoding of a bytes field. Its length is
/// written as a `u32`, so it must fit in one.
#[verifier::external_body]
fn write_bytes_field(buf: &mut Vec<u8>, field_number: u32, bytes: &[u8])
    requires
        1 <= field_number <= FIELD_NUMBER_MAX,
        bytes@.len() <= u32::MAX,
    ensures
        final(buf)@ == old(buf)@ + bytes_field(field_number as nat, bytes@),
{
    let mut os = protobuf::CodedOutputStream::vec(buf);
    os.write_bytes(field_number, bytes).unwrap();
    os.flush().unwrap();
}

/// The encoding of a configuration change: the fields `id` (number 1),
/// `field_type` (2), `node_id` (3) and `context` (4), in that order, each
/// left out where it holds its default value.
pub open spec fn conf_change_bytes(id: u64, change_type: u64, node_id: u64, context: Seq<u8>) -> Seq<u8> {
    (if id != 0 {
        varint_field(1, id as nat)
    } else {
        Seq::empty()
    }) + (if change_type != 0 {
        varint_field(2, change_type as nat)
    } else {
        Seq::empty()
    }) + (if node_id != 0 {
        varint_field(3, node_id as nat)
    } else {
        Seq::empty()
    }) + (if context.len() != 0 {
        bytes_field(4, context)
    } else {
        Seq::empty()
    })
}

/// The encoding of `cc`.
pub fn encode_conf_change(cc: &ConfChange) -> (r: Vec<u8>)
    requires
        cc.context@.len() <= u32::MAX,
    ensures
        r@ == conf_change_bytes(cc.id, cc.field_type.number(), cc.node_id, cc.context@),
{
    let mut buf: Vec<u8> = Vec::new();
    if cc.id != 0 {
        write_uint64_field(&mut buf, 1, cc.id);
    }
    let ghost a = buf@;
    let t = cc.field_type.value();
    if t != 0 {
        write_uint64_field(&mut buf, 2, t);
    }
    let ghost b = buf@;
    if cc.node_id != 0 {
        write_uint64_field(&mut buf, 3, cc.node_id);
    }
    let ghost c = buf@;
    if cc.context.len() != 0 {
        write_bytes_field(&mut buf, 4, cc.context.as_slice());
    }
    proof {
        let e = Seq::<u8>::empty();
        assert(a =~= (if cc.id != 0 { varint_field(1, cc.id as nat) } else { e }));
        assert(buf@ =~= conf_change_bytes(cc.id, cc.field_type.number(), cc.node_id, cc.context@));
    }
    buf
}

/// The size of the encoding of `e`.
pub fn size_of_entry(e: &Entry) -> (r: u64)
    requires
        e.data@.len() <= max_data_len(),
    ensures
        r == entry_size(e@),
{
    let mut size: u64 = 0;
    let t = e.entry_type.value();
    if t != 0 {
        size = size + uint64_field_size(1, t) as u64;
    }
    if e.term != 0 {
        size = size + uint64_field_size(2, e.term) as u64;
    }
    if e.index != 0 {
        size = size + uint64_field_size(3, e.index) as u64;
    }
    if e.data.len() != 0 {
        size = size + protobuf::rt::bytes_size(4, e.data.as_slice()) as u64;
    }
    size
}

} // verus!
