//! Scalars in the snapshot format: integers as their bytes in memory, in the
//! byte order of the machine (`vstd::endian::endianness`), `bool` as one byte,
//! and `usize` as a `u32` so that snapshots are the same size on every
//! platform.
use vstd::bytes::*;
use vstd::endian::{endianness, Endian};
use vstd::prelude::*;
use vstd::string::*;
use crate::colors::{upper_hex_digit, upper_hex_digit_str};

use crate::snapshot::{
    lemma_append, Deserialize, Deserializer, Error, PodBytes, ReadUninit, Result, Serialize,
    SerializeMut, Serializer, WireFormat, WriteUninit,
};

verus! {

/// The bytes `le`, given in little-endian order, in the byte order of the
/// machine: as they are on a little-endian machine, reversed on a big-endian
/// one.
pub open spec fn native_order(le: Seq<u8>) -> Seq<u8> {
    match endianness() {
        Endian::Little => le,
        Endian::Big => le.reverse(),
    }
}

/// Putting bytes in the machine's order twice gives them back, and keeps
/// their number.
pub proof fn lemma_native_order(s: Seq<u8>)
    ensures
        native_order(s).len() == s.len(),
        native_order(native_order(s)) == s,
{
    assert(s.reverse().reverse() =~= s);
}

/// The bytes of `x` in memory.
pub open spec fn ne_u16(x: u16) -> Seq<u8> {
    native_order(spec_u16_to_le_bytes(x))
}

/// The `u16` whose bytes in memory are `b`.
pub open spec fn from_ne_u16(b: Seq<u8>) -> u16 {
    spec_u16_from_le_bytes(native_order(b))
}

/// The bytes of `x` in memory.
pub open spec fn ne_u32(x: u32) -> Seq<u8> {
    native_order(spec_u32_to_le_bytes(x))
}

/// The `u32` whose bytes in memory are `b`.
pub open spec fn from_ne_u32(b: Seq<u8>) -> u32 {
    spec_u32_from_le_bytes(native_order(b))
}

/// The bytes of `x` in memory.
pub open spec fn ne_u64(x: u64) -> Seq<u8> {
    native_order(spec_u64_to_le_bytes(x))
}

/// The `u64` whose bytes in memory are `b`.
pub open spec fn from_ne_u64(b: Seq<u8>) -> u64 {
    spec_u64_from_le_bytes(native_order(b))
}

/// A `u16` and its two bytes in memory determine each other.
pub proof fn lemma_ne_u16()
    ensures
        forall|x: u16|
            {
                &&& #[trigger] ne_u16(x).len() == 2
                &&& from_ne_u16(ne_u16(x)) == x
            },
        forall|b: Seq<u8>| b.len() == 2 ==> #[trigger] ne_u16(from_ne_u16(b)) == b,
{
    lemma_auto_spec_u16_to_from_le_bytes();
    assert forall|x: u16| #[trigger] ne_u16(x).len() == 2 && from_ne_u16(ne_u16(x)) == x by {
        lemma_native_order(spec_u16_to_le_bytes(x));
    }
    assert forall|b: Seq<u8>| b.len() == 2 implies #[trigger] ne_u16(from_ne_u16(b)) == b by {
        lemma_native_order(b);
        lemma_native_order(spec_u16_to_le_bytes(from_ne_u16(b)));
    }
}

/// A `u32` and its four bytes in memory determine each other.
pub proof fn lemma_ne_u32()
    ensures
        forall|x: u32|
            {
                &&& #[trigger] ne_u32(x).len() == 4
                &&& from_ne_u32(ne_u32(x)) == x
            },
        forall|b: Seq<u8>| b.len() == 4 ==> #[trigger] ne_u32(from_ne_u32(b)) == b,
{
    lemma_auto_spec_u32_to_from_le_bytes();
    assert forall|x: u32| #[trigger] ne_u32(x).len() == 4 && from_ne_u32(ne_u32(x)) == x by {
        lemma_native_order(spec_u32_to_le_bytes(x));
    }
    assert forall|b: Seq<u8>| b.len() == 4 implies #[trigger] ne_u32(from_ne_u32(b)) == b by {
        lemma_native_order(b);
        lemma_native_order(spec_u32_to_le_bytes(from_ne_u32(b)));
    }
}

/// A `u64` and its eight bytes in memory determine each other.
pub proof fn lemma_ne_u64()
    ensures
        forall|x: u64|
            {
                &&& #[trigger] ne_u64(x).len() == 8
                &&& from_ne_u64(ne_u64(x)) == x
            },
        forall|b: Seq<u8>| b.len() == 8 ==> #[trigger] ne_u64(from_ne_u64(b)) == b,
{
    lemma_auto_spec_u64_to_from_le_bytes();
    assert forall|x: u64| #[trigger] ne_u64(x).len() == 8 && from_ne_u64(ne_u64(x)) == x by {
        lemma_native_order(spec_u64_to_le_bytes(x));
    }
    assert forall|b: Seq<u8>| b.len() == 8 implies #[trigger] ne_u64(from_ne_u64(b)) == b by {
        lemma_native_order(b);
        lemma_native_order(spec_u64_to_le_bytes(from_ne_u64(b)));
    }
}

/// `u64::to_ne_bytes` of std: the memory representation of `x`, in the byte
/// order of the machine: its little-endian bytes on a little-endian machine,
/// reversed on a big-endian one.
#[verifier::external_body]
fn u64_to_ne_bytes(x: u64) -> (r: [u8; 8])
    ensures
        r@ == native_order(spec_u64_to_le_bytes(x)),
{
    x.to_ne_bytes()
}

/// Whether the machine is little-endian.
fn machine_is_little_endian() -> (b: bool)
    ensures
        b == (endianness() == Endian::Little),
{
    let one = u64_to_ne_bytes(1);
    proof {
        spec_u64_to_le_bytes_to_open(1);
        assert((1u64 & 0xff) as u8 == 1u8) by (bit_vector);
        assert(((1u64 >> 56u64) & 0xff) as u8 == 0u8) by (bit_vector);
    }
    one[0] == 1
}

/// `b` in the byte order of the machine, where `b` is in little-endian order,
/// or in little-endian order, where `b` is in the byte order of the machine.
fn to_native_order(b: &[u8]) -> (r: Vec<u8>)
    ensures
        r@ == native_order(b@),
{
    let little = machine_is_little_endian();
    let n = b.len();
    let mut r: Vec<u8> = Vec::new();
    let mut i: usize = 0;
    while i < n
        invariant
            n == b@.len(),
            i <= n,
            r@.len() == i,
            little == (endianness() == Endian::Little),
            forall|j: int| 0 <= j < i ==> #[trigger] r@[j] == native_order(b@)[j],
        decreases n - i,
    {
        let x = if little {
            b[i]
        } else {
            b[n - 1 - i]
        };
        r.push(x);
        i = i + 1;
    }
    proof {
        lemma_native_order(b@);
    }
    assert(r@ =~= native_order(b@));
    r
}

impl WireFormat for u16 {
    type Model = u16;

    open spec fn model(&self) -> u16 {
        *self
    }

    open spec fn spec_encodes(m: u16, bytes: Seq<u8>) -> bool {
        bytes == ne_u16(m)
    }

    open spec fn spec_encodable(m: u16) -> bool {
        true
    }

    open spec fn spec_decode(bytes: Seq<u8>) -> Option<(u16, nat)> {
        if bytes.len() < 2 {
            None
        } else {
            let b = bytes.subrange(0, 2);
            Some((from_ne_u16(b), 2))
        }
    }

    open spec fn spec_faithful() -> bool {
        true
    }

    proof fn lemma_round_trip(m: u16, bytes: Seq<u8>, rest: Seq<u8>) {
        lemma_ne_u16();
        assert((bytes + rest).subrange(0, 2) =~= bytes);
        
    }

    proof fn lemma_decode_bounded(bytes: Seq<u8>) {
    }
}

impl PodBytes for u16 {
    open spec fn spec_pod_size() -> nat {
        2
    }

    open spec fn spec_pod_bytes(m: u16) -> Seq<u8> {
        ne_u16(m)
    }

    fn pod_size() -> (n: usize) {
        2
    }

    fn to_pod_bytes(&self) -> (b: Vec<u8>) {
        to_native_order(u16_to_le_bytes(*self).as_slice())
    }

    fn from_pod_bytes(b: &[u8]) -> (r: Option<Self>) {
        proof {
            assert(b@.subrange(0, 2) =~= b@);
        }
        let le = to_native_order(b);
        Some(u16_from_le_bytes(le.as_slice()))
    }

    proof fn lemma_decode_pod(bytes: Seq<u8>) {
        assert(bytes.len() >= 2 ==> bytes.subrange(0, 2).subrange(0, 2) =~= bytes.subrange(0, 2));
    }

    proof fn lemma_encodes_pod(m: u16, bytes: Seq<u8>) {
        lemma_ne_u16();
    }
}

impl Serialize for u16 {
    fn serialize<W: WriteUninit>(&self, serializer: &mut Serializer<W>) -> (r: Result<()>) {
        let ghost before = serializer.written();
        let r = serializer.serialize_pod(self);
        proof {
            lemma_append(before, <u16 as PodBytes>::spec_pod_bytes(*self));
            <u16 as PodBytes>::lemma_encodes_pod(*self, <u16 as PodBytes>::spec_pod_bytes(*self));
        }
        r
    }
}

impl SerializeMut for u16 {
    fn serialize_mut<W: WriteUninit>(&mut self, serializer: &mut Serializer<W>) -> (r: Result<()>) {
        let ghost before = serializer.written();
        let v: u16 = *self;
        let r = serializer.serialize_pod(&v);
        proof {
            lemma_append(before, <u16 as PodBytes>::spec_pod_bytes(v));
            <u16 as PodBytes>::lemma_encodes_pod(v, <u16 as PodBytes>::spec_pod_bytes(v));
        }
        r
    }
}

impl Deserialize for u16 {
    fn deserialize<R: ReadUninit>(deserializer: &mut Deserializer<R>) -> (r: Result<Self>) {
        deserializer.deserialize_pod::<u16>()
    }
}

impl WireFormat for u32 {
    type Model = u32;

    open spec fn model(&self) -> u32 {
        *self
    }

    open spec fn spec_encodes(m: u32, bytes: Seq<u8>) -> bool {
        bytes == ne_u32(m)
    }

    open spec fn spec_encodable(m: u32) -> bool {
        true
    }

    open spec fn spec_decode(bytes: Seq<u8>) -> Option<(u32, nat)> {
        if bytes.len() < 4 {
            None
        } else {
            let b = bytes.subrange(0, 4);
            Some((from_ne_u32(b), 4))
        }
    }

    open spec fn spec_faithful() -> bool {
        true
    }

    proof fn lemma_round_trip(m: u32, bytes: Seq<u8>, rest: Seq<u8>) {
        lemma_ne_u32();
        assert((bytes + rest).subrange(0, 4) =~= bytes);
        
    }

    proof fn lemma_decode_bounded(bytes: Seq<u8>) {
    }
}

impl PodBytes for u32 {
    open spec fn spec_pod_size() -> nat {
        4
    }

    open spec fn spec_pod_bytes(m: u32) -> Seq<u8> {
        ne_u32(m)
    }

    fn pod_size() -> (n: usize) {
        4
    }

    fn to_pod_bytes(&self) -> (b: Vec<u8>) {
        to_native_order(u32_to_le_bytes(*self).as_slice())
    }

    fn from_pod_bytes(b: &[u8]) -> (r: Option<Self>) {
        proof {
            assert(b@.subrange(0, 4) =~= b@);
        }
        let le = to_native_order(b);
        Some(u32_from_le_bytes(le.as_slice()))
    }

    proof fn lemma_decode_pod(bytes: Seq<u8>) {
        assert(bytes.len() >= 4 ==> bytes.subrange(0, 4).subrange(0, 4) =~= bytes.subrange(0, 4));
    }

    proof fn lemma_encodes_pod(m: u32, bytes: Seq<u8>) {
        lemma_ne_u32();
    }
}

impl Serialize for u32 {
    fn serialize<W: WriteUninit>(&self, serializer: &mut Serializer<W>) -> (r: Result<()>) {
        let ghost before = serializer.written();
        let r = serializer.serialize_pod(self);
        proof {
            lemma_append(before, <u32 as PodBytes>::spec_pod_bytes(*self));
            <u32 as PodBytes>::lemma_encodes_pod(*self, <u32 as PodBytes>::spec_pod_bytes(*self));
        }
        r
    }
}

impl SerializeMut for u32 {
    fn serialize_mut<W: WriteUninit>(&mut self, serializer: &mut Serializer<W>) -> (r: Result<()>) {
        let ghost before = serializer.written();
        let v: u32 = *self;
        let r = serializer.serialize_pod(&v);
        proof {
            lemma_append(before, <u32 as PodBytes>::spec_pod_bytes(v));
            <u32 as PodBytes>::lemma_encodes_pod(v, <u32 as PodBytes>::spec_pod_bytes(v));
        }
        r
    }
}

impl Deserialize for u32 {
    fn deserialize<R: ReadUninit>(deserializer: &mut Deserializer<R>) -> (r: Result<Self>) {
        deserializer.deserialize_pod::<u32>()
    }
}

impl WireFormat for u64 {
    type Model = u64;

    open spec fn model(&self) -> u64 {
        *self
    }

    open spec fn spec_encodes(m: u64, bytes: Seq<u8>) -> bool {
        bytes == ne_u64(m)
    }

    open spec fn spec_encodable(m: u64) -> bool {
        true
    }

    open spec fn spec_decode(bytes: Seq<u8>) -> Option<(u64, nat)> {
        if bytes.len() < 8 {
            None
        } else {
            let b = bytes.subrange(0, 8);
            Some((from_ne_u64(b), 8))
        }
    }

    open spec fn spec_faithful() -> bool {
        true
    }

    proof fn lemma_round_trip(m: u64, bytes: Seq<u8>, rest: Seq<u8>) {
        lemma_ne_u64();
        assert((bytes + rest).subrange(0, 8) =~= bytes);
        
    }

    proof fn lemma_decode_bounded(bytes: Seq<u8>) {
    }
}

impl PodBytes for u64 {
    open spec fn spec_pod_size() -> nat {
        8
    }

    open spec fn spec_pod_bytes(m: u64) -> Seq<u8> {
        ne_u64(m)
    }

    fn pod_size() -> (n: usize) {
        8
    }

    fn to_pod_bytes(&self) -> (b: Vec<u8>) {
        to_native_order(u64_to_le_bytes(*self).as_slice())
    }

    fn from_pod_bytes(b: &[u8]) -> (r: Option<Self>) {
        proof {
            assert(b@.subrange(0, 8) =~= b@);
        }
        let le = to_native_order(b);
        Some(u64_from_le_bytes(le.as_slice()))
    }

    proof fn lemma_decode_pod(bytes: Seq<u8>) {
        assert(bytes.len() >= 8 ==> bytes.subrange(0, 8).subrange(0, 8) =~= bytes.subrange(0, 8));
    }

    proof fn lemma_encodes_pod(m: u64, bytes: Seq<u8>) {
        lemma_ne_u64();
    }
}

impl Serialize for u64 {
    fn serialize<W: WriteUninit>(&self, serializer: &mut Serializer<W>) -> (r: Result<()>) {
        let ghost before = serializer.written();
        let r = serializer.serialize_pod(self);
        proof {
            lemma_append(before, <u64 as PodBytes>::spec_pod_bytes(*self));
            <u64 as PodBytes>::lemma_encodes_pod(*self, <u64 as PodBytes>::spec_pod_bytes(*self));
        }
        r
    }
}

impl SerializeMut for u64 {
    fn serialize_mut<W: WriteUninit>(&mut self, serializer: &mut Serializer<W>) -> (r: Result<()>) {
        let ghost before = serializer.written();
        let v: u64 = *self;
        let r = serializer.serialize_pod(&v);
        proof {
            lemma_append(before, <u64 as PodBytes>::spec_pod_bytes(v));
            <u64 as PodBytes>::lemma_encodes_pod(v, <u64 as PodBytes>::spec_pod_bytes(v));
        }
        r
    }
}

impl Deserialize for u64 {
    fn deserialize<R: ReadUninit>(deserializer: &mut Deserializer<R>) -> (r: Result<Self>) {
        deserializer.deserialize_pod::<u64>()
    }
}

impl WireFormat for i16 {
    type Model = i16;

    open spec fn model(&self) -> i16 {
        *self
    }

    open spec fn spec_encodes(m: i16, bytes: Seq<u8>) -> bool {
        bytes == ne_u16(m as u16)
    }

    open spec fn spec_encodable(m: i16) -> bool {
        true
    }

    open spec fn spec_decode(bytes: Seq<u8>) -> Option<(i16, nat)> {
        if bytes.len() < 2 {
            None
        } else {
            let b = bytes.subrange(0, 2);
            Some((from_ne_u16(b) as i16, 2))
        }
    }

    open spec fn spec_faithful() -> bool {
        true
    }

    proof fn lemma_round_trip(m: i16, bytes: Seq<u8>, rest: Seq<u8>) {
        lemma_ne_u16();
        assert((bytes + rest).subrange(0, 2) =~= bytes);
        assert((m as u16) as i16 == m) by (bit_vector);
    }

    proof fn lemma_decode_bounded(bytes: Seq<u8>) {
    }
}

impl PodBytes for i16 {
    open spec fn spec_pod_size() -> nat {
        2
    }

    open spec fn spec_pod_bytes(m: i16) -> Seq<u8> {
        ne_u16(m as u16)
    }

    fn pod_size() -> (n: usize) {
        2
    }

    fn to_pod_bytes(&self) -> (b: Vec<u8>) {
        to_native_order(u16_to_le_bytes(*self as u16).as_slice())
    }

    fn from_pod_bytes(b: &[u8]) -> (r: Option<Self>) {
        proof {
            assert(b@.subrange(0, 2) =~= b@);
        }
        let le = to_native_order(b);
        Some(u16_from_le_bytes(le.as_slice()) as i16)
    }

    proof fn lemma_decode_pod(bytes: Seq<u8>) {
        assert(bytes.len() >= 2 ==> bytes.subrange(0, 2).subrange(0, 2) =~= bytes.subrange(0, 2));
    }

    proof fn lemma_encodes_pod(m: i16, bytes: Seq<u8>) {
        lemma_ne_u16();
    }
}

impl Serialize for i16 {
    fn serialize<W: WriteUninit>(&self, serializer: &mut Serializer<W>) -> (r: Result<()>) {
        let ghost before = serializer.written();
        let r = serializer.serialize_pod(self);
        proof {
            lemma_append(before, <i16 as PodBytes>::spec_pod_bytes(*self));
            <i16 as PodBytes>::lemma_encodes_pod(*self, <i16 as PodBytes>::spec_pod_bytes(*self));
        }
        r
    }
}

impl SerializeMut for i16 {
    fn serialize_mut<W: WriteUninit>(&mut self, serializer: &mut Serializer<W>) -> (r: Result<()>) {
        let ghost before = serializer.written();
        let v: i16 = *self;
        let r = serializer.serialize_pod(&v);
        proof {
            lemma_append(before, <i16 as PodBytes>::spec_pod_bytes(v));
            <i16 as PodBytes>::lemma_encodes_pod(v, <i16 as PodBytes>::spec_pod_bytes(v));
        }
        r
    }
}

impl Deserialize for i16 {
    fn deserialize<R: ReadUninit>(deserializer: &mut Deserializer<R>) -> (r: Result<Self>) {
        deserializer.deserialize_pod::<i16>()
    }
}

impl WireFormat for i32 {
    type Model = i32;

    open spec fn model(&self) -> i32 {
        *self
    }

    open spec fn spec_encodes(m: i32, bytes: Seq<u8>) -> bool {
        bytes == ne_u32(m as u32)
    }

    open spec fn spec_encodable(m: i32) -> bool {
        true
    }

    open spec fn spec_decode(bytes: Seq<u8>) -> Option<(i32, nat)> {
        if bytes.len() < 4 {
            None
        } else {
            let b = bytes.subrange(0, 4);
            Some((from_ne_u32(b) as i32, 4))
        }
    }

    open spec fn spec_faithful() -> bool {
        true
    }

    proof fn lemma_round_trip(m: i32, bytes: Seq<u8>, rest: Seq<u8>) {
        lemma_ne_u32();
        assert((bytes + rest).subrange(0, 4) =~= bytes);
        assert((m as u32) as i32 == m) by (bit_vector);
    }

    proof fn lemma_decode_bounded(bytes: Seq<u8>) {
    }
}

impl PodBytes for i32 {
    open spec fn spec_pod_size() -> nat {
        4
    }

    open spec fn spec_pod_bytes(m: i32) -> Seq<u8> {
        ne_u32(m as u32)
    }

    fn pod_size() -> (n: usize) {
        4
    }

    fn to_pod_bytes(&self) -> (b: Vec<u8>) {
        to_native_order(u32_to_le_bytes(*self as u32).as_slice())
    }

    fn from_pod_bytes(b: &[u8]) -> (r: Option<Self>) {
        proof {
            assert(b@.subrange(0, 4) =~= b@);
        }
        let le = to_native_order(b);
        Some(u32_from_le_bytes(le.as_slice()) as i32)
    }

    proof fn lemma_decode_pod(bytes: Seq<u8>) {
        assert(bytes.len() >= 4 ==> bytes.subrange(0, 4).subrange(0, 4) =~= bytes.subrange(0, 4));
    }

    proof fn lemma_encodes_pod(m: i32, bytes: Seq<u8>) {
        lemma_ne_u32();
    }
}

impl Serialize for i32 {
    fn serialize<W: WriteUninit>(&self, serializer: &mut Serializer<W>) -> (r: Result<()>) {
        let ghost before = serializer.written();
        let r = serializer.serialize_pod(self);
        proof {
            lemma_append(before, <i32 as PodBytes>::spec_pod_bytes(*self));
            <i32 as PodBytes>::lemma_encodes_pod(*self, <i32 as PodBytes>::spec_pod_bytes(*self));
        }
        r
    }
}

impl SerializeMut for i32 {
    fn serialize_mut<W: WriteUninit>(&mut self, serializer: &mut Serializer<W>) -> (r: Result<()>) {
        let ghost before = serializer.written();
        let v: i32 = *self;
        let r = serializer.serialize_pod(&v);
        proof {
            lemma_append(before, <i32 as PodBytes>::spec_pod_bytes(v));
            <i32 as PodBytes>::lemma_encodes_pod(v, <i32 as PodBytes>::spec_pod_bytes(v));
        }
        r
    }
}

impl Deserialize for i32 {
    fn deserialize<R: ReadUninit>(deserializer: &mut Deserializer<R>) -> (r: Result<Self>) {
        deserializer.deserialize_pod::<i32>()
    }
}

impl WireFormat for i64 {
    type Model = i64;

    open spec fn model(&self) -> i64 {
        *self
    }

    open spec fn spec_encodes(m: i64, bytes: Seq<u8>) -> bool {
        bytes == ne_u64(m as u64)
    }

    open spec fn spec_encodable(m: i64) -> bool {
        true
    }

    open spec fn spec_decode(bytes: Seq<u8>) -> Option<(i64, nat)> {
        if bytes.len() < 8 {
            None
        } else {
            let b = bytes.subrange(0, 8);
            Some((from_ne_u64(b) as i64, 8))
        }
    }

    open spec fn spec_faithful() -> bool {
        true
    }

    proof fn lemma_round_trip(m: i64, bytes: Seq<u8>, rest: Seq<u8>) {
        lemma_ne_u64();
        assert((bytes + rest).subrange(0, 8) =~= bytes);
        assert((m as u64) as i64 == m) by (bit_vector);
    }

    proof fn lemma_decode_bounded(bytes: Seq<u8>) {
    }
}

impl PodBytes for i64 {
    open spec fn spec_pod_size() -> nat {
        8
    }

    open spec fn spec_pod_bytes(m: i64) -> Seq<u8> {
        ne_u64(m as u64)
    }

    fn pod_size() -> (n: usize) {
        8
    }

    fn to_pod_bytes(&self) -> (b: Vec<u8>) {
        to_native_order(u64_to_le_bytes(*self as u64).as_slice())
    }

    fn from_pod_bytes(b: &[u8]) -> (r: Option<Self>) {
        proof {
            assert(b@.subrange(0, 8) =~= b@);
        }
        let le = to_native_order(b);
        Some(u64_from_le_bytes(le.as_slice()) as i64)
    }

    proof fn lemma_decode_pod(bytes: Seq<u8>) {
        assert(bytes.len() >= 8 ==> bytes.subrange(0, 8).subrange(0, 8) =~= bytes.subrange(0, 8));
    }

    proof fn lemma_encodes_pod(m: i64, bytes: Seq<u8>) {
        lemma_ne_u64();
    }
}

impl Serialize for i64 {
    fn serialize<W: WriteUninit>(&self, serializer: &mut Serializer<W>) -> (r: Result<()>) {
        let ghost before = serializer.written();
        let r = serializer.serialize_pod(self);
        proof {
            lemma_append(before, <i64 as PodBytes>::spec_pod_bytes(*self));
            <i64 as PodBytes>::lemma_encodes_pod(*self, <i64 as PodBytes>::spec_pod_bytes(*self));
        }
        r
    }
}

impl SerializeMut for i64 {
    fn serialize_mut<W: WriteUninit>(&mut self, serializer: &mut Serializer<W>) -> (r: Result<()>) {
        let ghost before = serializer.written();
        let v: i64 = *self;
        let r = serializer.serialize_pod(&v);
        proof {
            lemma_append(before, <i64 as PodBytes>::spec_pod_bytes(v));
            <i64 as PodBytes>::lemma_encodes_pod(v, <i64 as PodBytes>::spec_pod_bytes(v));
        }
        r
    }
}

impl Deserialize for i64 {
    fn deserialize<R: ReadUninit>(deserializer: &mut Deserializer<R>) -> (r: Result<Self>) {
        deserializer.deserialize_pod::<i64>()
    }
}


impl WireFormat for u8 {
    type Model = u8;

    open spec fn model(&self) -> u8 {
        *self
    }

    open spec fn spec_encodes(m: u8, bytes: Seq<u8>) -> bool {
        bytes == seq![m]
    }

    open spec fn spec_encodable(m: u8) -> bool {
        true
    }

    open spec fn spec_decode(bytes: Seq<u8>) -> Option<(u8, nat)> {
        if bytes.len() < 1 {
            None
        } else {
            Some((bytes[0], 1))
        }
    }

    open spec fn spec_faithful() -> bool {
        true
    }

    proof fn lemma_round_trip(m: u8, bytes: Seq<u8>, rest: Seq<u8>) {
        assert((bytes + rest)[0] == bytes[0]);
        
    }

    proof fn lemma_decode_bounded(bytes: Seq<u8>) {
    }
}

impl PodBytes for u8 {
    open spec fn spec_pod_size() -> nat {
        1
    }

    open spec fn spec_pod_bytes(m: u8) -> Seq<u8> {
        seq![m]
    }

    fn pod_size() -> (n: usize) {
        1
    }

    fn to_pod_bytes(&self) -> (b: Vec<u8>) {
        let v = vec![*self];
        proof {
            assert(v@ =~= seq![*self]);
        }
        v
    }

    fn from_pod_bytes(b: &[u8]) -> (r: Option<Self>) {
        Some(b[0])
    }

    proof fn lemma_decode_pod(bytes: Seq<u8>) {
    }

    proof fn lemma_encodes_pod(m: u8, bytes: Seq<u8>) {
    }
}

impl Serialize for u8 {
    fn serialize<W: WriteUninit>(&self, serializer: &mut Serializer<W>) -> (r: Result<()>) {
        let ghost before = serializer.written();
        let r = serializer.serialize_pod(self);
        proof {
            lemma_append(before, <u8 as PodBytes>::spec_pod_bytes(*self));
            <u8 as PodBytes>::lemma_encodes_pod(*self, <u8 as PodBytes>::spec_pod_bytes(*self));
        }
        r
    }
}

impl SerializeMut for u8 {
    fn serialize_mut<W: WriteUninit>(&mut self, serializer: &mut Serializer<W>) -> (r: Result<()>) {
        let ghost before = serializer.written();
        let v: u8 = *self;
        let r = serializer.serialize_pod(&v);
        proof {
            lemma_append(before, <u8 as PodBytes>::spec_pod_bytes(v));
            <u8 as PodBytes>::lemma_encodes_pod(v, <u8 as PodBytes>::spec_pod_bytes(v));
        }
        r
    }
}

impl Deserialize for u8 {
    fn deserialize<R: ReadUninit>(deserializer: &mut Deserializer<R>) -> (r: Result<Self>) {
        deserializer.deserialize_pod::<u8>()
    }
}

impl WireFormat for i8 {
    type Model = i8;

    open spec fn model(&self) -> i8 {
        *self
    }

    open spec fn spec_encodes(m: i8, bytes: Seq<u8>) -> bool {
        bytes == seq![m as u8]
    }

    open spec fn spec_encodable(m: i8) -> bool {
        true
    }

    open spec fn spec_decode(bytes: Seq<u8>) -> Option<(i8, nat)> {
        if bytes.len() < 1 {
            None
        } else {
            Some((bytes[0] as i8, 1))
        }
    }

    open spec fn spec_faithful() -> bool {
        true
    }

    proof fn lemma_round_trip(m: i8, bytes: Seq<u8>, rest: Seq<u8>) {
        assert((bytes + rest)[0] == bytes[0]);
        assert((m as u8) as i8 == m) by (bit_vector);
    }

    proof fn lemma_decode_bounded(bytes: Seq<u8>) {
    }
}

impl PodBytes for i8 {
    open spec fn spec_pod_size() -> nat {
        1
    }

    open spec fn spec_pod_bytes(m: i8) -> Seq<u8> {
        seq![m as u8]
    }

    fn pod_size() -> (n: usize) {
        1
    }

    fn to_pod_bytes(&self) -> (b: Vec<u8>) {
        let v = vec![*self as u8];
        proof {
            assert(v@ =~= seq![*self as u8]);
        }
        v
    }

    fn from_pod_bytes(b: &[u8]) -> (r: Option<Self>) {
        Some(b[0] as i8)
    }

    proof fn lemma_decode_pod(bytes: Seq<u8>) {
    }

    proof fn lemma_encodes_pod(m: i8, bytes: Seq<u8>) {
    }
}

impl Serialize for i8 {
    fn serialize<W: WriteUninit>(&self, serializer: &mut Serializer<W>) -> (r: Result<()>) {
        let ghost before = serializer.written();
        let r = serializer.serialize_pod(self);
        proof {
            lemma_append(before, <i8 as PodBytes>::spec_pod_bytes(*self));
            <i8 as PodBytes>::lemma_encodes_pod(*self, <i8 as PodBytes>::spec_pod_bytes(*self));
        }
        r
    }
}

impl SerializeMut for i8 {
    fn serialize_mut<W: WriteUninit>(&mut self, serializer: &mut Serializer<W>) -> (r: Result<()>) {
        let ghost before = serializer.written();
        let v: i8 = *self;
        let r = serializer.serialize_pod(&v);
        proof {
            lemma_append(before, <i8 as PodBytes>::spec_pod_bytes(v));
            <i8 as PodBytes>::lemma_encodes_pod(v, <i8 as PodBytes>::spec_pod_bytes(v));
        }
        r
    }
}

impl Deserialize for i8 {
    fn deserialize<R: ReadUninit>(deserializer: &mut Deserializer<R>) -> (r: Result<Self>) {
        deserializer.deserialize_pod::<i8>()
    }
}

impl WireFormat for bool {
    type Model = bool;

    open spec fn model(&self) -> bool {
        *self
    }

    open spec fn spec_encodes(m: bool, bytes: Seq<u8>) -> bool {
        bytes == seq![if m { 1u8 } else { 0u8 }]
    }

    open spec fn spec_encodable(m: bool) -> bool {
        true
    }

    open spec fn spec_decode(bytes: Seq<u8>) -> Option<(bool, nat)> {
        if bytes.len() < 1 {
            None
        } else {
            if bytes[0] == 0 {
                Some((false, 1))
            } else if bytes[0] == 1 {
                Some((true, 1))
            } else {
                None
            }
        }
    }

    open spec fn spec_faithful() -> bool {
        true
    }

    proof fn lemma_round_trip(m: bool, bytes: Seq<u8>, rest: Seq<u8>) {
        assert((bytes + rest)[0] == bytes[0]);
        
    }

    proof fn lemma_decode_bounded(bytes: Seq<u8>) {
    }
}

impl PodBytes for bool {
    open spec fn spec_pod_size() -> nat {
        1
    }

    open spec fn spec_pod_bytes(m: bool) -> Seq<u8> {
        seq![if m { 1u8 } else { 0u8 }]
    }

    fn pod_size() -> (n: usize) {
        1
    }

    fn to_pod_bytes(&self) -> (b: Vec<u8>) {
        let v = vec![if *self { 1u8 } else { 0u8 }];
        proof {
            assert(v@ =~= seq![if *self { 1u8 } else { 0u8 }]);
        }
        v
    }

    fn from_pod_bytes(b: &[u8]) -> (r: Option<Self>) {
        if b[0] == 0 {
            Some(false)
        } else if b[0] == 1 {
            Some(true)
        } else {
            None
        }
    }

    proof fn lemma_decode_pod(bytes: Seq<u8>) {
    }

    proof fn lemma_encodes_pod(m: bool, bytes: Seq<u8>) {
    }
}

impl Serialize for bool {
    fn serialize<W: WriteUninit>(&self, serializer: &mut Serializer<W>) -> (r: Result<()>) {
        let ghost before = serializer.written();
        let r = serializer.serialize_pod(self);
        proof {
            lemma_append(before, <bool as PodBytes>::spec_pod_bytes(*self));
            <bool as PodBytes>::lemma_encodes_pod(*self, <bool as PodBytes>::spec_pod_bytes(*self));
        }
        r
    }
}

impl SerializeMut for bool {
    fn serialize_mut<W: WriteUninit>(&mut self, serializer: &mut Serializer<W>) -> (r: Result<()>) {
        let ghost before = serializer.written();
        let v: bool = *self;
        let r = serializer.serialize_pod(&v);
        proof {
            lemma_append(before, <bool as PodBytes>::spec_pod_bytes(v));
            <bool as PodBytes>::lemma_encodes_pod(v, <bool as PodBytes>::spec_pod_bytes(v));
        }
        r
    }
}

impl Deserialize for bool {
    fn deserialize<R: ReadUninit>(deserializer: &mut Deserializer<R>) -> (r: Result<Self>) {
        deserializer.deserialize_pod::<bool>()
    }
}

/// `usize` is written as a `u32`, so that snapshots do not depend on the
/// platform; larger values cannot be written.
impl WireFormat for usize {
    type Model = usize;

    open spec fn model(&self) -> usize {
        *self
    }

    open spec fn spec_encodes(m: usize, bytes: Seq<u8>) -> bool {
        m <= u32::MAX && bytes == ne_u32(m as u32)
    }

    open spec fn spec_encodable(m: usize) -> bool {
        m <= u32::MAX
    }

    open spec fn spec_decode(bytes: Seq<u8>) -> Option<(usize, nat)> {
        if bytes.len() < 4 {
            None
        } else {
            Some((from_ne_u32(bytes.subrange(0, 4)) as usize, 4))
        }
    }

    open spec fn spec_faithful() -> bool {
        true
    }

    proof fn lemma_round_trip(m: usize, bytes: Seq<u8>, rest: Seq<u8>) {
        lemma_ne_u32();
        assert((bytes + rest).subrange(0, 4) =~= bytes);
    }

    proof fn lemma_decode_bounded(bytes: Seq<u8>) {
    }
}

/// The decimal digits of `n`, as `Display` writes an unsigned integer.
pub open spec fn decimal(n: nat) -> Seq<char>
    decreases n,
{
    if n < 10 {
        seq![upper_hex_digit(n as u8)]
    } else {
        decimal(n / 10) + seq![upper_hex_digit((n % 10) as u8)]
    }
}

/// Appends the decimal digits of `n` to `s`.
fn append_decimal(s: &mut String, n: usize)
    ensures
        final(s)@ == old(s)@ + decimal(n as nat),
    decreases n,
{
    let ghost before = s@;
    if n >= 10 {
        append_decimal(s, n / 10);
    }
    let digit = upper_hex_digit_str((n % 10) as u8);
    s.append(digit);
    proof {
        if n >= 10 {
            assert(before + decimal((n / 10) as nat) + seq![upper_hex_digit((n % 10) as u8)]
                =~= before + decimal(n as nat));
        } else {
            assert(n % 10 == n);
        }
    }
}

/// The message of the error for a `usize` too large for the format: the value
/// in decimal, then what the conversion to `u32` reports.
pub open spec fn usize_overflow_message(n: usize) -> Seq<char> {
    "Serializer::serialize_usize("@ + decimal(n as nat) + ") overflowed max length\n"@
        + "out of range integral type conversion attempted"@
}

impl Serialize for usize {
    /// A value above `u32::MAX` is refused with `Error::Serialize`, and
    /// nothing is written.
    fn serialize<W: WriteUninit>(&self, serializer: &mut Serializer<W>) -> (r: Result<()>)
        ensures
            *self > u32::MAX ==> (r matches Err(Error::Serialize(m)) && m@ == usize_overflow_message(
                *self,
            )) && *final(serializer) == *old(serializer),
    {
        if *self > 0xffff_ffffusize {
            let mut m = String::from_str("Serializer::serialize_usize(");
            append_decimal(&mut m, *self);
            m.append(") overflowed max length\n");
            m.append("out of range integral type conversion attempted");
            return Err(Error::Serialize(m));
        }
        let v: u32 = *self as u32;
        let ghost before = serializer.written();
        let r = serializer.serialize_pod(&v);
        proof {
            lemma_append(before, ne_u32(v));
        }
        r
    }
}

impl Deserialize for usize {
    fn deserialize<R: ReadUninit>(deserializer: &mut Deserializer<R>) -> (r: Result<Self>) {
        proof {
            <u32 as PodBytes>::lemma_decode_pod(deserializer.unread());
        }
        let v = deserializer.deserialize_pod::<u32>()?;
        Ok(v as usize)
    }
}

} // verus!
