//! Aligned byte vectors (`aligned_vec::AVec`) in the snapshot format: their
//! length, their alignment, then their bytes.
use aligned_vec::AVec;
use vstd::bytes::*;
use vstd::prelude::*;
use crate::snapshot_scalars::{lemma_ne_u32, ne_u32};

use crate::snapshot::{
    appended, lemma_append, Deserialize, Deserializer, ReadUninit, Result, Serialize,
    Serializer, WireFormat, WriteUninit,
};
use crate::snapshot_seq::lemma_extends_trans;

verus! {

/// A byte vector whose buffer has the default cache-line alignment of
/// `aligned_vec::AVec`.
#[verifier::external_body]
pub struct AlignedBytes {
    inner: AVec<u8>,
}

/// The bytes that an aligned byte vector holds, in order.
pub uninterp spec fn avec_bytes(v: AlignedBytes) -> Seq<u8>;

/// `AVec::new(0)`: an empty vector with the default alignment.
#[verifier::external_body]
fn avec_new() -> (v: AlignedBytes)
    ensures
        avec_bytes(v) == Seq::<u8>::empty(),
{
    AlignedBytes { inner: AVec::new(0) }
}

/// `AVec::len`: the number of bytes held.
#[verifier::external_body]
fn avec_len(v: &AlignedBytes) -> (n: usize)
    ensures
        n == avec_bytes(*v).len(),
{
    v.inner.len()
}

/// `AVec::alignment`: the alignment of the buffer. For the default alignment
/// type it is `CACHELINE_ALIGN`, which the source sets by target to 32, 64,
/// 128 or 256 (the alignment of `u8`, 1, never exceeds it).
#[verifier::external_body]
fn avec_alignment(v: &AlignedBytes) -> (a: usize)
    ensures
        a == 32 || a == 64 || a == 128 || a == 256,
{
    v.inner.alignment()
}

/// `AVec::as_slice`: the bytes held.
#[verifier::external_body]
fn avec_as_slice(v: &AlignedBytes) -> (s: &[u8])
    ensures
        s@ == avec_bytes(*v),
{
    v.inner.as_slice()
}

/// `AVec::extend_from_slice`: appends a copy of `other`.
#[verifier::external_body]
fn avec_extend_from_slice(v: &mut AlignedBytes, other: &[u8])
    ensures
        avec_bytes(*final(v)) == avec_bytes(*old(v)) + other@,
{
    v.inner.extend_from_slice(other)
}

impl AlignedBytes {
    /// A new empty vector.
    pub fn new() -> (v: Self)
        ensures
            avec_bytes(v) == Seq::<u8>::empty(),
    {
        avec_new()
    }

    /// A new vector holding a copy of `bytes`.
    pub fn from_bytes(bytes: &[u8]) -> (v: Self)
        ensures
            avec_bytes(v) == bytes@,
    {
        let mut v = avec_new();
        avec_extend_from_slice(&mut v, bytes);
        proof {
            assert(avec_bytes(v) =~= bytes@);
        }
        v
    }

    /// Appends a copy of `bytes`.
    pub fn extend_from_slice(&mut self, bytes: &[u8])
        ensures
            avec_bytes(*final(self)) == avec_bytes(*old(self)) + bytes@,
    {
        avec_extend_from_slice(self, bytes)
    }

    pub fn len(&self) -> (n: usize)
        ensures
            n == avec_bytes(*self).len(),
    {
        avec_len(self)
    }

    /// The alignment of the buffer: the cache-line alignment of the target,
    /// 32, 64, 128 or 256 bytes.
    pub fn alignment(&self) -> (a: usize)
        ensures
            a == 32 || a == 64 || a == 128 || a == 256,
    {
        avec_alignment(self)
    }

    pub fn as_slice(&self) -> (s: &[u8])
        ensures
            s@ == avec_bytes(*self),
    {
        avec_as_slice(self)
    }
}

/// The four bytes of an alignment of 32, 64, 128 or 256 written as a `u32`.
pub open spec fn cacheline_alignment_bytes(b: Seq<u8>) -> bool {
    ||| b == ne_u32(32)
    ||| b == ne_u32(64)
    ||| b == ne_u32(128)
    ||| b == ne_u32(256)
}

impl WireFormat for AlignedBytes {
    type Model = Seq<u8>;

    open spec fn model(&self) -> Seq<u8> {
        avec_bytes(*self)
    }

    /// The length, the alignment of the buffer (the cache-line alignment of
    /// the target, which the model leaves out), then the bytes.
    open spec fn spec_encodes(m: Seq<u8>, bytes: Seq<u8>) -> bool {
        &&& m.len() <= u32::MAX
        &&& bytes.len() == 8 + m.len()
        &&& bytes.subrange(0, 4) == ne_u32(m.len() as u32)
        &&& cacheline_alignment_bytes(bytes.subrange(4, 8))
        &&& bytes.subrange(8, bytes.len() as int) == m
    }

    open spec fn spec_encodable(m: Seq<u8>) -> bool {
        m.len() <= u32::MAX
    }

    open spec fn spec_decode(bytes: Seq<u8>) -> Option<(Seq<u8>, nat)> {
        match <usize as WireFormat>::spec_decode(bytes) {
            None => None,
            Some((n, _)) => if bytes.len() < 8 + n {
                None
            } else {
                Some((bytes.subrange(8, 8 + n), (8 + n) as nat))
            },
        }
    }

    open spec fn spec_faithful() -> bool {
        true
    }

    proof fn lemma_round_trip(m: Seq<u8>, bytes: Seq<u8>, rest: Seq<u8>) {
        lemma_ne_u32();
        assert((bytes + rest).subrange(0, 4) =~= bytes.subrange(0, 4));
        assert((bytes + rest).subrange(8, 8 + m.len() as int) =~= m);
    }

    proof fn lemma_decode_bounded(bytes: Seq<u8>) {
    }
}

impl Serialize for AlignedBytes {
    fn serialize<W: WriteUninit>(&self, serializer: &mut Serializer<W>) -> (r: Result<()>) {
        let ghost before = serializer.written();
        avec_len(self).serialize(serializer)?;
        let ghost w1 = serializer.written();
        let align = avec_alignment(self);
        align.serialize(serializer)?;
        let ghost w2 = serializer.written();
        let bytes = avec_as_slice(self);
        let r = serializer.serialize_uninit_bytes(bytes);
        proof {
            if r is Ok {
                lemma_ne_u32();
                lemma_append(w2, bytes@);
                lemma_extends_trans(before, w1, w2);
                lemma_extends_trans(before, w2, serializer.written());
                let all = appended(before, serializer.written());
                assert(all.subrange(0, 4) =~= appended(before, w1));
                assert(all.subrange(4, 8) =~= appended(w1, w2));
                assert(appended(w1, w2) == ne_u32(align as u32));
                assert(all.subrange(8, all.len() as int) =~= bytes@);
            }
        }
        r
    }
}

impl Deserialize for AlignedBytes {
    /// The written alignment is read and not used: the result has the default
    /// alignment, which is the only alignment an `AVec<u8>` with the default
    /// alignment type can have.
    fn deserialize<R: ReadUninit>(deserializer: &mut Deserializer<R>) -> (r: Result<Self>) {
        let ghost start = deserializer.unread();
        let len = usize::deserialize(deserializer)?;
        let _align = usize::deserialize(deserializer)?;
        let bytes = deserializer.deserialize_uninit_bytes(len)?;
        proof {
            assert(bytes@ =~= start.subrange(8, 8 + len));
            assert(deserializer.unread() =~= start.subrange(8 + len, start.len() as int));
        }
        let mut v = avec_new();
        avec_extend_from_slice(&mut v, bytes.as_slice());
        proof {
            assert(avec_bytes(v) =~= bytes@);
        }
        Ok(v)
    }
}

} // verus!
