//! Tuples in the snapshot format: their fields, one after another.
use vstd::prelude::*;

use crate::snapshot::{
    appended, Deserialize, Deserializer, ReadUninit, Result, Serialize, Serializer, WireFormat,
    WriteUninit,
};
use crate::snapshot_seq::lemma_extends_trans;

verus! {

/// A field whose encoding lies at `bytes[lo..hi]` decodes from `bytes + rest`
/// at `lo`, whatever follows it.
proof fn lemma_field_round_trip<T: WireFormat>(
    m: T::Model,
    bytes: Seq<u8>,
    rest: Seq<u8>,
    lo: int,
    hi: int,
)
    requires
        T::spec_faithful(),
        0 <= lo <= hi <= bytes.len(),
        T::spec_encodes(m, bytes.subrange(lo, hi)),
    ensures
        T::spec_decode((bytes + rest).subrange(lo, (bytes + rest).len() as int)) == Some(
            (m, (hi - lo) as nat),
        ),
{
    T::lemma_round_trip(m, bytes.subrange(lo, hi), bytes.subrange(hi, bytes.len() as int) + rest);
    assert((bytes + rest).subrange(lo, (bytes + rest).len() as int) =~= bytes.subrange(lo, hi) + (
    bytes.subrange(hi, bytes.len() as int) + rest));
}

impl<T0: WireFormat> WireFormat for (T0,) {
    type Model = (T0::Model,);

    open spec fn model(&self) -> (T0::Model,) {
        (self.0.model(),)
    }

    open spec fn spec_encodes(m: (T0::Model,), bytes: Seq<u8>) -> bool {
        T0::spec_encodes(m.0, bytes)
    }

    open spec fn spec_encodable(m: (T0::Model,)) -> bool {
        T0::spec_encodable(m.0)
    }

    open spec fn spec_decode(bytes: Seq<u8>) -> Option<((T0::Model,), nat)> {
        match T0::spec_decode(bytes.subrange((0) as int, bytes.len() as int)) { None => None, Some((a0, n0)) => if 0 + n0 > bytes.len() { None } else { Some(((a0,), 0 + n0 as nat)) } }
    }

    open spec fn spec_faithful() -> bool {
        T0::spec_faithful()
    }

    proof fn lemma_round_trip(m: (T0::Model,), bytes: Seq<u8>, rest: Seq<u8>) {
        T0::lemma_round_trip(m.0, bytes, rest);
        assert(bytes.subrange(0, bytes.len() as int) =~= bytes);
        assert((bytes + rest).subrange(0, (bytes + rest).len() as int) =~= bytes + rest);
    }

    proof fn lemma_decode_bounded(bytes: Seq<u8>) {
    }
}

impl<T0: Serialize> Serialize for (T0,) {
    fn serialize<W: WriteUninit>(&self, serializer: &mut Serializer<W>) -> (r: Result<()>) {
        let ghost w0 = serializer.written();
        self.0.serialize(serializer)?;
        let ghost w1 = serializer.written();
        proof {
            if T0::spec_faithful() {
                let all = appended(w0, w1);
                let m = self.model();
                assert(all.subrange(0, all.len() as int) =~= appended(w0, w1));
                assert(T0::spec_encodes(m.0, all.subrange(0, all.len() as int)));
            }
        }
        Ok(())
    }
}

impl<T0: Deserialize> Deserialize for (T0,) {
    fn deserialize<R: ReadUninit>(deserializer: &mut Deserializer<R>) -> (r: Result<Self>) {
        let ghost start = deserializer.unread();
        let ghost u0 = deserializer.unread();
        proof { if T0::spec_faithful() { assert(u0 =~= start.subrange((start.len() - u0.len()) as int, start.len() as int)); } }
        let a0 = T0::deserialize(deserializer)?;
        proof { if T0::spec_faithful() { T0::lemma_decode_bounded(u0); } }
        proof { if T0::spec_faithful() { assert(deserializer.unread() =~= start.subrange((start.len() - deserializer.unread().len()) as int, start.len() as int)); } }
        Ok((a0,))
    }

    fn deserialize_in_place<R: ReadUninit>(&mut self, deserializer: &mut Deserializer<R>) -> (r: Result<()>) {
        let ghost start = deserializer.unread();
        let ghost u0 = deserializer.unread();
        proof { if T0::spec_faithful() { assert(u0 =~= start.subrange((start.len() - u0.len()) as int, start.len() as int)); } }
        self.0.deserialize_in_place(deserializer)?;
        proof { if T0::spec_faithful() { T0::lemma_decode_bounded(u0); } }
        proof { if T0::spec_faithful() { assert(deserializer.unread() =~= start.subrange((start.len() - deserializer.unread().len()) as int, start.len() as int)); } }
        Ok(())
    }
}

impl<T0: WireFormat, T1: WireFormat> WireFormat for (T0, T1) {
    type Model = (T0::Model, T1::Model);

    open spec fn model(&self) -> (T0::Model, T1::Model) {
        (self.0.model(), self.1.model())
    }

    open spec fn spec_encodes(m: (T0::Model, T1::Model), bytes: Seq<u8>) -> bool {
        exists|k1: int| 0 <= k1 <= bytes.len() && #[trigger] T0::spec_encodes(m.0, bytes.subrange(0, k1)) && (T1::spec_encodes(m.1, bytes.subrange(k1, bytes.len() as int)))
    }

    open spec fn spec_encodable(m: (T0::Model, T1::Model)) -> bool {
        T0::spec_encodable(m.0) && T1::spec_encodable(m.1)
    }

    open spec fn spec_decode(bytes: Seq<u8>) -> Option<((T0::Model, T1::Model), nat)> {
        match T0::spec_decode(bytes.subrange((0) as int, bytes.len() as int)) { None => None, Some((a0, n0)) => if 0 + n0 > bytes.len() { None } else { match T1::spec_decode(bytes.subrange((0 + n0) as int, bytes.len() as int)) { None => None, Some((a1, n1)) => if 0 + n0 + n1 > bytes.len() { None } else { Some(((a0, a1), 0 + n0 + n1 as nat)) } } } }
    }

    open spec fn spec_faithful() -> bool {
        T0::spec_faithful() && T1::spec_faithful()
    }

    proof fn lemma_round_trip(m: (T0::Model, T1::Model), bytes: Seq<u8>, rest: Seq<u8>) {
        let k1 = choose|k1: int| 0 <= k1 <= bytes.len() && #[trigger] T0::spec_encodes(m.0, bytes.subrange(0, k1)) && (T1::spec_encodes(m.1, bytes.subrange(k1, bytes.len() as int)));
        lemma_field_round_trip::<T0>(m.0, bytes, rest, 0, k1);
        lemma_field_round_trip::<T1>(m.1, bytes, rest, k1, bytes.len() as int);
    }

    proof fn lemma_decode_bounded(bytes: Seq<u8>) {
    }
}

impl<T0: Serialize, T1: Serialize> Serialize for (T0, T1) {
    fn serialize<W: WriteUninit>(&self, serializer: &mut Serializer<W>) -> (r: Result<()>) {
        let ghost w0 = serializer.written();
        self.0.serialize(serializer)?;
        let ghost w1 = serializer.written();
        self.1.serialize(serializer)?;
        let ghost w2 = serializer.written();
        proof {
            if T0::spec_faithful() && T1::spec_faithful() {
                lemma_extends_trans(w0, w1, w2);
                let all = appended(w0, w2);
                let m = self.model();
                let k1 = (w1.len() - w0.len()) as int;
                assert(all.subrange(0, k1) =~= appended(w0, w1));
                assert(T0::spec_encodes(m.0, all.subrange(0, k1)));
                assert(all.subrange(k1, all.len() as int) =~= appended(w1, w2));
                assert(T1::spec_encodes(m.1, all.subrange(k1, all.len() as int)));
            }
        }
        Ok(())
    }
}

impl<T0: Deserialize, T1: Deserialize> Deserialize for (T0, T1) {
    fn deserialize<R: ReadUninit>(deserializer: &mut Deserializer<R>) -> (r: Result<Self>) {
        let ghost start = deserializer.unread();
        let ghost u0 = deserializer.unread();
        proof { if T0::spec_faithful() && T1::spec_faithful() { assert(u0 =~= start.subrange((start.len() - u0.len()) as int, start.len() as int)); } }
        let a0 = T0::deserialize(deserializer)?;
        proof { if T0::spec_faithful() && T1::spec_faithful() { T0::lemma_decode_bounded(u0); } }
        let ghost u1 = deserializer.unread();
        proof { if T0::spec_faithful() && T1::spec_faithful() { assert(u1 =~= start.subrange((start.len() - u1.len()) as int, start.len() as int)); } }
        let a1 = T1::deserialize(deserializer)?;
        proof { if T0::spec_faithful() && T1::spec_faithful() { T1::lemma_decode_bounded(u1); } }
        proof { if T0::spec_faithful() && T1::spec_faithful() { assert(deserializer.unread() =~= start.subrange((start.len() - deserializer.unread().len()) as int, start.len() as int)); } }
        Ok((a0, a1))
    }

    fn deserialize_in_place<R: ReadUninit>(&mut self, deserializer: &mut Deserializer<R>) -> (r: Result<()>) {
        let ghost start = deserializer.unread();
        let ghost u0 = deserializer.unread();
        proof { if T0::spec_faithful() && T1::spec_faithful() { assert(u0 =~= start.subrange((start.len() - u0.len()) as int, start.len() as int)); } }
        self.0.deserialize_in_place(deserializer)?;
        proof { if T0::spec_faithful() && T1::spec_faithful() { T0::lemma_decode_bounded(u0); } }
        let ghost u1 = deserializer.unread();
        proof { if T0::spec_faithful() && T1::spec_faithful() { assert(u1 =~= start.subrange((start.len() - u1.len()) as int, start.len() as int)); } }
        self.1.deserialize_in_place(deserializer)?;
        proof { if T0::spec_faithful() && T1::spec_faithful() { T1::lemma_decode_bounded(u1); } }
        proof { if T0::spec_faithful() && T1::spec_faithful() { assert(deserializer.unread() =~= start.subrange((start.len() - deserializer.unread().len()) as int, start.len() as int)); } }
        Ok(())
    }
}

impl<T0: WireFormat, T1: WireFormat, T2: WireFormat> WireFormat for (T0, T1, T2) {
    type Model = (T0::Model, T1::Model, T2::Model);

    open spec fn model(&self) -> (T0::Model, T1::Model, T2::Model) {
        (self.0.model(), self.1.model(), self.2.model())
    }

    open spec fn spec_encodes(m: (T0::Model, T1::Model, T2::Model), bytes: Seq<u8>) -> bool {
        exists|k1: int| 0 <= k1 <= bytes.len() && #[trigger] T0::spec_encodes(m.0, bytes.subrange(0, k1)) && (exists|k2: int| k1 <= k2 <= bytes.len() && #[trigger] T1::spec_encodes(m.1, bytes.subrange(k1, k2)) && (T2::spec_encodes(m.2, bytes.subrange(k2, bytes.len() as int))))
    }

    open spec fn spec_encodable(m: (T0::Model, T1::Model, T2::Model)) -> bool {
        T0::spec_encodable(m.0) && T1::spec_encodable(m.1) && T2::spec_encodable(m.2)
    }

    open spec fn spec_decode(bytes: Seq<u8>) -> Option<((T0::Model, T1::Model, T2::Model), nat)> {
        match T0::spec_decode(bytes.subrange((0) as int, bytes.len() as int)) { None => None, Some((a0, n0)) => if 0 + n0 > bytes.len() { None } else { match T1::spec_decode(bytes.subrange((0 + n0) as int, bytes.len() as int)) { None => None, Some((a1, n1)) => if 0 + n0 + n1 > bytes.len() { None } else { match T2::spec_decode(bytes.subrange((0 + n0 + n1) as int, bytes.len() as int)) { None => None, Some((a2, n2)) => if 0 + n0 + n1 + n2 > bytes.len() { None } else { Some(((a0, a1, a2), 0 + n0 + n1 + n2 as nat)) } } } } } }
    }

    open spec fn spec_faithful() -> bool {
        T0::spec_faithful() && T1::spec_faithful() && T2::spec_faithful()
    }

    proof fn lemma_round_trip(m: (T0::Model, T1::Model, T2::Model), bytes: Seq<u8>, rest: Seq<u8>) {
        let k1 = choose|k1: int| 0 <= k1 <= bytes.len() && #[trigger] T0::spec_encodes(m.0, bytes.subrange(0, k1)) && (exists|k2: int| k1 <= k2 <= bytes.len() && #[trigger] T1::spec_encodes(m.1, bytes.subrange(k1, k2)) && (T2::spec_encodes(m.2, bytes.subrange(k2, bytes.len() as int))));
        let k2 = choose|k2: int| k1 <= k2 <= bytes.len() && #[trigger] T1::spec_encodes(m.1, bytes.subrange(k1, k2)) && (T2::spec_encodes(m.2, bytes.subrange(k2, bytes.len() as int)));
        lemma_field_round_trip::<T0>(m.0, bytes, rest, 0, k1);
        lemma_field_round_trip::<T1>(m.1, bytes, rest, k1, k2);
        lemma_field_round_trip::<T2>(m.2, bytes, rest, k2, bytes.len() as int);
    }

    proof fn lemma_decode_bounded(bytes: Seq<u8>) {
    }
}

impl<T0: Serialize, T1: Serialize, T2: Serialize> Serialize for (T0, T1, T2) {
    fn serialize<W: WriteUninit>(&self, serializer: &mut Serializer<W>) -> (r: Result<()>) {
        let ghost w0 = serializer.written();
        self.0.serialize(serializer)?;
        let ghost w1 = serializer.written();
        self.1.serialize(serializer)?;
        let ghost w2 = serializer.written();
        self.2.serialize(serializer)?;
        let ghost w3 = serializer.written();
        proof {
            if T0::spec_faithful() && T1::spec_faithful() && T2::spec_faithful() {
                lemma_extends_trans(w0, w1, w2);
                lemma_extends_trans(w0, w2, w3);
                let all = appended(w0, w3);
                let m = self.model();
                let k1 = (w1.len() - w0.len()) as int;
                let k2 = (w2.len() - w0.len()) as int;
                assert(all.subrange(0, k1) =~= appended(w0, w1));
                assert(T0::spec_encodes(m.0, all.subrange(0, k1)));
                assert(all.subrange(k1, k2) =~= appended(w1, w2));
                assert(T1::spec_encodes(m.1, all.subrange(k1, k2)));
                assert(all.subrange(k2, all.len() as int) =~= appended(w2, w3));
                assert(T2::spec_encodes(m.2, all.subrange(k2, all.len() as int)));
            }
        }
        Ok(())
    }
}

impl<T0: Deserialize, T1: Deserialize, T2: Deserialize> Deserialize for (T0, T1, T2) {
    fn deserialize<R: ReadUninit>(deserializer: &mut Deserializer<R>) -> (r: Result<Self>) {
        let ghost start = deserializer.unread();
        let ghost u0 = deserializer.unread();
        proof { if T0::spec_faithful() && T1::spec_faithful() && T2::spec_faithful() { assert(u0 =~= start.subrange((start.len() - u0.len()) as int, start.len() as int)); } }
        let a0 = T0::deserialize(deserializer)?;
        proof { if T0::spec_faithful() && T1::spec_faithful() && T2::spec_faithful() { T0::lemma_decode_bounded(u0); } }
        let ghost u1 = deserializer.unread();
        proof { if T0::spec_faithful() && T1::spec_faithful() && T2::spec_faithful() { assert(u1 =~= start.subrange((start.len() - u1.len()) as int, start.len() as int)); } }
        let a1 = T1::deserialize(deserializer)?;
        proof { if T0::spec_faithful() && T1::spec_faithful() && T2::spec_faithful() { T1::lemma_decode_bounded(u1); } }
        let ghost u2 = deserializer.unread();
        proof { if T0::spec_faithful() && T1::spec_faithful() && T2::spec_faithful() { assert(u2 =~= start.subrange((start.len() - u2.len()) as int, start.len() as int)); } }
        let a2 = T2::deserialize(deserializer)?;
        proof { if T0::spec_faithful() && T1::spec_faithful() && T2::spec_faithful() { T2::lemma_decode_bounded(u2); } }
        proof { if T0::spec_faithful() && T1::spec_faithful() && T2::spec_faithful() { assert(deserializer.unread() =~= start.subrange((start.len() - deserializer.unread().len()) as int, start.len() as int)); } }
        Ok((a0, a1, a2))
    }

    fn deserialize_in_place<R: ReadUninit>(&mut self, deserializer: &mut Deserializer<R>) -> (r: Result<()>) {
        let ghost start = deserializer.unread();
        let ghost u0 = deserializer.unread();
        proof { if T0::spec_faithful() && T1::spec_faithful() && T2::spec_faithful() { assert(u0 =~= start.subrange((start.len() - u0.len()) as int, start.len() as int)); } }
        self.0.deserialize_in_place(deserializer)?;
        proof { if T0::spec_faithful() && T1::spec_faithful() && T2::spec_faithful() { T0::lemma_decode_bounded(u0); } }
        let ghost u1 = deserializer.unread();
        proof { if T0::spec_faithful() && T1::spec_faithful() && T2::spec_faithful() { assert(u1 =~= start.subrange((start.len() - u1.len()) as int, start.len() as int)); } }
        self.1.deserialize_in_place(deserializer)?;
        proof { if T0::spec_faithful() && T1::spec_faithful() && T2::spec_faithful() { T1::lemma_decode_bounded(u1); } }
        let ghost u2 = deserializer.unread();
        proof { if T0::spec_faithful() && T1::spec_faithful() && T2::spec_faithful() { assert(u2 =~= start.subrange((start.len() - u2.len()) as int, start.len() as int)); } }
        self.2.deserialize_in_place(deserializer)?;
        proof { if T0::spec_faithful() && T1::spec_faithful() && T2::spec_faithful() { T2::lemma_decode_bounded(u2); } }
        proof { if T0::spec_faithful() && T1::spec_faithful() && T2::spec_faithful() { assert(deserializer.unread() =~= start.subrange((start.len() - deserializer.unread().len()) as int, start.len() as int)); } }
        Ok(())
    }
}

impl<T0: WireFormat, T1: WireFormat, T2: WireFormat, T3: WireFormat> WireFormat for (T0, T1, T2, T3) {
    type Model = (T0::Model, T1::Model, T2::Model, T3::Model);

    open spec fn model(&self) -> (T0::Model, T1::Model, T2::Model, T3::Model) {
        (self.0.model(), self.1.model(), self.2.model(), self.3.model())
    }

    open spec fn spec_encodes(m: (T0::Model, T1::Model, T2::Model, T3::Model), bytes: Seq<u8>) -> bool {
        exists|k1: int| 0 <= k1 <= bytes.len() && #[trigger] T0::spec_encodes(m.0, bytes.subrange(0, k1)) && (exists|k2: int| k1 <= k2 <= bytes.len() && #[trigger] T1::spec_encodes(m.1, bytes.subrange(k1, k2)) && (exists|k3: int| k2 <= k3 <= bytes.len() && #[trigger] T2::spec_encodes(m.2, bytes.subrange(k2, k3)) && (T3::spec_encodes(m.3, bytes.subrange(k3, bytes.len() as int)))))
    }

    open spec fn spec_encodable(m: (T0::Model, T1::Model, T2::Model, T3::Model)) -> bool {
        T0::spec_encodable(m.0) && T1::spec_encodable(m.1) && T2::spec_encodable(m.2) && T3::spec_encodable(m.3)
    }

    open spec fn spec_decode(bytes: Seq<u8>) -> Option<((T0::Model, T1::Model, T2::Model, T3::Model), nat)> {
        match T0::spec_decode(bytes.subrange((0) as int, bytes.len() as int)) { None => None, Some((a0, n0)) => if 0 + n0 > bytes.len() { None } else { match T1::spec_decode(bytes.subrange((0 + n0) as int, bytes.len() as int)) { None => None, Some((a1, n1)) => if 0 + n0 + n1 > bytes.len() { None } else { match T2::spec_decode(bytes.subrange((0 + n0 + n1) as int, bytes.len() as int)) { None => None, Some((a2, n2)) => if 0 + n0 + n1 + n2 > bytes.len() { None } else { match T3::spec_decode(bytes.subrange((0 + n0 + n1 + n2) as int, bytes.len() as int)) { None => None, Some((a3, n3)) => if 0 + n0 + n1 + n2 + n3 > bytes.len() { None } else { Some(((a0, a1, a2, a3), 0 + n0 + n1 + n2 + n3 as nat)) } } } } } } } }
    }

    open spec fn spec_faithful() -> bool {
        T0::spec_faithful() && T1::spec_faithful() && T2::spec_faithful() && T3::spec_faithful()
    }

    proof fn lemma_round_trip(m: (T0::Model, T1::Model, T2::Model, T3::Model), bytes: Seq<u8>, rest: Seq<u8>) {
        let k1 = choose|k1: int| 0 <= k1 <= bytes.len() && #[trigger] T0::spec_encodes(m.0, bytes.subrange(0, k1)) && (exists|k2: int| k1 <= k2 <= bytes.len() && #[trigger] T1::spec_encodes(m.1, bytes.subrange(k1, k2)) && (exists|k3: int| k2 <= k3 <= bytes.len() && #[trigger] T2::spec_encodes(m.2, bytes.subrange(k2, k3)) && (T3::spec_encodes(m.3, bytes.subrange(k3, bytes.len() as int)))));
        let k2 = choose|k2: int| k1 <= k2 <= bytes.len() && #[trigger] T1::spec_encodes(m.1, bytes.subrange(k1, k2)) && (exists|k3: int| k2 <= k3 <= bytes.len() && #[trigger] T2::spec_encodes(m.2, bytes.subrange(k2, k3)) && (T3::spec_encodes(m.3, bytes.subrange(k3, bytes.len() as int))));
        let k3 = choose|k3: int| k2 <= k3 <= bytes.len() && #[trigger] T2::spec_encodes(m.2, bytes.subrange(k2, k3)) && (T3::spec_encodes(m.3, bytes.subrange(k3, bytes.len() as int)));
        lemma_field_round_trip::<T0>(m.0, bytes, rest, 0, k1);
        lemma_field_round_trip::<T1>(m.1, bytes, rest, k1, k2);
        lemma_field_round_trip::<T2>(m.2, bytes, rest, k2, k3);
        lemma_field_round_trip::<T3>(m.3, bytes, rest, k3, bytes.len() as int);
    }

    proof fn lemma_decode_bounded(bytes: Seq<u8>) {
    }
}

impl<T0: Serialize, T1: Serialize, T2: Serialize, T3: Serialize> Serialize for (T0, T1, T2, T3) {
    fn serialize<W: WriteUninit>(&self, serializer: &mut Serializer<W>) -> (r: Result<()>) {
        let ghost w0 = serializer.written();
        self.0.serialize(serializer)?;
        let ghost w1 = serializer.written();
        self.1.serialize(serializer)?;
        let ghost w2 = serializer.written();
        self.2.serialize(serializer)?;
        let ghost w3 = serializer.written();
        self.3.serialize(serializer)?;
        let ghost w4 = serializer.written();
        proof {
            if T0::spec_faithful() && T1::spec_faithful() && T2::spec_faithful() && T3::spec_faithful() {
                lemma_extends_trans(w0, w1, w2);
                lemma_extends_trans(w0, w2, w3);
                lemma_extends_trans(w0, w3, w4);
                let all = appended(w0, w4);
                let m = self.model();
                let k1 = (w1.len() - w0.len()) as int;
                let k2 = (w2.len() - w0.len()) as int;
                let k3 = (w3.len() - w0.len()) as int;
                assert(all.subrange(0, k1) =~= appended(w0, w1));
                assert(T0::spec_encodes(m.0, all.subrange(0, k1)));
                assert(all.subrange(k1, k2) =~= appended(w1, w2));
                assert(T1::spec_encodes(m.1, all.subrange(k1, k2)));
                assert(all.subrange(k2, k3) =~= appended(w2, w3));
                assert(T2::spec_encodes(m.2, all.subrange(k2, k3)));
                assert(all.subrange(k3, all.len() as int) =~= appended(w3, w4));
                assert(T3::spec_encodes(m.3, all.subrange(k3, all.len() as int)));
            }
        }
        Ok(())
    }
}

impl<T0: Deserialize, T1: Deserialize, T2: Deserialize, T3: Deserialize> Deserialize for (T0, T1, T2, T3) {
    fn deserialize<R: ReadUninit>(deserializer: &mut Deserializer<R>) -> (r: Result<Self>) {
        let ghost start = deserializer.unread();
        let ghost u0 = deserializer.unread();
        proof { if T0::spec_faithful() && T1::spec_faithful() && T2::spec_faithful() && T3::spec_faithful() { assert(u0 =~= start.subrange((start.len() - u0.len()) as int, start.len() as int)); } }
        let a0 = T0::deserialize(deserializer)?;
        proof { if T0::spec_faithful() && T1::spec_faithful() && T2::spec_faithful() && T3::spec_faithful() { T0::lemma_decode_bounded(u0); } }
        let ghost u1 = deserializer.unread();
        proof { if T0::spec_faithful() && T1::spec_faithful() && T2::spec_faithful() && T3::spec_faithful() { assert(u1 =~= start.subrange((start.len() - u1.len()) as int, start.len() as int)); } }
        let a1 = T1::deserialize(deserializer)?;
        proof { if T0::spec_faithful() && T1::spec_faithful() && T2::spec_faithful() && T3::spec_faithful() { T1::lemma_decode_bounded(u1); } }
        let ghost u2 = deserializer.unread();
        proof { if T0::spec_faithful() && T1::spec_faithful() && T2::spec_faithful() && T3::spec_faithful() { assert(u2 =~= start.subrange((start.len() - u2.len()) as int, start.len() as int)); } }
        let a2 = T2::deserialize(deserializer)?;
        proof { if T0::spec_faithful() && T1::spec_faithful() && T2::spec_faithful() && T3::spec_faithful() { T2::lemma_decode_bounded(u2); } }
        let ghost u3 = deserializer.unread();
        proof { if T0::spec_faithful() && T1::spec_faithful() && T2::spec_faithful() && T3::spec_faithful() { assert(u3 =~= start.subrange((start.len() - u3.len()) as int, start.len() as int)); } }
        let a3 = T3::deserialize(deserializer)?;
        proof { if T0::spec_faithful() && T1::spec_faithful() && T2::spec_faithful() && T3::spec_faithful() { T3::lemma_decode_bounded(u3); } }
        proof { if T0::spec_faithful() && T1::spec_faithful() && T2::spec_faithful() && T3::spec_faithful() { assert(deserializer.unread() =~= start.subrange((start.len() - deserializer.unread().len()) as int, start.len() as int)); } }
        Ok((a0, a1, a2, a3))
    }

    fn deserialize_in_place<R: ReadUninit>(&mut self, deserializer: &mut Deserializer<R>) -> (r: Result<()>) {
        let ghost start = deserializer.unread();
        let ghost u0 = deserializer.unread();
        proof { if T0::spec_faithful() && T1::spec_faithful() && T2::spec_faithful() && T3::spec_faithful() { assert(u0 =~= start.subrange((start.len() - u0.len()) as int, start.len() as int)); } }
        self.0.deserialize_in_place(deserializer)?;
        proof { if T0::spec_faithful() && T1::spec_faithful() && T2::spec_faithful() && T3::spec_faithful() { T0::lemma_decode_bounded(u0); } }
        let ghost u1 = deserializer.unread();
        proof { if T0::spec_faithful() && T1::spec_faithful() && T2::spec_faithful() && T3::spec_faithful() { assert(u1 =~= start.subrange((start.len() - u1.len()) as int, start.len() as int)); } }
        self.1.deserialize_in_place(deserializer)?;
        proof { if T0::spec_faithful() && T1::spec_faithful() && T2::spec_faithful() && T3::spec_faithful() { T1::lemma_decode_bounded(u1); } }
        let ghost u2 = deserializer.unread();
        proof { if T0::spec_faithful() && T1::spec_faithful() && T2::spec_faithful() && T3::spec_faithful() { assert(u2 =~= start.subrange((start.len() - u2.len()) as int, start.len() as int)); } }
        self.2.deserialize_in_place(deserializer)?;
        proof { if T0::spec_faithful() && T1::spec_faithful() && T2::spec_faithful() && T3::spec_faithful() { T2::lemma_decode_bounded(u2); } }
        let ghost u3 = deserializer.unread();
        proof { if T0::spec_faithful() && T1::spec_faithful() && T2::spec_faithful() && T3::spec_faithful() { assert(u3 =~= start.subrange((start.len() - u3.len()) as int, start.len() as int)); } }
        self.3.deserialize_in_place(deserializer)?;
        proof { if T0::spec_faithful() && T1::spec_faithful() && T2::spec_faithful() && T3::spec_faithful() { T3::lemma_decode_bounded(u3); } }
        proof { if T0::spec_faithful() && T1::spec_faithful() && T2::spec_faithful() && T3::spec_faithful() { assert(deserializer.unread() =~= start.subrange((start.len() - deserializer.unread().len()) as int, start.len() as int)); } }
        Ok(())
    }
}

impl<T0: WireFormat, T1: WireFormat, T2: WireFormat, T3: WireFormat, T4: WireFormat> WireFormat for (T0, T1, T2, T3, T4) {
    type Model = (T0::Model, T1::Model, T2::Model, T3::Model, T4::Model);

    open spec fn model(&self) -> (T0::Model, T1::Model, T2::Model, T3::Model, T4::Model) {
        (self.0.model(), self.1.model(), self.2.model(), self.3.model(), self.4.model())
    }

    open spec fn spec_encodes(m: (T0::Model, T1::Model, T2::Model, T3::Model, T4::Model), bytes: Seq<u8>) -> bool {
        exists|k1: int| 0 <= k1 <= bytes.len() && #[trigger] T0::spec_encodes(m.0, bytes.subrange(0, k1)) && (exists|k2: int| k1 <= k2 <= bytes.len() && #[trigger] T1::spec_encodes(m.1, bytes.subrange(k1, k2)) && (exists|k3: int| k2 <= k3 <= bytes.len() && #[trigger] T2::spec_encodes(m.2, bytes.subrange(k2, k3)) && (exists|k4: int| k3 <= k4 <= bytes.len() && #[trigger] T3::spec_encodes(m.3, bytes.subrange(k3, k4)) && (T4::spec_encodes(m.4, bytes.subrange(k4, bytes.len() as int))))))
    }

    open spec fn spec_encodable(m: (T0::Model, T1::Model, T2::Model, T3::Model, T4::Model)) -> bool {
        T0::spec_encodable(m.0) && T1::spec_encodable(m.1) && T2::spec_encodable(m.2) && T3::spec_encodable(m.3) && T4::spec_encodable(m.4)
    }

    open spec fn spec_decode(bytes: Seq<u8>) -> Option<((T0::Model, T1::Model, T2::Model, T3::Model, T4::Model), nat)> {
        match T0::spec_decode(bytes.subrange((0) as int, bytes.len() as int)) { None => None, Some((a0, n0)) => if 0 + n0 > bytes.len() { None } else { match T1::spec_decode(bytes.subrange((0 + n0) as int, bytes.len() as int)) { None => None, Some((a1, n1)) => if 0 + n0 + n1 > bytes.len() { None } else { match T2::spec_decode(bytes.subrange((0 + n0 + n1) as int, bytes.len() as int)) { None => None, Some((a2, n2)) => if 0 + n0 + n1 + n2 > bytes.len() { None } else { match T3::spec_decode(bytes.subrange((0 + n0 + n1 + n2) as int, bytes.len() as int)) { None => None, Some((a3, n3)) => if 0 + n0 + n1 + n2 + n3 > bytes.len() { None } else { match T4::spec_decode(bytes.subrange((0 + n0 + n1 + n2 + n3) as int, bytes.len() as int)) { None => None, Some((a4, n4)) => if 0 + n0 + n1 + n2 + n3 + n4 > bytes.len() { None } else { Some(((a0, a1, a2, a3, a4), 0 + n0 + n1 + n2 + n3 + n4 as nat)) } } } } } } } } } }
    }

    open spec fn spec_faithful() -> bool {
        T0::spec_faithful() && T1::spec_faithful() && T2::spec_faithful() && T3::spec_faithful() && T4::spec_faithful()
    }

    #[verifier::rlimit(100)]
    #[verifier::spinoff_prover]
    proof fn lemma_round_trip(m: (T0::Model, T1::Model, T2::Model, T3::Model, T4::Model), bytes: Seq<u8>, rest: Seq<u8>) {
        let k1 = choose|k1: int| 0 <= k1 <= bytes.len() && #[trigger] T0::spec_encodes(m.0, bytes.subrange(0, k1)) && (exists|k2: int| k1 <= k2 <= bytes.len() && #[trigger] T1::spec_encodes(m.1, bytes.subrange(k1, k2)) && (exists|k3: int| k2 <= k3 <= bytes.len() && #[trigger] T2::spec_encodes(m.2, bytes.subrange(k2, k3)) && (exists|k4: int| k3 <= k4 <= bytes.len() && #[trigger] T3::spec_encodes(m.3, bytes.subrange(k3, k4)) && (T4::spec_encodes(m.4, bytes.subrange(k4, bytes.len() as int))))));
        let k2 = choose|k2: int| k1 <= k2 <= bytes.len() && #[trigger] T1::spec_encodes(m.1, bytes.subrange(k1, k2)) && (exists|k3: int| k2 <= k3 <= bytes.len() && #[trigger] T2::spec_encodes(m.2, bytes.subrange(k2, k3)) && (exists|k4: int| k3 <= k4 <= bytes.len() && #[trigger] T3::spec_encodes(m.3, bytes.subrange(k3, k4)) && (T4::spec_encodes(m.4, bytes.subrange(k4, bytes.len() as int)))));
        let k3 = choose|k3: int| k2 <= k3 <= bytes.len() && #[trigger] T2::spec_encodes(m.2, bytes.subrange(k2, k3)) && (exists|k4: int| k3 <= k4 <= bytes.len() && #[trigger] T3::spec_encodes(m.3, bytes.subrange(k3, k4)) && (T4::spec_encodes(m.4, bytes.subrange(k4, bytes.len() as int))));
        let k4 = choose|k4: int| k3 <= k4 <= bytes.len() && #[trigger] T3::spec_encodes(m.3, bytes.subrange(k3, k4)) && (T4::spec_encodes(m.4, bytes.subrange(k4, bytes.len() as int)));
        lemma_field_round_trip::<T0>(m.0, bytes, rest, 0, k1);
        lemma_field_round_trip::<T1>(m.1, bytes, rest, k1, k2);
        lemma_field_round_trip::<T2>(m.2, bytes, rest, k2, k3);
        lemma_field_round_trip::<T3>(m.3, bytes, rest, k3, k4);
        lemma_field_round_trip::<T4>(m.4, bytes, rest, k4, bytes.len() as int);
    }

    proof fn lemma_decode_bounded(bytes: Seq<u8>) {
    }
}

impl<T0: Serialize, T1: Serialize, T2: Serialize, T3: Serialize, T4: Serialize> Serialize for (T0, T1, T2, T3, T4) {
    #[verifier::rlimit(100)]
    #[verifier::spinoff_prover]
    fn serialize<W: WriteUninit>(&self, serializer: &mut Serializer<W>) -> (r: Result<()>) {
        let ghost w0 = serializer.written();
        self.0.serialize(serializer)?;
        let ghost w1 = serializer.written();
        self.1.serialize(serializer)?;
        let ghost w2 = serializer.written();
        self.2.serialize(serializer)?;
        let ghost w3 = serializer.written();
        self.3.serialize(serializer)?;
        let ghost w4 = serializer.written();
        self.4.serialize(serializer)?;
        let ghost w5 = serializer.written();
        proof {
            if T0::spec_faithful() && T1::spec_faithful() && T2::spec_faithful() && T3::spec_faithful() && T4::spec_faithful() {
                lemma_extends_trans(w0, w1, w2);
                lemma_extends_trans(w0, w2, w3);
                lemma_extends_trans(w0, w3, w4);
                lemma_extends_trans(w0, w4, w5);
                let all = appended(w0, w5);
                let m = self.model();
                let k1 = (w1.len() - w0.len()) as int;
                let k2 = (w2.len() - w0.len()) as int;
                let k3 = (w3.len() - w0.len()) as int;
                let k4 = (w4.len() - w0.len()) as int;
                assert(all.subrange(0, k1) =~= appended(w0, w1));
                assert(T0::spec_encodes(m.0, all.subrange(0, k1)));
                assert(all.subrange(k1, k2) =~= appended(w1, w2));
                assert(T1::spec_encodes(m.1, all.subrange(k1, k2)));
                assert(all.subrange(k2, k3) =~= appended(w2, w3));
                assert(T2::spec_encodes(m.2, all.subrange(k2, k3)));
                assert(all.subrange(k3, k4) =~= appended(w3, w4));
                assert(T3::spec_encodes(m.3, all.subrange(k3, k4)));
                assert(all.subrange(k4, all.len() as int) =~= appended(w4, w5));
                assert(T4::spec_encodes(m.4, all.subrange(k4, all.len() as int)));
            }
        }
        Ok(())
    }
}

impl<T0: Deserialize, T1: Deserialize, T2: Deserialize, T3: Deserialize, T4: Deserialize> Deserialize for (T0, T1, T2, T3, T4) {
    #[verifier::rlimit(100)]
    #[verifier::spinoff_prover]
    fn deserialize<R: ReadUninit>(deserializer: &mut Deserializer<R>) -> (r: Result<Self>) {
        let ghost start = deserializer.unread();
        let ghost u0 = deserializer.unread();
        proof { if T0::spec_faithful() && T1::spec_faithful() && T2::spec_faithful() && T3::spec_faithful() && T4::spec_faithful() { assert(u0 =~= start.subrange((start.len() - u0.len()) as int, start.len() as int)); } }
        let a0 = T0::deserialize(deserializer)?;
        proof { if T0::spec_faithful() && T1::spec_faithful() && T2::spec_faithful() && T3::spec_faithful() && T4::spec_faithful() { T0::lemma_decode_bounded(u0); } }
        let ghost u1 = deserializer.unread();
        proof { if T0::spec_faithful() && T1::spec_faithful() && T2::spec_faithful() && T3::spec_faithful() && T4::spec_faithful() { assert(u1 =~= start.subrange((start.len() - u1.len()) as int, start.len() as int)); } }
        let a1 = T1::deserialize(deserializer)?;
        proof { if T0::spec_faithful() && T1::spec_faithful() && T2::spec_faithful() && T3::spec_faithful() && T4::spec_faithful() { T1::lemma_decode_bounded(u1); } }
        let ghost u2 = deserializer.unread();
        proof { if T0::spec_faithful() && T1::spec_faithful() && T2::spec_faithful() && T3::spec_faithful() && T4::spec_faithful() { assert(u2 =~= start.subrange((start.len() - u2.len()) as int, start.len() as int)); } }
        let a2 = T2::deserialize(deserializer)?;
        proof { if T0::spec_faithful() && T1::spec_faithful() && T2::spec_faithful() && T3::spec_faithful() && T4::spec_faithful() { T2::lemma_decode_bounded(u2); } }
        let ghost u3 = deserializer.unread();
        proof { if T0::spec_faithful() && T1::spec_faithful() && T2::spec_faithful() && T3::spec_faithful() && T4::spec_faithful() { assert(u3 =~= start.subrange((start.len() - u3.len()) as int, start.len() as int)); } }
        let a3 = T3::deserialize(deserializer)?;
        proof { if T0::spec_faithful() && T1::spec_faithful() && T2::spec_faithful() && T3::spec_faithful() && T4::spec_faithful() { T3::lemma_decode_bounded(u3); } }
        let ghost u4 = deserializer.unread();
        proof { if T0::spec_faithful() && T1::spec_faithful() && T2::spec_faithful() && T3::spec_faithful() && T4::spec_faithful() { assert(u4 =~= start.subrange((start.len() - u4.len()) as int, start.len() as int)); } }
        let a4 = T4::deserialize(deserializer)?;
        proof { if T0::spec_faithful() && T1::spec_faithful() && T2::spec_faithful() && T3::spec_faithful() && T4::spec_faithful() { T4::lemma_decode_bounded(u4); } }
        proof { if T0::spec_faithful() && T1::spec_faithful() && T2::spec_faithful() && T3::spec_faithful() && T4::spec_faithful() { assert(deserializer.unread() =~= start.subrange((start.len() - deserializer.unread().len()) as int, start.len() as int)); } }
        Ok((a0, a1, a2, a3, a4))
    }

    #[verifier::rlimit(100)]
    #[verifier::spinoff_prover]
    fn deserialize_in_place<R: ReadUninit>(&mut self, deserializer: &mut Deserializer<R>) -> (r: Result<()>) {
        let ghost start = deserializer.unread();
        let ghost u0 = deserializer.unread();
        proof { if T0::spec_faithful() && T1::spec_faithful() && T2::spec_faithful() && T3::spec_faithful() && T4::spec_faithful() { assert(u0 =~= start.subrange((start.len() - u0.len()) as int, start.len() as int)); } }
        self.0.deserialize_in_place(deserializer)?;
        proof { if T0::spec_faithful() && T1::spec_faithful() && T2::spec_faithful() && T3::spec_faithful() && T4::spec_faithful() { T0::lemma_decode_bounded(u0); } }
        let ghost u1 = deserializer.unread();
        proof { if T0::spec_faithful() && T1::spec_faithful() && T2::spec_faithful() && T3::spec_faithful() && T4::spec_faithful() { assert(u1 =~= start.subrange((start.len() - u1.len()) as int, start.len() as int)); } }
        self.1.deserialize_in_place(deserializer)?;
        proof { if T0::spec_faithful() && T1::spec_faithful() && T2::spec_faithful() && T3::spec_faithful() && T4::spec_faithful() { T1::lemma_decode_bounded(u1); } }
        let ghost u2 = deserializer.unread();
        proof { if T0::spec_faithful() && T1::spec_faithful() && T2::spec_faithful() && T3::spec_faithful() && T4::spec_faithful() { assert(u2 =~= start.subrange((start.len() - u2.len()) as int, start.len() as int)); } }
        self.2.deserialize_in_place(deserializer)?;
        proof { if T0::spec_faithful() && T1::spec_faithful() && T2::spec_faithful() && T3::spec_faithful() && T4::spec_faithful() { T2::lemma_decode_bounded(u2); } }
        let ghost u3 = deserializer.unread();
        proof { if T0::spec_faithful() && T1::spec_faithful() && T2::spec_faithful() && T3::spec_faithful() && T4::spec_faithful() { assert(u3 =~= start.subrange((start.len() - u3.len()) as int, start.len() as int)); } }
        self.3.deserialize_in_place(deserializer)?;
        proof { if T0::spec_faithful() && T1::spec_faithful() && T2::spec_faithful() && T3::spec_faithful() && T4::spec_faithful() { T3::lemma_decode_bounded(u3); } }
        let ghost u4 = deserializer.unread();
        proof { if T0::spec_faithful() && T1::spec_faithful() && T2::spec_faithful() && T3::spec_faithful() && T4::spec_faithful() { assert(u4 =~= start.subrange((start.len() - u4.len()) as int, start.len() as int)); } }
        self.4.deserialize_in_place(deserializer)?;
        proof { if T0::spec_faithful() && T1::spec_faithful() && T2::spec_faithful() && T3::spec_faithful() && T4::spec_faithful() { T4::lemma_decode_bounded(u4); } }
        proof { if T0::spec_faithful() && T1::spec_faithful() && T2::spec_faithful() && T3::spec_faithful() && T4::spec_faithful() { assert(deserializer.unread() =~= start.subrange((start.len() - deserializer.unread().len()) as int, start.len() as int)); } }
        Ok(())
    }
}

impl<T0: WireFormat, T1: WireFormat, T2: WireFormat, T3: WireFormat, T4: WireFormat, T5: WireFormat> WireFormat for (T0, T1, T2, T3, T4, T5) {
    type Model = (T0::Model, T1::Model, T2::Model, T3::Model, T4::Model, T5::Model);

    open spec fn model(&self) -> (T0::Model, T1::Model, T2::Model, T3::Model, T4::Model, T5::Model) {
        (self.0.model(), self.1.model(), self.2.model(), self.3.model(), self.4.model(), self.5.model())
    }

    open spec fn spec_encodes(m: (T0::Model, T1::Model, T2::Model, T3::Model, T4::Model, T5::Model), bytes: Seq<u8>) -> bool {
        exists|k1: int| 0 <= k1 <= bytes.len() && #[trigger] T0::spec_encodes(m.0, bytes.subrange(0, k1)) && (exists|k2: int| k1 <= k2 <= bytes.len() && #[trigger] T1::spec_encodes(m.1, bytes.subrange(k1, k2)) && (exists|k3: int| k2 <= k3 <= bytes.len() && #[trigger] T2::spec_encodes(m.2, bytes.subrange(k2, k3)) && (exists|k4: int| k3 <= k4 <= bytes.len() && #[trigger] T3::spec_encodes(m.3, bytes.subrange(k3, k4)) && (exists|k5: int| k4 <= k5 <= bytes.len() && #[trigger] T4::spec_encodes(m.4, bytes.subrange(k4, k5)) && (T5::spec_encodes(m.5, bytes.subrange(k5, bytes.len() as int)))))))
    }

    open spec fn spec_encodable(m: (T0::Model, T1::Model, T2::Model, T3::Model, T4::Model, T5::Model)) -> bool {
        T0::spec_encodable(m.0) && T1::spec_encodable(m.1) && T2::spec_encodable(m.2) && T3::spec_encodable(m.3) && T4::spec_encodable(m.4) && T5::spec_encodable(m.5)
    }

    open spec fn spec_decode(bytes: Seq<u8>) -> Option<((T0::Model, T1::Model, T2::Model, T3::Model, T4::Model, T5::Model), nat)> {
        match T0::spec_decode(bytes.subrange((0) as int, bytes.len() as int)) { None => None, Some((a0, n0)) => if 0 + n0 > bytes.len() { None } else { match T1::spec_decode(bytes.subrange((0 + n0) as int, bytes.len() as int)) { None => None, Some((a1, n1)) => if 0 + n0 + n1 > bytes.len() { None } else { match T2::spec_decode(bytes.subrange((0 + n0 + n1) as int, bytes.len() as int)) { None => None, Some((a2, n2)) => if 0 + n0 + n1 + n2 > bytes.len() { None } else { match T3::spec_decode(bytes.subrange((0 + n0 + n1 + n2) as int, bytes.len() as int)) { None => None, Some((a3, n3)) => if 0 + n0 + n1 + n2 + n3 > bytes.len() { None } else { match T4::spec_decode(bytes.subrange((0 + n0 + n1 + n2 + n3) as int, bytes.len() as int)) { None => None, Some((a4, n4)) => if 0 + n0 + n1 + n2 + n3 + n4 > bytes.len() { None } else { match T5::spec_decode(bytes.subrange((0 + n0 + n1 + n2 + n3 + n4) as int, bytes.len() as int)) { None => None, Some((a5, n5)) => if 0 + n0 + n1 + n2 + n3 + n4 + n5 > bytes.len() { None } else { Some(((a0, a1, a2, a3, a4, a5), 0 + n0 + n1 + n2 + n3 + n4 + n5 as nat)) } } } } } } } } } } } }
    }

    open spec fn spec_faithful() -> bool {
        T0::spec_faithful() && T1::spec_faithful() && T2::spec_faithful() && T3::spec_faithful() && T4::spec_faithful() && T5::spec_faithful()
    }

    #[verifier::rlimit(100)]
    #[verifier::spinoff_prover]
    proof fn lemma_round_trip(m: (T0::Model, T1::Model, T2::Model, T3::Model, T4::Model, T5::Model), bytes: Seq<u8>, rest: Seq<u8>) {
        let k1 = choose|k1: int| 0 <= k1 <= bytes.len() && #[trigger] T0::spec_encodes(m.0, bytes.subrange(0, k1)) && (exists|k2: int| k1 <= k2 <= bytes.len() && #[trigger] T1::spec_encodes(m.1, bytes.subrange(k1, k2)) && (exists|k3: int| k2 <= k3 <= bytes.len() && #[trigger] T2::spec_encodes(m.2, bytes.subrange(k2, k3)) && (exists|k4: int| k3 <= k4 <= bytes.len() && #[trigger] T3::spec_encodes(m.3, bytes.subrange(k3, k4)) && (exists|k5: int| k4 <= k5 <= bytes.len() && #[trigger] T4::spec_encodes(m.4, bytes.subrange(k4, k5)) && (T5::spec_encodes(m.5, bytes.subrange(k5, bytes.len() as int)))))));
        let k2 = choose|k2: int| k1 <= k2 <= bytes.len() && #[trigger] T1::spec_encodes(m.1, bytes.subrange(k1, k2)) && (exists|k3: int| k2 <= k3 <= bytes.len() && #[trigger] T2::spec_encodes(m.2, bytes.subrange(k2, k3)) && (exists|k4: int| k3 <= k4 <= bytes.len() && #[trigger] T3::spec_encodes(m.3, bytes.subrange(k3, k4)) && (exists|k5: int| k4 <= k5 <= bytes.len() && #[trigger] T4::spec_encodes(m.4, bytes.subrange(k4, k5)) && (T5::spec_encodes(m.5, bytes.subrange(k5, bytes.len() as int))))));
        let k3 = choose|k3: int| k2 <= k3 <= bytes.len() && #[trigger] T2::spec_encodes(m.2, bytes.subrange(k2, k3)) && (exists|k4: int| k3 <= k4 <= bytes.len() && #[trigger] T3::spec_encodes(m.3, bytes.subrange(k3, k4)) && (exists|k5: int| k4 <= k5 <= bytes.len() && #[trigger] T4::spec_encodes(m.4, bytes.subrange(k4, k5)) && (T5::spec_encodes(m.5, bytes.subrange(k5, bytes.len() as int)))));
        let k4 = choose|k4: int| k3 <= k4 <= bytes.len() && #[trigger] T3::spec_encodes(m.3, bytes.subrange(k3, k4)) && (exists|k5: int| k4 <= k5 <= bytes.len() && #[trigger] T4::spec_encodes(m.4, bytes.subrange(k4, k5)) && (T5::spec_encodes(m.5, bytes.subrange(k5, bytes.len() as int))));
        let k5 = choose|k5: int| k4 <= k5 <= bytes.len() && #[trigger] T4::spec_encodes(m.4, bytes.subrange(k4, k5)) && (T5::spec_encodes(m.5, bytes.subrange(k5, bytes.len() as int)));
        lemma_field_round_trip::<T0>(m.0, bytes, rest, 0, k1);
        lemma_field_round_trip::<T1>(m.1, bytes, rest, k1, k2);
        lemma_field_round_trip::<T2>(m.2, bytes, rest, k2, k3);
        lemma_field_round_trip::<T3>(m.3, bytes, rest, k3, k4);
        lemma_field_round_trip::<T4>(m.4, bytes, rest, k4, k5);
        lemma_field_round_trip::<T5>(m.5, bytes, rest, k5, bytes.len() as int);
    }

    proof fn lemma_decode_bounded(bytes: Seq<u8>) {
    }
}

impl<T0: Serialize, T1: Serialize, T2: Serialize, T3: Serialize, T4: Serialize, T5: Serialize> Serialize for (T0, T1, T2, T3, T4, T5) {
    #[verifier::rlimit(100)]
    #[verifier::spinoff_prover]
    fn serialize<W: WriteUninit>(&self, serializer: &mut Serializer<W>) -> (r: Result<()>) {
        let ghost w0 = serializer.written();
        self.0.serialize(serializer)?;
        let ghost w1 = serializer.written();
        self.1.serialize(serializer)?;
        let ghost w2 = serializer.written();
        self.2.serialize(serializer)?;
        let ghost w3 = serializer.written();
        self.3.serialize(serializer)?;
        let ghost w4 = serializer.written();
        self.4.serialize(serializer)?;
        let ghost w5 = serializer.written();
        self.5.serialize(serializer)?;
        let ghost w6 = serializer.written();
        proof {
            if T0::spec_faithful() && T1::spec_faithful() && T2::spec_faithful() && T3::spec_faithful() && T4::spec_faithful() && T5::spec_faithful() {
                lemma_extends_trans(w0, w1, w2);
                lemma_extends_trans(w0, w2, w3);
                lemma_extends_trans(w0, w3, w4);
                lemma_extends_trans(w0, w4, w5);
                lemma_extends_trans(w0, w5, w6);
                let all = appended(w0, w6);
                let m = self.model();
                let k1 = (w1.len() - w0.len()) as int;
                let k2 = (w2.len() - w0.len()) as int;
                let k3 = (w3.len() - w0.len()) as int;
                let k4 = (w4.len() - w0.len()) as int;
                let k5 = (w5.len() - w0.len()) as int;
                assert(all.subrange(0, k1) =~= appended(w0, w1));
                assert(T0::spec_encodes(m.0, all.subrange(0, k1)));
                assert(all.subrange(k1, k2) =~= appended(w1, w2));
                assert(T1::spec_encodes(m.1, all.subrange(k1, k2)));
                assert(all.subrange(k2, k3) =~= appended(w2, w3));
                assert(T2::spec_encodes(m.2, all.subrange(k2, k3)));
                assert(all.subrange(k3, k4) =~= appended(w3, w4));
                assert(T3::spec_encodes(m.3, all.subrange(k3, k4)));
                assert(all.subrange(k4, k5) =~= appended(w4, w5));
                assert(T4::spec_encodes(m.4, all.subrange(k4, k5)));
                assert(all.subrange(k5, all.len() as int) =~= appended(w5, w6));
                assert(T5::spec_encodes(m.5, all.subrange(k5, all.len() as int)));
            }
        }
        Ok(())
    }
}

impl<T0: Deserialize, T1: Deserialize, T2: Deserialize, T3: Deserialize, T4: Deserialize, T5: Deserialize> Deserialize for (T0, T1, T2, T3, T4, T5) {
    #[verifier::rlimit(100)]
    #[verifier::spinoff_prover]
    fn deserialize<R: ReadUninit>(deserializer: &mut Deserializer<R>) -> (r: Result<Self>) {
        let ghost start = deserializer.unread();
        let ghost u0 = deserializer.unread();
        proof { if T0::spec_faithful() && T1::spec_faithful() && T2::spec_faithful() && T3::spec_faithful() && T4::spec_faithful() && T5::spec_faithful() { assert(u0 =~= start.subrange((start.len() - u0.len()) as int, start.len() as int)); } }
        let a0 = T0::deserialize(deserializer)?;
        proof { if T0::spec_faithful() && T1::spec_faithful() && T2::spec_faithful() && T3::spec_faithful() && T4::spec_faithful() && T5::spec_faithful() { T0::lemma_decode_bounded(u0); } }
        let ghost u1 = deserializer.unread();
        proof { if T0::spec_faithful() && T1::spec_faithful() && T2::spec_faithful() && T3::spec_faithful() && T4::spec_faithful() && T5::spec_faithful() { assert(u1 =~= start.subrange((start.len() - u1.len()) as int, start.len() as int)); } }
        let a1 = T1::deserialize(deserializer)?;
        proof { if T0::spec_faithful() && T1::spec_faithful() && T2::spec_faithful() && T3::spec_faithful() && T4::spec_faithful() && T5::spec_faithful() { T1::lemma_decode_bounded(u1); } }
        let ghost u2 = deserializer.unread();
        proof { if T0::spec_faithful() && T1::spec_faithful() && T2::spec_faithful() && T3::spec_faithful() && T4::spec_faithful() && T5::spec_faithful() { assert(u2 =~= start.subrange((start.len() - u2.len()) as int, start.len() as int)); } }
        let a2 = T2::deserialize(deserializer)?;
        proof { if T0::spec_faithful() && T1::spec_faithful() && T2::spec_faithful() && T3::spec_faithful() && T4::spec_faithful() && T5::spec_faithful() { T2::lemma_decode_bounded(u2); } }
        let ghost u3 = deserializer.unread();
        proof { if T0::spec_faithful() && T1::spec_faithful() && T2::spec_faithful() && T3::spec_faithful() && T4::spec_faithful() && T5::spec_faithful() { assert(u3 =~= start.subrange((start.len() - u3.len()) as int, start.len() as int)); } }
        let a3 = T3::deserialize(deserializer)?;
        proof { if T0::spec_faithful() && T1::spec_faithful() && T2::spec_faithful() && T3::spec_faithful() && T4::spec_faithful() && T5::spec_faithful() { T3::lemma_decode_bounded(u3); } }
        let ghost u4 = deserializer.unread();
        proof { if T0::spec_faithful() && T1::spec_faithful() && T2::spec_faithful() && T3::spec_faithful() && T4::spec_faithful() && T5::spec_faithful() { assert(u4 =~= start.subrange((start.len() - u4.len()) as int, start.len() as int)); } }
        let a4 = T4::deserialize(deserializer)?;
        proof { if T0::spec_faithful() && T1::spec_faithful() && T2::spec_faithful() && T3::spec_faithful() && T4::spec_faithful() && T5::spec_faithful() { T4::lemma_decode_bounded(u4); } }
        let ghost u5 = deserializer.unread();
        proof { if T0::spec_faithful() && T1::spec_faithful() && T2::spec_faithful() && T3::spec_faithful() && T4::spec_faithful() && T5::spec_faithful() { assert(u5 =~= start.subrange((start.len() - u5.len()) as int, start.len() as int)); } }
        let a5 = T5::deserialize(deserializer)?;
        proof { if T0::spec_faithful() && T1::spec_faithful() && T2::spec_faithful() && T3::spec_faithful() && T4::spec_faithful() && T5::spec_faithful() { T5::lemma_decode_bounded(u5); } }
        proof { if T0::spec_faithful() && T1::spec_faithful() && T2::spec_faithful() && T3::spec_faithful() && T4::spec_faithful() && T5::spec_faithful() { assert(deserializer.unread() =~= start.subrange((start.len() - deserializer.unread().len()) as int, start.len() as int)); } }
        Ok((a0, a1, a2, a3, a4, a5))
    }

    #[verifier::rlimit(100)]
    #[verifier::spinoff_prover]
    fn deserialize_in_place<R: ReadUninit>(&mut self, deserializer: &mut Deserializer<R>) -> (r: Result<()>) {
        let ghost start = deserializer.unread();
        let ghost u0 = deserializer.unread();
        proof { if T0::spec_faithful() && T1::spec_faithful() && T2::spec_faithful() && T3::spec_faithful() && T4::spec_faithful() && T5::spec_faithful() { assert(u0 =~= start.subrange((start.len() - u0.len()) as int, start.len() as int)); } }
        self.0.deserialize_in_place(deserializer)?;
        proof { if T0::spec_faithful() && T1::spec_faithful() && T2::spec_faithful() && T3::spec_faithful() && T4::spec_faithful() && T5::spec_faithful() { T0::lemma_decode_bounded(u0); } }
        let ghost u1 = deserializer.unread();
        proof { if T0::spec_faithful() && T1::spec_faithful() && T2::spec_faithful() && T3::spec_faithful() && T4::spec_faithful() && T5::spec_faithful() { assert(u1 =~= start.subrange((start.len() - u1.len()) as int, start.len() as int)); } }
        self.1.deserialize_in_place(deserializer)?;
        proof { if T0::spec_faithful() && T1::spec_faithful() && T2::spec_faithful() && T3::spec_faithful() && T4::spec_faithful() && T5::spec_faithful() { T1::lemma_decode_bounded(u1); } }
        let ghost u2 = deserializer.unread();
        proof { if T0::spec_faithful() && T1::spec_faithful() && T2::spec_faithful() && T3::spec_faithful() && T4::spec_faithful() && T5::spec_faithful() { assert(u2 =~= start.subrange((start.len() - u2.len()) as int, start.len() as int)); } }
        self.2.deserialize_in_place(deserializer)?;
        proof { if T0::spec_faithful() && T1::spec_faithful() && T2::spec_faithful() && T3::spec_faithful() && T4::spec_faithful() && T5::spec_faithful() { T2::lemma_decode_bounded(u2); } }
        let ghost u3 = deserializer.unread();
        proof { if T0::spec_faithful() && T1::spec_faithful() && T2::spec_faithful() && T3::spec_faithful() && T4::spec_faithful() && T5::spec_faithful() { assert(u3 =~= start.subrange((start.len() - u3.len()) as int, start.len() as int)); } }
        self.3.deserialize_in_place(deserializer)?;
        proof { if T0::spec_faithful() && T1::spec_faithful() && T2::spec_faithful() && T3::spec_faithful() && T4::spec_faithful() && T5::spec_faithful() { T3::lemma_decode_bounded(u3); } }
        let ghost u4 = deserializer.unread();
        proof { if T0::spec_faithful() && T1::spec_faithful() && T2::spec_faithful() && T3::spec_faithful() && T4::spec_faithful() && T5::spec_faithful() { assert(u4 =~= start.subrange((start.len() - u4.len()) as int, start.len() as int)); } }
        self.4.deserialize_in_place(deserializer)?;
        proof { if T0::spec_faithful() && T1::spec_faithful() && T2::spec_faithful() && T3::spec_faithful() && T4::spec_faithful() && T5::spec_faithful() { T4::lemma_decode_bounded(u4); } }
        let ghost u5 = deserializer.unread();
        proof { if T0::spec_faithful() && T1::spec_faithful() && T2::spec_faithful() && T3::spec_faithful() && T4::spec_faithful() && T5::spec_faithful() { assert(u5 =~= start.subrange((start.len() - u5.len()) as int, start.len() as int)); } }
        self.5.deserialize_in_place(deserializer)?;
        proof { if T0::spec_faithful() && T1::spec_faithful() && T2::spec_faithful() && T3::spec_faithful() && T4::spec_faithful() && T5::spec_faithful() { T5::lemma_decode_bounded(u5); } }
        proof { if T0::spec_faithful() && T1::spec_faithful() && T2::spec_faithful() && T3::spec_faithful() && T4::spec_faithful() && T5::spec_faithful() { assert(deserializer.unread() =~= start.subrange((start.len() - deserializer.unread().len()) as int, start.len() as int)); } }
        Ok(())
    }
}

impl<T0: WireFormat, T1: WireFormat, T2: WireFormat, T3: WireFormat, T4: WireFormat, T5: WireFormat, T6: WireFormat> WireFormat for (T0, T1, T2, T3, T4, T5, T6) {
    type Model = (T0::Model, T1::Model, T2::Model, T3::Model, T4::Model, T5::Model, T6::Model);

    open spec fn model(&self) -> (T0::Model, T1::Model, T2::Model, T3::Model, T4::Model, T5::Model, T6::Model) {
        (self.0.model(), self.1.model(), self.2.model(), self.3.model(), self.4.model(), self.5.model(), self.6.model())
    }

    open spec fn spec_encodes(m: (T0::Model, T1::Model, T2::Model, T3::Model, T4::Model, T5::Model, T6::Model), bytes: Seq<u8>) -> bool {
        exists|k1: int| 0 <= k1 <= bytes.len() && #[trigger] T0::spec_encodes(m.0, bytes.subrange(0, k1)) && (exists|k2: int| k1 <= k2 <= bytes.len() && #[trigger] T1::spec_encodes(m.1, bytes.subrange(k1, k2)) && (exists|k3: int| k2 <= k3 <= bytes.len() && #[trigger] T2::spec_encodes(m.2, bytes.subrange(k2, k3)) && (exists|k4: int| k3 <= k4 <= bytes.len() && #[trigger] T3::spec_encodes(m.3, bytes.subrange(k3, k4)) && (exists|k5: int| k4 <= k5 <= bytes.len() && #[trigger] T4::spec_encodes(m.4, bytes.subrange(k4, k5)) && (exists|k6: int| k5 <= k6 <= bytes.len() && #[trigger] T5::spec_encodes(m.5, bytes.subrange(k5, k6)) && (T6::spec_encodes(m.6, bytes.subrange(k6, bytes.len() as int))))))))
    }

    open spec fn spec_encodable(m: (T0::Model, T1::Model, T2::Model, T3::Model, T4::Model, T5::Model, T6::Model)) -> bool {
        T0::spec_encodable(m.0) && T1::spec_encodable(m.1) && T2::spec_encodable(m.2) && T3::spec_encodable(m.3) && T4::spec_encodable(m.4) && T5::spec_encodable(m.5) && T6::spec_encodable(m.6)
    }

    open spec fn spec_decode(bytes: Seq<u8>) -> Option<((T0::Model, T1::Model, T2::Model, T3::Model, T4::Model, T5::Model, T6::Model), nat)> {
        match T0::spec_decode(bytes.subrange((0) as int, bytes.len() as int)) { None => None, Some((a0, n0)) => if 0 + n0 > bytes.len() { None } else { match T1::spec_decode(bytes.subrange((0 + n0) as int, bytes.len() as int)) { None => None, Some((a1, n1)) => if 0 + n0 + n1 > bytes.len() { None } else { match T2::spec_decode(bytes.subrange((0 + n0 + n1) as int, bytes.len() as int)) { None => None, Some((a2, n2)) => if 0 + n0 + n1 + n2 > bytes.len() { None } else { match T3::spec_decode(bytes.subrange((0 + n0 + n1 + n2) as int, bytes.len() as int)) { None => None, Some((a3, n3)) => if 0 + n0 + n1 + n2 + n3 > bytes.len() { None } else { match T4::spec_decode(bytes.subrange((0 + n0 + n1 + n2 + n3) as int, bytes.len() as int)) { None => None, Some((a4, n4)) => if 0 + n0 + n1 + n2 + n3 + n4 > bytes.len() { None } else { match T5::spec_decode(bytes.subrange((0 + n0 + n1 + n2 + n3 + n4) as int, bytes.len() as int)) { None => None, Some((a5, n5)) => if 0 + n0 + n1 + n2 + n3 + n4 + n5 > bytes.len() { None } else { match T6::spec_decode(bytes.subrange((0 + n0 + n1 + n2 + n3 + n4 + n5) as int, bytes.len() as int)) { None => None, Some((a6, n6)) => if 0 + n0 + n1 + n2 + n3 + n4 + n5 + n6 > bytes.len() { None } else { Some(((a0, a1, a2, a3, a4, a5, a6), 0 + n0 + n1 + n2 + n3 + n4 + n5 + n6 as nat)) } } } } } } } } } } } } } }
    }

    open spec fn spec_faithful() -> bool {
        T0::spec_faithful() && T1::spec_faithful() && T2::spec_faithful() && T3::spec_faithful() && T4::spec_faithful() && T5::spec_faithful() && T6::spec_faithful()
    }

    #[verifier::rlimit(100)]
    #[verifier::spinoff_prover]
    proof fn lemma_round_trip(m: (T0::Model, T1::Model, T2::Model, T3::Model, T4::Model, T5::Model, T6::Model), bytes: Seq<u8>, rest: Seq<u8>) {
        let k1 = choose|k1: int| 0 <= k1 <= bytes.len() && #[trigger] T0::spec_encodes(m.0, bytes.subrange(0, k1)) && (exists|k2: int| k1 <= k2 <= bytes.len() && #[trigger] T1::spec_encodes(m.1, bytes.subrange(k1, k2)) && (exists|k3: int| k2 <= k3 <= bytes.len() && #[trigger] T2::spec_encodes(m.2, bytes.subrange(k2, k3)) && (exists|k4: int| k3 <= k4 <= bytes.len() && #[trigger] T3::spec_encodes(m.3, bytes.subrange(k3, k4)) && (exists|k5: int| k4 <= k5 <= bytes.len() && #[trigger] T4::spec_encodes(m.4, bytes.subrange(k4, k5)) && (exists|k6: int| k5 <= k6 <= bytes.len() && #[trigger] T5::spec_encodes(m.5, bytes.subrange(k5, k6)) && (T6::spec_encodes(m.6, bytes.subrange(k6, bytes.len() as int))))))));
        let k2 = choose|k2: int| k1 <= k2 <= bytes.len() && #[trigger] T1::spec_encodes(m.1, bytes.subrange(k1, k2)) && (exists|k3: int| k2 <= k3 <= bytes.len() && #[trigger] T2::spec_encodes(m.2, bytes.subrange(k2, k3)) && (exists|k4: int| k3 <= k4 <= bytes.len() && #[trigger] T3::spec_encodes(m.3, bytes.subrange(k3, k4)) && (exists|k5: int| k4 <= k5 <= bytes.len() && #[trigger] T4::spec_encodes(m.4, bytes.subrange(k4, k5)) && (exists|k6: int| k5 <= k6 <= bytes.len() && #[trigger] T5::spec_encodes(m.5, bytes.subrange(k5, k6)) && (T6::spec_encodes(m.6, bytes.subrange(k6, bytes.len() as int)))))));
        let k3 = choose|k3: int| k2 <= k3 <= bytes.len() && #[trigger] T2::spec_encodes(m.2, bytes.subrange(k2, k3)) && (exists|k4: int| k3 <= k4 <= bytes.len() && #[trigger] T3::spec_encodes(m.3, bytes.subrange(k3, k4)) && (exists|k5: int| k4 <= k5 <= bytes.len() && #[trigger] T4::spec_encodes(m.4, bytes.subrange(k4, k5)) && (exists|k6: int| k5 <= k6 <= bytes.len() && #[trigger] T5::spec_encodes(m.5, bytes.subrange(k5, k6)) && (T6::spec_encodes(m.6, bytes.subrange(k6, bytes.len() as int))))));
        let k4 = choose|k4: int| k3 <= k4 <= bytes.len() && #[trigger] T3::spec_encodes(m.3, bytes.subrange(k3, k4)) && (exists|k5: int| k4 <= k5 <= bytes.len() && #[trigger] T4::spec_encodes(m.4, bytes.subrange(k4, k5)) && (exists|k6: int| k5 <= k6 <= bytes.len() && #[trigger] T5::spec_encodes(m.5, bytes.subrange(k5, k6)) && (T6::spec_encodes(m.6, bytes.subrange(k6, bytes.len() as int)))));
        let k5 = choose|k5: int| k4 <= k5 <= bytes.len() && #[trigger] T4::spec_encodes(m.4, bytes.subrange(k4, k5)) && (exists|k6: int| k5 <= k6 <= bytes.len() && #[trigger] T5::spec_encodes(m.5, bytes.subrange(k5, k6)) && (T6::spec_encodes(m.6, bytes.subrange(k6, bytes.len() as int))));
        let k6 = choose|k6: int| k5 <= k6 <= bytes.len() && #[trigger] T5::spec_encodes(m.5, bytes.subrange(k5, k6)) && (T6::spec_encodes(m.6, bytes.subrange(k6, bytes.len() as int)));
        lemma_field_round_trip::<T0>(m.0, bytes, rest, 0, k1);
        lemma_field_round_trip::<T1>(m.1, bytes, rest, k1, k2);
        lemma_field_round_trip::<T2>(m.2, bytes, rest, k2, k3);
        lemma_field_round_trip::<T3>(m.3, bytes, rest, k3, k4);
        lemma_field_round_trip::<T4>(m.4, bytes, rest, k4, k5);
        lemma_field_round_trip::<T5>(m.5, bytes, rest, k5, k6);
        lemma_field_round_trip::<T6>(m.6, bytes, rest, k6, bytes.len() as int);
    }

    proof fn lemma_decode_bounded(bytes: Seq<u8>) {
    }
}

impl<T0: Serialize, T1: Serialize, T2: Serialize, T3: Serialize, T4: Serialize, T5: Serialize, T6: Serialize> Serialize for (T0, T1, T2, T3, T4, T5, T6) {
    #[verifier::rlimit(100)]
    #[verifier::spinoff_prover]
    fn serialize<W: WriteUninit>(&self, serializer: &mut Serializer<W>) -> (r: Result<()>) {
        let ghost w0 = serializer.written();
        self.0.serialize(serializer)?;
        let ghost w1 = serializer.written();
        self.1.serialize(serializer)?;
        let ghost w2 = serializer.written();
        self.2.serialize(serializer)?;
        let ghost w3 = serializer.written();
        self.3.serialize(serializer)?;
        let ghost w4 = serializer.written();
        self.4.serialize(serializer)?;
        let ghost w5 = serializer.written();
        self.5.serialize(serializer)?;
        let ghost w6 = serializer.written();
        self.6.serialize(serializer)?;
        let ghost w7 = serializer.written();
        proof {
            if T0::spec_faithful() && T1::spec_faithful() && T2::spec_faithful() && T3::spec_faithful() && T4::spec_faithful() && T5::spec_faithful() && T6::spec_faithful() {
                lemma_extends_trans(w0, w1, w2);
                lemma_extends_trans(w0, w2, w3);
                lemma_extends_trans(w0, w3, w4);
                lemma_extends_trans(w0, w4, w5);
                lemma_extends_trans(w0, w5, w6);
                lemma_extends_trans(w0, w6, w7);
                let all = appended(w0, w7);
                let m = self.model();
                let k1 = (w1.len() - w0.len()) as int;
                let k2 = (w2.len() - w0.len()) as int;
                let k3 = (w3.len() - w0.len()) as int;
                let k4 = (w4.len() - w0.len()) as int;
                let k5 = (w5.len() - w0.len()) as int;
                let k6 = (w6.len() - w0.len()) as int;
                assert(all.subrange(0, k1) =~= appended(w0, w1));
                assert(T0::spec_encodes(m.0, all.subrange(0, k1)));
                assert(all.subrange(k1, k2) =~= appended(w1, w2));
                assert(T1::spec_encodes(m.1, all.subrange(k1, k2)));
                assert(all.subrange(k2, k3) =~= appended(w2, w3));
                assert(T2::spec_encodes(m.2, all.subrange(k2, k3)));
                assert(all.subrange(k3, k4) =~= appended(w3, w4));
                assert(T3::spec_encodes(m.3, all.subrange(k3, k4)));
                assert(all.subrange(k4, k5) =~= appended(w4, w5));
                assert(T4::spec_encodes(m.4, all.subrange(k4, k5)));
                assert(all.subrange(k5, k6) =~= appended(w5, w6));
                assert(T5::spec_encodes(m.5, all.subrange(k5, k6)));
                assert(all.subrange(k6, all.len() as int) =~= appended(w6, w7));
                assert(T6::spec_encodes(m.6, all.subrange(k6, all.len() as int)));
            }
        }
        Ok(())
    }
}

impl<T0: Deserialize, T1: Deserialize, T2: Deserialize, T3: Deserialize, T4: Deserialize, T5: Deserialize, T6: Deserialize> Deserialize for (T0, T1, T2, T3, T4, T5, T6) {
    #[verifier::rlimit(100)]
    #[verifier::spinoff_prover]
    fn deserialize<R: ReadUninit>(deserializer: &mut Deserializer<R>) -> (r: Result<Self>) {
        let ghost start = deserializer.unread();
        let ghost u0 = deserializer.unread();
        proof { if T0::spec_faithful() && T1::spec_faithful() && T2::spec_faithful() && T3::spec_faithful() && T4::spec_faithful() && T5::spec_faithful() && T6::spec_faithful() { assert(u0 =~= start.subrange((start.len() - u0.len()) as int, start.len() as int)); } }
        let a0 = T0::deserialize(deserializer)?;
        proof { if T0::spec_faithful() && T1::spec_faithful() && T2::spec_faithful() && T3::spec_faithful() && T4::spec_faithful() && T5::spec_faithful() && T6::spec_faithful() { T0::lemma_decode_bounded(u0); } }
        let ghost u1 = deserializer.unread();
        proof { if T0::spec_faithful() && T1::spec_faithful() && T2::spec_faithful() && T3::spec_faithful() && T4::spec_faithful() && T5::spec_faithful() && T6::spec_faithful() { assert(u1 =~= start.subrange((start.len() - u1.len()) as int, start.len() as int)); } }
        let a1 = T1::deserialize(deserializer)?;
        proof { if T0::spec_faithful() && T1::spec_faithful() && T2::spec_faithful() && T3::spec_faithful() && T4::spec_faithful() && T5::spec_faithful() && T6::spec_faithful() { T1::lemma_decode_bounded(u1); } }
        let ghost u2 = deserializer.unread();
        proof { if T0::spec_faithful() && T1::spec_faithful() && T2::spec_faithful() && T3::spec_faithful() && T4::spec_faithful() && T5::spec_faithful() && T6::spec_faithful() { assert(u2 =~= start.subrange((start.len() - u2.len()) as int, start.len() as int)); } }
        let a2 = T2::deserialize(deserializer)?;
        proof { if T0::spec_faithful() && T1::spec_faithful() && T2::spec_faithful() && T3::spec_faithful() && T4::spec_faithful() && T5::spec_faithful() && T6::spec_faithful() { T2::lemma_decode_bounded(u2); } }
        let ghost u3 = deserializer.unread();
        proof { if T0::spec_faithful() && T1::spec_faithful() && T2::spec_faithful() && T3::spec_faithful() && T4::spec_faithful() && T5::spec_faithful() && T6::spec_faithful() { assert(u3 =~= start.subrange((start.len() - u3.len()) as int, start.len() as int)); } }
        let a3 = T3::deserialize(deserializer)?;
        proof { if T0::spec_faithful() && T1::spec_faithful() && T2::spec_faithful() && T3::spec_faithful() && T4::spec_faithful() && T5::spec_faithful() && T6::spec_faithful() { T3::lemma_decode_bounded(u3); } }
        let ghost u4 = deserializer.unread();
        proof { if T0::spec_faithful() && T1::spec_faithful() && T2::spec_faithful() && T3::spec_faithful() && T4::spec_faithful() && T5::spec_faithful() && T6::spec_faithful() { assert(u4 =~= start.subrange((start.len() - u4.len()) as int, start.len() as int)); } }
        let a4 = T4::deserialize(deserializer)?;
        proof { if T0::spec_faithful() && T1::spec_faithful() && T2::spec_faithful() && T3::spec_faithful() && T4::spec_faithful() && T5::spec_faithful() && T6::spec_faithful() { T4::lemma_decode_bounded(u4); } }
        let ghost u5 = deserializer.unread();
        proof { if T0::spec_faithful() && T1::spec_faithful() && T2::spec_faithful() && T3::spec_faithful() && T4::spec_faithful() && T5::spec_faithful() && T6::spec_faithful() { assert(u5 =~= start.subrange((start.len() - u5.len()) as int, start.len() as int)); } }
        let a5 = T5::deserialize(deserializer)?;
        proof { if T0::spec_faithful() && T1::spec_faithful() && T2::spec_faithful() && T3::spec_faithful() && T4::spec_faithful() && T5::spec_faithful() && T6::spec_faithful() { T5::lemma_decode_bounded(u5); } }
        let ghost u6 = deserializer.unread();
        proof { if T0::spec_faithful() && T1::spec_faithful() && T2::spec_faithful() && T3::spec_faithful() && T4::spec_faithful() && T5::spec_faithful() && T6::spec_faithful() { assert(u6 =~= start.subrange((start.len() - u6.len()) as int, start.len() as int)); } }
        let a6 = T6::deserialize(deserializer)?;
        proof { if T0::spec_faithful() && T1::spec_faithful() && T2::spec_faithful() && T3::spec_faithful() && T4::spec_faithful() && T5::spec_faithful() && T6::spec_faithful() { T6::lemma_decode_bounded(u6); } }
        proof { if T0::spec_faithful() && T1::spec_faithful() && T2::spec_faithful() && T3::spec_faithful() && T4::spec_faithful() && T5::spec_faithful() && T6::spec_faithful() { assert(deserializer.unread() =~= start.subrange((start.len() - deserializer.unread().len()) as int, start.len() as int)); } }
        Ok((a0, a1, a2, a3, a4, a5, a6))
    }

    #[verifier::rlimit(100)]
    #[verifier::spinoff_prover]
    fn deserialize_in_place<R: ReadUninit>(&mut self, deserializer: &mut Deserializer<R>) -> (r: Result<()>) {
        let ghost start = deserializer.unread();
        let ghost u0 = deserializer.unread();
        proof { if T0::spec_faithful() && T1::spec_faithful() && T2::spec_faithful() && T3::spec_faithful() && T4::spec_faithful() && T5::spec_faithful() && T6::spec_faithful() { assert(u0 =~= start.subrange((start.len() - u0.len()) as int, start.len() as int)); } }
        self.0.deserialize_in_place(deserializer)?;
        proof { if T0::spec_faithful() && T1::spec_faithful() && T2::spec_faithful() && T3::spec_faithful() && T4::spec_faithful() && T5::spec_faithful() && T6::spec_faithful() { T0::lemma_decode_bounded(u0); } }
        let ghost u1 = deserializer.unread();
        proof { if T0::spec_faithful() && T1::spec_faithful() && T2::spec_faithful() && T3::spec_faithful() && T4::spec_faithful() && T5::spec_faithful() && T6::spec_faithful() { assert(u1 =~= start.subrange((start.len() - u1.len()) as int, start.len() as int)); } }
        self.1.deserialize_in_place(deserializer)?;
        proof { if T0::spec_faithful() && T1::spec_faithful() && T2::spec_faithful() && T3::spec_faithful() && T4::spec_faithful() && T5::spec_faithful() && T6::spec_faithful() { T1::lemma_decode_bounded(u1); } }
        let ghost u2 = deserializer.unread();
        proof { if T0::spec_faithful() && T1::spec_faithful() && T2::spec_faithful() && T3::spec_faithful() && T4::spec_faithful() && T5::spec_faithful() && T6::spec_faithful() { assert(u2 =~= start.subrange((start.len() - u2.len()) as int, start.len() as int)); } }
        self.2.deserialize_in_place(deserializer)?;
        proof { if T0::spec_faithful() && T1::spec_faithful() && T2::spec_faithful() && T3::spec_faithful() && T4::spec_faithful() && T5::spec_faithful() && T6::spec_faithful() { T2::lemma_decode_bounded(u2); } }
        let ghost u3 = deserializer.unread();
        proof { if T0::spec_faithful() && T1::spec_faithful() && T2::spec_faithful() && T3::spec_faithful() && T4::spec_faithful() && T5::spec_faithful() && T6::spec_faithful() { assert(u3 =~= start.subrange((start.len() - u3.len()) as int, start.len() as int)); } }
        self.3.deserialize_in_place(deserializer)?;
        proof { if T0::spec_faithful() && T1::spec_faithful() && T2::spec_faithful() && T3::spec_faithful() && T4::spec_faithful() && T5::spec_faithful() && T6::spec_faithful() { T3::lemma_decode_bounded(u3); } }
        let ghost u4 = deserializer.unread();
        proof { if T0::spec_faithful() && T1::spec_faithful() && T2::spec_faithful() && T3::spec_faithful() && T4::spec_faithful() && T5::spec_faithful() && T6::spec_faithful() { assert(u4 =~= start.subrange((start.len() - u4.len()) as int, start.len() as int)); } }
        self.4.deserialize_in_place(deserializer)?;
        proof { if T0::spec_faithful() && T1::spec_faithful() && T2::spec_faithful() && T3::spec_faithful() && T4::spec_faithful() && T5::spec_faithful() && T6::spec_faithful() { T4::lemma_decode_bounded(u4); } }
        let ghost u5 = deserializer.unread();
        proof { if T0::spec_faithful() && T1::spec_faithful() && T2::spec_faithful() && T3::spec_faithful() && T4::spec_faithful() && T5::spec_faithful() && T6::spec_faithful() { assert(u5 =~= start.subrange((start.len() - u5.len()) as int, start.len() as int)); } }
        self.5.deserialize_in_place(deserializer)?;
        proof { if T0::spec_faithful() && T1::spec_faithful() && T2::spec_faithful() && T3::spec_faithful() && T4::spec_faithful() && T5::spec_faithful() && T6::spec_faithful() { T5::lemma_decode_bounded(u5); } }
        let ghost u6 = deserializer.unread();
        proof { if T0::spec_faithful() && T1::spec_faithful() && T2::spec_faithful() && T3::spec_faithful() && T4::spec_faithful() && T5::spec_faithful() && T6::spec_faithful() { assert(u6 =~= start.subrange((start.len() - u6.len()) as int, start.len() as int)); } }
        self.6.deserialize_in_place(deserializer)?;
        proof { if T0::spec_faithful() && T1::spec_faithful() && T2::spec_faithful() && T3::spec_faithful() && T4::spec_faithful() && T5::spec_faithful() && T6::spec_faithful() { T6::lemma_decode_bounded(u6); } }
        proof { if T0::spec_faithful() && T1::spec_faithful() && T2::spec_faithful() && T3::spec_faithful() && T4::spec_faithful() && T5::spec_faithful() && T6::spec_faithful() { assert(deserializer.unread() =~= start.subrange((start.len() - deserializer.unread().len()) as int, start.len() as int)); } }
        Ok(())
    }
}

impl<T0: WireFormat, T1: WireFormat, T2: WireFormat, T3: WireFormat, T4: WireFormat, T5: WireFormat, T6: WireFormat, T7: WireFormat> WireFormat for (T0, T1, T2, T3, T4, T5, T6, T7) {
    type Model = (T0::Model, T1::Model, T2::Model, T3::Model, T4::Model, T5::Model, T6::Model, T7::Model);

    open spec fn model(&self) -> (T0::Model, T1::Model, T2::Model, T3::Model, T4::Model, T5::Model, T6::Model, T7::Model) {
        (self.0.model(), self.1.model(), self.2.model(), self.3.model(), self.4.model(), self.5.model(), self.6.model(), self.7.model())
    }

    open spec fn spec_encodes(m: (T0::Model, T1::Model, T2::Model, T3::Model, T4::Model, T5::Model, T6::Model, T7::Model), bytes: Seq<u8>) -> bool {
        exists|k1: int| 0 <= k1 <= bytes.len() && #[trigger] T0::spec_encodes(m.0, bytes.subrange(0, k1)) && (exists|k2: int| k1 <= k2 <= bytes.len() && #[trigger] T1::spec_encodes(m.1, bytes.subrange(k1, k2)) && (exists|k3: int| k2 <= k3 <= bytes.len() && #[trigger] T2::spec_encodes(m.2, bytes.subrange(k2, k3)) && (exists|k4: int| k3 <= k4 <= bytes.len() && #[trigger] T3::spec_encodes(m.3, bytes.subrange(k3, k4)) && (exists|k5: int| k4 <= k5 <= bytes.len() && #[trigger] T4::spec_encodes(m.4, bytes.subrange(k4, k5)) && (exists|k6: int| k5 <= k6 <= bytes.len() && #[trigger] T5::spec_encodes(m.5, bytes.subrange(k5, k6)) && (exists|k7: int| k6 <= k7 <= bytes.len() && #[trigger] T6::spec_encodes(m.6, bytes.subrange(k6, k7)) && (T7::spec_encodes(m.7, bytes.subrange(k7, bytes.len() as int)))))))))
    }

    open spec fn spec_encodable(m: (T0::Model, T1::Model, T2::Model, T3::Model, T4::Model, T5::Model, T6::Model, T7::Model)) -> bool {
        T0::spec_encodable(m.0) && T1::spec_encodable(m.1) && T2::spec_encodable(m.2) && T3::spec_encodable(m.3) && T4::spec_encodable(m.4) && T5::spec_encodable(m.5) && T6::spec_encodable(m.6) && T7::spec_encodable(m.7)
    }

    open spec fn spec_decode(bytes: Seq<u8>) -> Option<((T0::Model, T1::Model, T2::Model, T3::Model, T4::Model, T5::Model, T6::Model, T7::Model), nat)> {
        match T0::spec_decode(bytes.subrange((0) as int, bytes.len() as int)) { None => None, Some((a0, n0)) => if 0 + n0 > bytes.len() { None } else { match T1::spec_decode(bytes.subrange((0 + n0) as int, bytes.len() as int)) { None => None, Some((a1, n1)) => if 0 + n0 + n1 > bytes.len() { None } else { match T2::spec_decode(bytes.subrange((0 + n0 + n1) as int, bytes.len() as int)) { None => None, Some((a2, n2)) => if 0 + n0 + n1 + n2 > bytes.len() { None } else { match T3::spec_decode(bytes.subrange((0 + n0 + n1 + n2) as int, bytes.len() as int)) { None => None, Some((a3, n3)) => if 0 + n0 + n1 + n2 + n3 > bytes.len() { None } else { match T4::spec_decode(bytes.subrange((0 + n0 + n1 + n2 + n3) as int, bytes.len() as int)) { None => None, Some((a4, n4)) => if 0 + n0 + n1 + n2 + n3 + n4 > bytes.len() { None } else { match T5::spec_decode(bytes.subrange((0 + n0 + n1 + n2 + n3 + n4) as int, bytes.len() as int)) { None => None, Some((a5, n5)) => if 0 + n0 + n1 + n2 + n3 + n4 + n5 > bytes.len() { None } else { match T6::spec_decode(bytes.subrange((0 + n0 + n1 + n2 + n3 + n4 + n5) as int, bytes.len() as int)) { None => None, Some((a6, n6)) => if 0 + n0 + n1 + n2 + n3 + n4 + n5 + n6 > bytes.len() { None } else { match T7::spec_decode(bytes.subrange((0 + n0 + n1 + n2 + n3 + n4 + n5 + n6) as int, bytes.len() as int)) { None => None, Some((a7, n7)) => if 0 + n0 + n1 + n2 + n3 + n4 + n5 + n6 + n7 > bytes.len() { None } else { Some(((a0, a1, a2, a3, a4, a5, a6, a7), 0 + n0 + n1 + n2 + n3 + n4 + n5 + n6 + n7 as nat)) } } } } } } } } } } } } } } } }
    }

    open spec fn spec_faithful() -> bool {
        T0::spec_faithful() && T1::spec_faithful() && T2::spec_faithful() && T3::spec_faithful() && T4::spec_faithful() && T5::spec_faithful() && T6::spec_faithful() && T7::spec_faithful()
    }

    #[verifier::rlimit(100)]
    #[verifier::spinoff_prover]
    proof fn lemma_round_trip(m: (T0::Model, T1::Model, T2::Model, T3::Model, T4::Model, T5::Model, T6::Model, T7::Model), bytes: Seq<u8>, rest: Seq<u8>) {
        let k1 = choose|k1: int| 0 <= k1 <= bytes.len() && #[trigger] T0::spec_encodes(m.0, bytes.subrange(0, k1)) && (exists|k2: int| k1 <= k2 <= bytes.len() && #[trigger] T1::spec_encodes(m.1, bytes.subrange(k1, k2)) && (exists|k3: int| k2 <= k3 <= bytes.len() && #[trigger] T2::spec_encodes(m.2, bytes.subrange(k2, k3)) && (exists|k4: int| k3 <= k4 <= bytes.len() && #[trigger] T3::spec_encodes(m.3, bytes.subrange(k3, k4)) && (exists|k5: int| k4 <= k5 <= bytes.len() && #[trigger] T4::spec_encodes(m.4, bytes.subrange(k4, k5)) && (exists|k6: int| k5 <= k6 <= bytes.len() && #[trigger] T5::spec_encodes(m.5, bytes.subrange(k5, k6)) && (exists|k7: int| k6 <= k7 <= bytes.len() && #[trigger] T6::spec_encodes(m.6, bytes.subrange(k6, k7)) && (T7::spec_encodes(m.7, bytes.subrange(k7, bytes.len() as int)))))))));
        let k2 = choose|k2: int| k1 <= k2 <= bytes.len() && #[trigger] T1::spec_encodes(m.1, bytes.subrange(k1, k2)) && (exists|k3: int| k2 <= k3 <= bytes.len() && #[trigger] T2::spec_encodes(m.2, bytes.subrange(k2, k3)) && (exists|k4: int| k3 <= k4 <= bytes.len() && #[trigger] T3::spec_encodes(m.3, bytes.subrange(k3, k4)) && (exists|k5: int| k4 <= k5 <= bytes.len() && #[trigger] T4::spec_encodes(m.4, bytes.subrange(k4, k5)) && (exists|k6: int| k5 <= k6 <= bytes.len() && #[trigger] T5::spec_encodes(m.5, bytes.subrange(k5, k6)) && (exists|k7: int| k6 <= k7 <= bytes.len() && #[trigger] T6::spec_encodes(m.6, bytes.subrange(k6, k7)) && (T7::spec_encodes(m.7, bytes.subrange(k7, bytes.len() as int))))))));
        let k3 = choose|k3: int| k2 <= k3 <= bytes.len() && #[trigger] T2::spec_encodes(m.2, bytes.subrange(k2, k3)) && (exists|k4: int| k3 <= k4 <= bytes.len() && #[trigger] T3::spec_encodes(m.3, bytes.subrange(k3, k4)) && (exists|k5: int| k4 <= k5 <= bytes.len() && #[trigger] T4::spec_encodes(m.4, bytes.subrange(k4, k5)) && (exists|k6: int| k5 <= k6 <= bytes.len() && #[trigger] T5::spec_encodes(m.5, bytes.subrange(k5, k6)) && (exists|k7: int| k6 <= k7 <= bytes.len() && #[trigger] T6::spec_encodes(m.6, bytes.subrange(k6, k7)) && (T7::spec_encodes(m.7, bytes.subrange(k7, bytes.len() as int)))))));
        let k4 = choose|k4: int| k3 <= k4 <= bytes.len() && #[trigger] T3::spec_encodes(m.3, bytes.subrange(k3, k4)) && (exists|k5: int| k4 <= k5 <= bytes.len() && #[trigger] T4::spec_encodes(m.4, bytes.subrange(k4, k5)) && (exists|k6: int| k5 <= k6 <= bytes.len() && #[trigger] T5::spec_encodes(m.5, bytes.subrange(k5, k6)) && (exists|k7: int| k6 <= k7 <= bytes.len() && #[trigger] T6::spec_encodes(m.6, bytes.subrange(k6, k7)) && (T7::spec_encodes(m.7, bytes.subrange(k7, bytes.len() as int))))));
        let k5 = choose|k5: int| k4 <= k5 <= bytes.len() && #[trigger] T4::spec_encodes(m.4, bytes.subrange(k4, k5)) && (exists|k6: int| k5 <= k6 <= bytes.len() && #[trigger] T5::spec_encodes(m.5, bytes.subrange(k5, k6)) && (exists|k7: int| k6 <= k7 <= bytes.len() && #[trigger] T6::spec_encodes(m.6, bytes.subrange(k6, k7)) && (T7::spec_encodes(m.7, bytes.subrange(k7, bytes.len() as int)))));
        let k6 = choose|k6: int| k5 <= k6 <= bytes.len() && #[trigger] T5::spec_encodes(m.5, bytes.subrange(k5, k6)) && (exists|k7: int| k6 <= k7 <= bytes.len() && #[trigger] T6::spec_encodes(m.6, bytes.subrange(k6, k7)) && (T7::spec_encodes(m.7, bytes.subrange(k7, bytes.len() as int))));
        let k7 = choose|k7: int| k6 <= k7 <= bytes.len() && #[trigger] T6::spec_encodes(m.6, bytes.subrange(k6, k7)) && (T7::spec_encodes(m.7, bytes.subrange(k7, bytes.len() as int)));
        lemma_field_round_trip::<T0>(m.0, bytes, rest, 0, k1);
        lemma_field_round_trip::<T1>(m.1, bytes, rest, k1, k2);
        lemma_field_round_trip::<T2>(m.2, bytes, rest, k2, k3);
        lemma_field_round_trip::<T3>(m.3, bytes, rest, k3, k4);
        lemma_field_round_trip::<T4>(m.4, bytes, rest, k4, k5);
        lemma_field_round_trip::<T5>(m.5, bytes, rest, k5, k6);
        lemma_field_round_trip::<T6>(m.6, bytes, rest, k6, k7);
        lemma_field_round_trip::<T7>(m.7, bytes, rest, k7, bytes.len() as int);
    }

    proof fn lemma_decode_bounded(bytes: Seq<u8>) {
    }
}

impl<T0: Serialize, T1: Serialize, T2: Serialize, T3: Serialize, T4: Serialize, T5: Serialize, T6: Serialize, T7: Serialize> Serialize for (T0, T1, T2, T3, T4, T5, T6, T7) {
    #[verifier::rlimit(100)]
    #[verifier::spinoff_prover]
    fn serialize<W: WriteUninit>(&self, serializer: &mut Serializer<W>) -> (r: Result<()>) {
        let ghost w0 = serializer.written();
        self.0.serialize(serializer)?;
        let ghost w1 = serializer.written();
        self.1.serialize(serializer)?;
        let ghost w2 = serializer.written();
        self.2.serialize(serializer)?;
        let ghost w3 = serializer.written();
        self.3.serialize(serializer)?;
        let ghost w4 = serializer.written();
        self.4.serialize(serializer)?;
        let ghost w5 = serializer.written();
        self.5.serialize(serializer)?;
        let ghost w6 = serializer.written();
        self.6.serialize(serializer)?;
        let ghost w7 = serializer.written();
        self.7.serialize(serializer)?;
        let ghost w8 = serializer.written();
        proof {
            if T0::spec_faithful() && T1::spec_faithful() && T2::spec_faithful() && T3::spec_faithful() && T4::spec_faithful() && T5::spec_faithful() && T6::spec_faithful() && T7::spec_faithful() {
                lemma_extends_trans(w0, w1, w2);
                lemma_extends_trans(w0, w2, w3);
                lemma_extends_trans(w0, w3, w4);
                lemma_extends_trans(w0, w4, w5);
                lemma_extends_trans(w0, w5, w6);
                lemma_extends_trans(w0, w6, w7);
                lemma_extends_trans(w0, w7, w8);
                let all = appended(w0, w8);
                let m = self.model();
                let k1 = (w1.len() - w0.len()) as int;
                let k2 = (w2.len() - w0.len()) as int;
                let k3 = (w3.len() - w0.len()) as int;
                let k4 = (w4.len() - w0.len()) as int;
                let k5 = (w5.len() - w0.len()) as int;
                let k6 = (w6.len() - w0.len()) as int;
                let k7 = (w7.len() - w0.len()) as int;
                assert(all.subrange(0, k1) =~= appended(w0, w1));
                assert(T0::spec_encodes(m.0, all.subrange(0, k1)));
                assert(all.subrange(k1, k2) =~= appended(w1, w2));
                assert(T1::spec_encodes(m.1, all.subrange(k1, k2)));
                assert(all.subrange(k2, k3) =~= appended(w2, w3));
                assert(T2::spec_encodes(m.2, all.subrange(k2, k3)));
                assert(all.subrange(k3, k4) =~= appended(w3, w4));
                assert(T3::spec_encodes(m.3, all.subrange(k3, k4)));
                assert(all.subrange(k4, k5) =~= appended(w4, w5));
                assert(T4::spec_encodes(m.4, all.subrange(k4, k5)));
                assert(all.subrange(k5, k6) =~= appended(w5, w6));
                assert(T5::spec_encodes(m.5, all.subrange(k5, k6)));
                assert(all.subrange(k6, k7) =~= appended(w6, w7));
                assert(T6::spec_encodes(m.6, all.subrange(k6, k7)));
                assert(all.subrange(k7, all.len() as int) =~= appended(w7, w8));
                assert(T7::spec_encodes(m.7, all.subrange(k7, all.len() as int)));
            }
        }
        Ok(())
    }
}

impl<T0: Deserialize, T1: Deserialize, T2: Deserialize, T3: Deserialize, T4: Deserialize, T5: Deserialize, T6: Deserialize, T7: Deserialize> Deserialize for (T0, T1, T2, T3, T4, T5, T6, T7) {
    #[verifier::rlimit(100)]
    #[verifier::spinoff_prover]
    fn deserialize<R: ReadUninit>(deserializer: &mut Deserializer<R>) -> (r: Result<Self>) {
        let ghost start = deserializer.unread();
        let ghost u0 = deserializer.unread();
        proof { if T0::spec_faithful() && T1::spec_faithful() && T2::spec_faithful() && T3::spec_faithful() && T4::spec_faithful() && T5::spec_faithful() && T6::spec_faithful() && T7::spec_faithful() { assert(u0 =~= start.subrange((start.len() - u0.len()) as int, start.len() as int)); } }
        let a0 = T0::deserialize(deserializer)?;
        proof { if T0::spec_faithful() && T1::spec_faithful() && T2::spec_faithful() && T3::spec_faithful() && T4::spec_faithful() && T5::spec_faithful() && T6::spec_faithful() && T7::spec_faithful() { T0::lemma_decode_bounded(u0); } }
        let ghost u1 = deserializer.unread();
        proof { if T0::spec_faithful() && T1::spec_faithful() && T2::spec_faithful() && T3::spec_faithful() && T4::spec_faithful() && T5::spec_faithful() && T6::spec_faithful() && T7::spec_faithful() { assert(u1 =~= start.subrange((start.len() - u1.len()) as int, start.len() as int)); } }
        let a1 = T1::deserialize(deserializer)?;
        proof { if T0::spec_faithful() && T1::spec_faithful() && T2::spec_faithful() && T3::spec_faithful() && T4::spec_faithful() && T5::spec_faithful() && T6::spec_faithful() && T7::spec_faithful() { T1::lemma_decode_bounded(u1); } }
        let ghost u2 = deserializer.unread();
        proof { if T0::spec_faithful() && T1::spec_faithful() && T2::spec_faithful() && T3::spec_faithful() && T4::spec_faithful() && T5::spec_faithful() && T6::spec_faithful() && T7::spec_faithful() { assert(u2 =~= start.subrange((start.len() - u2.len()) as int, start.len() as int)); } }
        let a2 = T2::deserialize(deserializer)?;
        proof { if T0::spec_faithful() && T1::spec_faithful() && T2::spec_faithful() && T3::spec_faithful() && T4::spec_faithful() && T5::spec_faithful() && T6::spec_faithful() && T7::spec_faithful() { T2::lemma_decode_bounded(u2); } }
        let ghost u3 = deserializer.unread();
        proof { if T0::spec_faithful() && T1::spec_faithful() && T2::spec_faithful() && T3::spec_faithful() && T4::spec_faithful() && T5::spec_faithful() && T6::spec_faithful() && T7::spec_faithful() { assert(u3 =~= start.subrange((start.len() - u3.len()) as int, start.len() as int)); } }
        let a3 = T3::deserialize(deserializer)?;
        proof { if T0::spec_faithful() && T1::spec_faithful() && T2::spec_faithful() && T3::spec_faithful() && T4::spec_faithful() && T5::spec_faithful() && T6::spec_faithful() && T7::spec_faithful() { T3::lemma_decode_bounded(u3); } }
        let ghost u4 = deserializer.unread();
        proof { if T0::spec_faithful() && T1::spec_faithful() && T2::spec_faithful() && T3::spec_faithful() && T4::spec_faithful() && T5::spec_faithful() && T6::spec_faithful() && T7::spec_faithful() { assert(u4 =~= start.subrange((start.len() - u4.len()) as int, start.len() as int)); } }
        let a4 = T4::deserialize(deserializer)?;
        proof { if T0::spec_faithful() && T1::spec_faithful() && T2::spec_faithful() && T3::spec_faithful() && T4::spec_faithful() && T5::spec_faithful() && T6::spec_faithful() && T7::spec_faithful() { T4::lemma_decode_bounded(u4); } }
        let ghost u5 = deserializer.unread();
        proof { if T0::spec_faithful() && T1::spec_faithful() && T2::spec_faithful() && T3::spec_faithful() && T4::spec_faithful() && T5::spec_faithful() && T6::spec_faithful() && T7::spec_faithful() { assert(u5 =~= start.subrange((start.len() - u5.len()) as int, start.len() as int)); } }
        let a5 = T5::deserialize(deserializer)?;
        proof { if T0::spec_faithful() && T1::spec_faithful() && T2::spec_faithful() && T3::spec_faithful() && T4::spec_faithful() && T5::spec_faithful() && T6::spec_faithful() && T7::spec_faithful() { T5::lemma_decode_bounded(u5); } }
        let ghost u6 = deserializer.unread();
        proof { if T0::spec_faithful() && T1::spec_faithful() && T2::spec_faithful() && T3::spec_faithful() && T4::spec_faithful() && T5::spec_faithful() && T6::spec_faithful() && T7::spec_faithful() { assert(u6 =~= start.subrange((start.len() - u6.len()) as int, start.len() as int)); } }
        let a6 = T6::deserialize(deserializer)?;
        proof { if T0::spec_faithful() && T1::spec_faithful() && T2::spec_faithful() && T3::spec_faithful() && T4::spec_faithful() && T5::spec_faithful() && T6::spec_faithful() && T7::spec_faithful() { T6::lemma_decode_bounded(u6); } }
        let ghost u7 = deserializer.unread();
        proof { if T0::spec_faithful() && T1::spec_faithful() && T2::spec_faithful() && T3::spec_faithful() && T4::spec_faithful() && T5::spec_faithful() && T6::spec_faithful() && T7::spec_faithful() { assert(u7 =~= start.subrange((start.len() - u7.len()) as int, start.len() as int)); } }
        let a7 = T7::deserialize(deserializer)?;
        proof { if T0::spec_faithful() && T1::spec_faithful() && T2::spec_faithful() && T3::spec_faithful() && T4::spec_faithful() && T5::spec_faithful() && T6::spec_faithful() && T7::spec_faithful() { T7::lemma_decode_bounded(u7); } }
        proof { if T0::spec_faithful() && T1::spec_faithful() && T2::spec_faithful() && T3::spec_faithful() && T4::spec_faithful() && T5::spec_faithful() && T6::spec_faithful() && T7::spec_faithful() { assert(deserializer.unread() =~= start.subrange((start.len() - deserializer.unread().len()) as int, start.len() as int)); } }
        Ok((a0, a1, a2, a3, a4, a5, a6, a7))
    }

    #[verifier::rlimit(100)]
    #[verifier::spinoff_prover]
    fn deserialize_in_place<R: ReadUninit>(&mut self, deserializer: &mut Deserializer<R>) -> (r: Result<()>) {
        let ghost start = deserializer.unread();
        let ghost u0 = deserializer.unread();
        proof { if T0::spec_faithful() && T1::spec_faithful() && T2::spec_faithful() && T3::spec_faithful() && T4::spec_faithful() && T5::spec_faithful() && T6::spec_faithful() && T7::spec_faithful() { assert(u0 =~= start.subrange((start.len() - u0.len()) as int, start.len() as int)); } }
        self.0.deserialize_in_place(deserializer)?;
        proof { if T0::spec_faithful() && T1::spec_faithful() && T2::spec_faithful() && T3::spec_faithful() && T4::spec_faithful() && T5::spec_faithful() && T6::spec_faithful() && T7::spec_faithful() { T0::lemma_decode_bounded(u0); } }
        let ghost u1 = deserializer.unread();
        proof { if T0::spec_faithful() && T1::spec_faithful() && T2::spec_faithful() && T3::spec_faithful() && T4::spec_faithful() && T5::spec_faithful() && T6::spec_faithful() && T7::spec_faithful() { assert(u1 =~= start.subrange((start.len() - u1.len()) as int, start.len() as int)); } }
        self.1.deserialize_in_place(deserializer)?;
        proof { if T0::spec_faithful() && T1::spec_faithful() && T2::spec_faithful() && T3::spec_faithful() && T4::spec_faithful() && T5::spec_faithful() && T6::spec_faithful() && T7::spec_faithful() { T1::lemma_decode_bounded(u1); } }
        let ghost u2 = deserializer.unread();
        proof { if T0::spec_faithful() && T1::spec_faithful() && T2::spec_faithful() && T3::spec_faithful() && T4::spec_faithful() && T5::spec_faithful() && T6::spec_faithful() && T7::spec_faithful() { assert(u2 =~= start.subrange((start.len() - u2.len()) as int, start.len() as int)); } }
        self.2.deserialize_in_place(deserializer)?;
        proof { if T0::spec_faithful() && T1::spec_faithful() && T2::spec_faithful() && T3::spec_faithful() && T4::spec_faithful() && T5::spec_faithful() && T6::spec_faithful() && T7::spec_faithful() { T2::lemma_decode_bounded(u2); } }
        let ghost u3 = deserializer.unread();
        proof { if T0::spec_faithful() && T1::spec_faithful() && T2::spec_faithful() && T3::spec_faithful() && T4::spec_faithful() && T5::spec_faithful() && T6::spec_faithful() && T7::spec_faithful() { assert(u3 =~= start.subrange((start.len() - u3.len()) as int, start.len() as int)); } }
        self.3.deserialize_in_place(deserializer)?;
        proof { if T0::spec_faithful() && T1::spec_faithful() && T2::spec_faithful() && T3::spec_faithful() && T4::spec_faithful() && T5::spec_faithful() && T6::spec_faithful() && T7::spec_faithful() { T3::lemma_decode_bounded(u3); } }
        let ghost u4 = deserializer.unread();
        proof { if T0::spec_faithful() && T1::spec_faithful() && T2::spec_faithful() && T3::spec_faithful() && T4::spec_faithful() && T5::spec_faithful() && T6::spec_faithful() && T7::spec_faithful() { assert(u4 =~= start.subrange((start.len() - u4.len()) as int, start.len() as int)); } }
        self.4.deserialize_in_place(deserializer)?;
        proof { if T0::spec_faithful() && T1::spec_faithful() && T2::spec_faithful() && T3::spec_faithful() && T4::spec_faithful() && T5::spec_faithful() && T6::spec_faithful() && T7::spec_faithful() { T4::lemma_decode_bounded(u4); } }
        let ghost u5 = deserializer.unread();
        proof { if T0::spec_faithful() && T1::spec_faithful() && T2::spec_faithful() && T3::spec_faithful() && T4::spec_faithful() && T5::spec_faithful() && T6::spec_faithful() && T7::spec_faithful() { assert(u5 =~= start.subrange((start.len() - u5.len()) as int, start.len() as int)); } }
        self.5.deserialize_in_place(deserializer)?;
        proof { if T0::spec_faithful() && T1::spec_faithful() && T2::spec_faithful() && T3::spec_faithful() && T4::spec_faithful() && T5::spec_faithful() && T6::spec_faithful() && T7::spec_faithful() { T5::lemma_decode_bounded(u5); } }
        let ghost u6 = deserializer.unread();
        proof { if T0::spec_faithful() && T1::spec_faithful() && T2::spec_faithful() && T3::spec_faithful() && T4::spec_faithful() && T5::spec_faithful() && T6::spec_faithful() && T7::spec_faithful() { assert(u6 =~= start.subrange((start.len() - u6.len()) as int, start.len() as int)); } }
        self.6.deserialize_in_place(deserializer)?;
        proof { if T0::spec_faithful() && T1::spec_faithful() && T2::spec_faithful() && T3::spec_faithful() && T4::spec_faithful() && T5::spec_faithful() && T6::spec_faithful() && T7::spec_faithful() { T6::lemma_decode_bounded(u6); } }
        let ghost u7 = deserializer.unread();
        proof { if T0::spec_faithful() && T1::spec_faithful() && T2::spec_faithful() && T3::spec_faithful() && T4::spec_faithful() && T5::spec_faithful() && T6::spec_faithful() && T7::spec_faithful() { assert(u7 =~= start.subrange((start.len() - u7.len()) as int, start.len() as int)); } }
        self.7.deserialize_in_place(deserializer)?;
        proof { if T0::spec_faithful() && T1::spec_faithful() && T2::spec_faithful() && T3::spec_faithful() && T4::spec_faithful() && T5::spec_faithful() && T6::spec_faithful() && T7::spec_faithful() { T7::lemma_decode_bounded(u7); } }
        proof { if T0::spec_faithful() && T1::spec_faithful() && T2::spec_faithful() && T3::spec_faithful() && T4::spec_faithful() && T5::spec_faithful() && T6::spec_faithful() && T7::spec_faithful() { assert(deserializer.unread() =~= start.subrange((start.len() - deserializer.unread().len()) as int, start.len() as int)); } }
        Ok(())
    }
}

impl<T0: WireFormat, T1: WireFormat, T2: WireFormat, T3: WireFormat, T4: WireFormat, T5: WireFormat, T6: WireFormat, T7: WireFormat, T8: WireFormat> WireFormat for (T0, T1, T2, T3, T4, T5, T6, T7, T8) {
    type Model = (T0::Model, T1::Model, T2::Model, T3::Model, T4::Model, T5::Model, T6::Model, T7::Model, T8::Model);

    open spec fn model(&self) -> (T0::Model, T1::Model, T2::Model, T3::Model, T4::Model, T5::Model, T6::Model, T7::Model, T8::Model) {
        (self.0.model(), self.1.model(), self.2.model(), self.3.model(), self.4.model(), self.5.model(), self.6.model(), self.7.model(), self.8.model())
    }

    open spec fn spec_encodes(m: (T0::Model, T1::Model, T2::Model, T3::Model, T4::Model, T5::Model, T6::Model, T7::Model, T8::Model), bytes: Seq<u8>) -> bool {
        exists|k1: int| 0 <= k1 <= bytes.len() && #[trigger] T0::spec_encodes(m.0, bytes.subrange(0, k1)) && (exists|k2: int| k1 <= k2 <= bytes.len() && #[trigger] T1::spec_encodes(m.1, bytes.subrange(k1, k2)) && (exists|k3: int| k2 <= k3 <= bytes.len() && #[trigger] T2::spec_encodes(m.2, bytes.subrange(k2, k3)) && (exists|k4: int| k3 <= k4 <= bytes.len() && #[trigger] T3::spec_encodes(m.3, bytes.subrange(k3, k4)) && (exists|k5: int| k4 <= k5 <= bytes.len() && #[trigger] T4::spec_encodes(m.4, bytes.subrange(k4, k5)) && (exists|k6: int| k5 <= k6 <= bytes.len() && #[trigger] T5::spec_encodes(m.5, bytes.subrange(k5, k6)) && (exists|k7: int| k6 <= k7 <= bytes.len() && #[trigger] T6::spec_encodes(m.6, bytes.subrange(k6, k7)) && (exists|k8: int| k7 <= k8 <= bytes.len() && #[trigger] T7::spec_encodes(m.7, bytes.subrange(k7, k8)) && (T8::spec_encodes(m.8, bytes.subrange(k8, bytes.len() as int))))))))))
    }

    open spec fn spec_encodable(m: (T0::Model, T1::Model, T2::Model, T3::Model, T4::Model, T5::Model, T6::Model, T7::Model, T8::Model)) -> bool {
        T0::spec_encodable(m.0) && T1::spec_encodable(m.1) && T2::spec_encodable(m.2) && T3::spec_encodable(m.3) && T4::spec_encodable(m.4) && T5::spec_encodable(m.5) && T6::spec_encodable(m.6) && T7::spec_encodable(m.7) && T8::spec_encodable(m.8)
    }

    open spec fn spec_decode(bytes: Seq<u8>) -> Option<((T0::Model, T1::Model, T2::Model, T3::Model, T4::Model, T5::Model, T6::Model, T7::Model, T8::Model), nat)> {
        match T0::spec_decode(bytes.subrange((0) as int, bytes.len() as int)) { None => None, Some((a0, n0)) => if 0 + n0 > bytes.len() { None } else { match T1::spec_decode(bytes.subrange((0 + n0) as int, bytes.len() as int)) { None => None, Some((a1, n1)) => if 0 + n0 + n1 > bytes.len() { None } else { match T2::spec_decode(bytes.subrange((0 + n0 + n1) as int, bytes.len() as int)) { None => None, Some((a2, n2)) => if 0 + n0 + n1 + n2 > bytes.len() { None } else { match T3::spec_decode(bytes.subrange((0 + n0 + n1 + n2) as int, bytes.len() as int)) { None => None, Some((a3, n3)) => if 0 + n0 + n1 + n2 + n3 > bytes.len() { None } else { match T4::spec_decode(bytes.subrange((0 + n0 + n1 + n2 + n3) as int, bytes.len() as int)) { None => None, Some((a4, n4)) => if 0 + n0 + n1 + n2 + n3 + n4 > bytes.len() { None } else { match T5::spec_decode(bytes.subrange((0 + n0 + n1 + n2 + n3 + n4) as int, bytes.len() as int)) { None => None, Some((a5, n5)) => if 0 + n0 + n1 + n2 + n3 + n4 + n5 > bytes.len() { None } else { match T6::spec_decode(bytes.subrange((0 + n0 + n1 + n2 + n3 + n4 + n5) as int, bytes.len() as int)) { None => None, Some((a6, n6)) => if 0 + n0 + n1 + n2 + n3 + n4 + n5 + n6 > bytes.len() { None } else { match T7::spec_decode(bytes.subrange((0 + n0 + n1 + n2 + n3 + n4 + n5 + n6) as int, bytes.len() as int)) { None => None, Some((a7, n7)) => if 0 + n0 + n1 + n2 + n3 + n4 + n5 + n6 + n7 > bytes.len() { None } else { match T8::spec_decode(bytes.subrange((0 + n0 + n1 + n2 + n3 + n4 + n5 + n6 + n7) as int, bytes.len() as int)) { None => None, Some((a8, n8)) => if 0 + n0 + n1 + n2 + n3 + n4 + n5 + n6 + n7 + n8 > bytes.len() { None } else { Some(((a0, a1, a2, a3, a4, a5, a6, a7, a8), 0 + n0 + n1 + n2 + n3 + n4 + n5 + n6 + n7 + n8 as nat)) } } } } } } } } } } } } } } } } } }
    }

    open spec fn spec_faithful() -> bool {
        T0::spec_faithful() && T1::spec_faithful() && T2::spec_faithful() && T3::spec_faithful() && T4::spec_faithful() && T5::spec_faithful() && T6::spec_faithful() && T7::spec_faithful() && T8::spec_faithful()
    }

    #[verifier::rlimit(100)]
    #[verifier::spinoff_prover]
    proof fn lemma_round_trip(m: (T0::Model, T1::Model, T2::Model, T3::Model, T4::Model, T5::Model, T6::Model, T7::Model, T8::Model), bytes: Seq<u8>, rest: Seq<u8>) {
        let k1 = choose|k1: int| 0 <= k1 <= bytes.len() && #[trigger] T0::spec_encodes(m.0, bytes.subrange(0, k1)) && (exists|k2: int| k1 <= k2 <= bytes.len() && #[trigger] T1::spec_encodes(m.1, bytes.subrange(k1, k2)) && (exists|k3: int| k2 <= k3 <= bytes.len() && #[trigger] T2::spec_encodes(m.2, bytes.subrange(k2, k3)) && (exists|k4: int| k3 <= k4 <= bytes.len() && #[trigger] T3::spec_encodes(m.3, bytes.subrange(k3, k4)) && (exists|k5: int| k4 <= k5 <= bytes.len() && #[trigger] T4::spec_encodes(m.4, bytes.subrange(k4, k5)) && (exists|k6: int| k5 <= k6 <= bytes.len() && #[trigger] T5::spec_encodes(m.5, bytes.subrange(k5, k6)) && (exists|k7: int| k6 <= k7 <= bytes.len() && #[trigger] T6::spec_encodes(m.6, bytes.subrange(k6, k7)) && (exists|k8: int| k7 <= k8 <= bytes.len() && #[trigger] T7::spec_encodes(m.7, bytes.subrange(k7, k8)) && (T8::spec_encodes(m.8, bytes.subrange(k8, bytes.len() as int))))))))));
        let k2 = choose|k2: int| k1 <= k2 <= bytes.len() && #[trigger] T1::spec_encodes(m.1, bytes.subrange(k1, k2)) && (exists|k3: int| k2 <= k3 <= bytes.len() && #[trigger] T2::spec_encodes(m.2, bytes.subrange(k2, k3)) && (exists|k4: int| k3 <= k4 <= bytes.len() && #[trigger] T3::spec_encodes(m.3, bytes.subrange(k3, k4)) && (exists|k5: int| k4 <= k5 <= bytes.len() && #[trigger] T4::spec_encodes(m.4, bytes.subrange(k4, k5)) && (exists|k6: int| k5 <= k6 <= bytes.len() && #[trigger] T5::spec_encodes(m.5, bytes.subrange(k5, k6)) && (exists|k7: int| k6 <= k7 <= bytes.len() && #[trigger] T6::spec_encodes(m.6, bytes.subrange(k6, k7)) && (exists|k8: int| k7 <= k8 <= bytes.len() && #[trigger] T7::spec_encodes(m.7, bytes.subrange(k7, k8)) && (T8::spec_encodes(m.8, bytes.subrange(k8, bytes.len() as int)))))))));
        let k3 = choose|k3: int| k2 <= k3 <= bytes.len() && #[trigger] T2::spec_encodes(m.2, bytes.subrange(k2, k3)) && (exists|k4: int| k3 <= k4 <= bytes.len() && #[trigger] T3::spec_encodes(m.3, bytes.subrange(k3, k4)) && (exists|k5: int| k4 <= k5 <= bytes.len() && #[trigger] T4::spec_encodes(m.4, bytes.subrange(k4, k5)) && (exists|k6: int| k5 <= k6 <= bytes.len() && #[trigger] T5::spec_encodes(m.5, bytes.subrange(k5, k6)) && (exists|k7: int| k6 <= k7 <= bytes.len() && #[trigger] T6::spec_encodes(m.6, bytes.subrange(k6, k7)) && (exists|k8: int| k7 <= k8 <= bytes.len() && #[trigger] T7::spec_encodes(m.7, bytes.subrange(k7, k8)) && (T8::spec_encodes(m.8, bytes.subrange(k8, bytes.len() as int))))))));
        let k4 = choose|k4: int| k3 <= k4 <= bytes.len() && #[trigger] T3::spec_encodes(m.3, bytes.subrange(k3, k4)) && (exists|k5: int| k4 <= k5 <= bytes.len() && #[trigger] T4::spec_encodes(m.4, bytes.subrange(k4, k5)) && (exists|k6: int| k5 <= k6 <= bytes.len() && #[trigger] T5::spec_encodes(m.5, bytes.subrange(k5, k6)) && (exists|k7: int| k6 <= k7 <= bytes.len() && #[trigger] T6::spec_encodes(m.6, bytes.subrange(k6, k7)) && (exists|k8: int| k7 <= k8 <= bytes.len() && #[trigger] T7::spec_encodes(m.7, bytes.subrange(k7, k8)) && (T8::spec_encodes(m.8, bytes.subrange(k8, bytes.len() as int)))))));
        let k5 = choose|k5: int| k4 <= k5 <= bytes.len() && #[trigger] T4::spec_encodes(m.4, bytes.subrange(k4, k5)) && (exists|k6: int| k5 <= k6 <= bytes.len() && #[trigger] T5::spec_encodes(m.5, bytes.subrange(k5, k6)) && (exists|k7: int| k6 <= k7 <= bytes.len() && #[trigger] T6::spec_encodes(m.6, bytes.subrange(k6, k7)) && (exists|k8: int| k7 <= k8 <= bytes.len() && #[trigger] T7::spec_encodes(m.7, bytes.subrange(k7, k8)) && (T8::spec_encodes(m.8, bytes.subrange(k8, bytes.len() as int))))));
        let k6 = choose|k6: int| k5 <= k6 <= bytes.len() && #[trigger] T5::spec_encodes(m.5, bytes.subrange(k5, k6)) && (exists|k7: int| k6 <= k7 <= bytes.len() && #[trigger] T6::spec_encodes(m.6, bytes.subrange(k6, k7)) && (exists|k8: int| k7 <= k8 <= bytes.len() && #[trigger] T7::spec_encodes(m.7, bytes.subrange(k7, k8)) && (T8::spec_encodes(m.8, bytes.subrange(k8, bytes.len() as int)))));
        let k7 = choose|k7: int| k6 <= k7 <= bytes.len() && #[trigger] T6::spec_encodes(m.6, bytes.subrange(k6, k7)) && (exists|k8: int| k7 <= k8 <= bytes.len() && #[trigger] T7::spec_encodes(m.7, bytes.subrange(k7, k8)) && (T8::spec_encodes(m.8, bytes.subrange(k8, bytes.len() as int))));
        let k8 = choose|k8: int| k7 <= k8 <= bytes.len() && #[trigger] T7::spec_encodes(m.7, bytes.subrange(k7, k8)) && (T8::spec_encodes(m.8, bytes.subrange(k8, bytes.len() as int)));
        lemma_field_round_trip::<T0>(m.0, bytes, rest, 0, k1);
        lemma_field_round_trip::<T1>(m.1, bytes, rest, k1, k2);
        lemma_field_round_trip::<T2>(m.2, bytes, rest, k2, k3);
        lemma_field_round_trip::<T3>(m.3, bytes, rest, k3, k4);
        lemma_field_round_trip::<T4>(m.4, bytes, rest, k4, k5);
        lemma_field_round_trip::<T5>(m.5, bytes, rest, k5, k6);
        lemma_field_round_trip::<T6>(m.6, bytes, rest, k6, k7);
        lemma_field_round_trip::<T7>(m.7, bytes, rest, k7, k8);
        lemma_field_round_trip::<T8>(m.8, bytes, rest, k8, bytes.len() as int);
    }

    proof fn lemma_decode_bounded(bytes: Seq<u8>) {
    }
}

impl<T0: Serialize, T1: Serialize, T2: Serialize, T3: Serialize, T4: Serialize, T5: Serialize, T6: Serialize, T7: Serialize, T8: Serialize> Serialize for (T0, T1, T2, T3, T4, T5, T6, T7, T8) {
    #[verifier::rlimit(100)]
    #[verifier::spinoff_prover]
    fn serialize<W: WriteUninit>(&self, serializer: &mut Serializer<W>) -> (r: Result<()>) {
        let ghost w0 = serializer.written();
        self.0.serialize(serializer)?;
        let ghost w1 = serializer.written();
        self.1.serialize(serializer)?;
        let ghost w2 = serializer.written();
        self.2.serialize(serializer)?;
        let ghost w3 = serializer.written();
        self.3.serialize(serializer)?;
        let ghost w4 = serializer.written();
        self.4.serialize(serializer)?;
        let ghost w5 = serializer.written();
        self.5.serialize(serializer)?;
        let ghost w6 = serializer.written();
        self.6.serialize(serializer)?;
        let ghost w7 = serializer.written();
        self.7.serialize(serializer)?;
        let ghost w8 = serializer.written();
        self.8.serialize(serializer)?;
        let ghost w9 = serializer.written();
        proof {
            if T0::spec_faithful() && T1::spec_faithful() && T2::spec_faithful() && T3::spec_faithful() && T4::spec_faithful() && T5::spec_faithful() && T6::spec_faithful() && T7::spec_faithful() && T8::spec_faithful() {
                lemma_extends_trans(w0, w1, w2);
                lemma_extends_trans(w0, w2, w3);
                lemma_extends_trans(w0, w3, w4);
                lemma_extends_trans(w0, w4, w5);
                lemma_extends_trans(w0, w5, w6);
                lemma_extends_trans(w0, w6, w7);
                lemma_extends_trans(w0, w7, w8);
                lemma_extends_trans(w0, w8, w9);
                let all = appended(w0, w9);
                let m = self.model();
                let k1 = (w1.len() - w0.len()) as int;
                let k2 = (w2.len() - w0.len()) as int;
                let k3 = (w3.len() - w0.len()) as int;
                let k4 = (w4.len() - w0.len()) as int;
                let k5 = (w5.len() - w0.len()) as int;
                let k6 = (w6.len() - w0.len()) as int;
                let k7 = (w7.len() - w0.len()) as int;
                let k8 = (w8.len() - w0.len()) as int;
                assert(all.subrange(0, k1) =~= appended(w0, w1));
                assert(T0::spec_encodes(m.0, all.subrange(0, k1)));
                assert(all.subrange(k1, k2) =~= appended(w1, w2));
                assert(T1::spec_encodes(m.1, all.subrange(k1, k2)));
                assert(all.subrange(k2, k3) =~= appended(w2, w3));
                assert(T2::spec_encodes(m.2, all.subrange(k2, k3)));
                assert(all.subrange(k3, k4) =~= appended(w3, w4));
                assert(T3::spec_encodes(m.3, all.subrange(k3, k4)));
                assert(all.subrange(k4, k5) =~= appended(w4, w5));
                assert(T4::spec_encodes(m.4, all.subrange(k4, k5)));
                assert(all.subrange(k5, k6) =~= appended(w5, w6));
                assert(T5::spec_encodes(m.5, all.subrange(k5, k6)));
                assert(all.subrange(k6, k7) =~= appended(w6, w7));
                assert(T6::spec_encodes(m.6, all.subrange(k6, k7)));
                assert(all.subrange(k7, k8) =~= appended(w7, w8));
                assert(T7::spec_encodes(m.7, all.subrange(k7, k8)));
                assert(all.subrange(k8, all.len() as int) =~= appended(w8, w9));
                assert(T8::spec_encodes(m.8, all.subrange(k8, all.len() as int)));
            }
        }
        Ok(())
    }
}

impl<T0: Deserialize, T1: Deserialize, T2: Deserialize, T3: Deserialize, T4: Deserialize, T5: Deserialize, T6: Deserialize, T7: Deserialize, T8: Deserialize> Deserialize for (T0, T1, T2, T3, T4, T5, T6, T7, T8) {
    #[verifier::rlimit(100)]
    #[verifier::spinoff_prover]
    fn deserialize<R: ReadUninit>(deserializer: &mut Deserializer<R>) -> (r: Result<Self>) {
        let ghost start = deserializer.unread();
        let ghost u0 = deserializer.unread();
        proof { if T0::spec_faithful() && T1::spec_faithful() && T2::spec_faithful() && T3::spec_faithful() && T4::spec_faithful() && T5::spec_faithful() && T6::spec_faithful() && T7::spec_faithful() && T8::spec_faithful() { assert(u0 =~= start.subrange((start.len() - u0.len()) as int, start.len() as int)); } }
        let a0 = T0::deserialize(deserializer)?;
        proof { if T0::spec_faithful() && T1::spec_faithful() && T2::spec_faithful() && T3::spec_faithful() && T4::spec_faithful() && T5::spec_faithful() && T6::spec_faithful() && T7::spec_faithful() && T8::spec_faithful() { T0::lemma_decode_bounded(u0); } }
        let ghost u1 = deserializer.unread();
        proof { if T0::spec_faithful() && T1::spec_faithful() && T2::spec_faithful() && T3::spec_faithful() && T4::spec_faithful() && T5::spec_faithful() && T6::spec_faithful() && T7::spec_faithful() && T8::spec_faithful() { assert(u1 =~= start.subrange((start.len() - u1.len()) as int, start.len() as int)); } }
        let a1 = T1::deserialize(deserializer)?;
        proof { if T0::spec_faithful() && T1::spec_faithful() && T2::spec_faithful() && T3::spec_faithful() && T4::spec_faithful() && T5::spec_faithful() && T6::spec_faithful() && T7::spec_faithful() && T8::spec_faithful() { T1::lemma_decode_bounded(u1); } }
        let ghost u2 = deserializer.unread();
        proof { if T0::spec_faithful() && T1::spec_faithful() && T2::spec_faithful() && T3::spec_faithful() && T4::spec_faithful() && T5::spec_faithful() && T6::spec_faithful() && T7::spec_faithful() && T8::spec_faithful() { assert(u2 =~= start.subrange((start.len() - u2.len()) as int, start.len() as int)); } }
        let a2 = T2::deserialize(deserializer)?;
        proof { if T0::spec_faithful() && T1::spec_faithful() && T2::spec_faithful() && T3::spec_faithful() && T4::spec_faithful() && T5::spec_faithful() && T6::spec_faithful() && T7::spec_faithful() && T8::spec_faithful() { T2::lemma_decode_bounded(u2); } }
        let ghost u3 = deserializer.unread();
        proof { if T0::spec_faithful() && T1::spec_faithful() && T2::spec_faithful() && T3::spec_faithful() && T4::spec_faithful() && T5::spec_faithful() && T6::spec_faithful() && T7::spec_faithful() && T8::spec_faithful() { assert(u3 =~= start.subrange((start.len() - u3.len()) as int, start.len() as int)); } }
        let a3 = T3::deserialize(deserializer)?;
        proof { if T0::spec_faithful() && T1::spec_faithful() && T2::spec_faithful() && T3::spec_faithful() && T4::spec_faithful() && T5::spec_faithful() && T6::spec_faithful() && T7::spec_faithful() && T8::spec_faithful() { T3::lemma_decode_bounded(u3); } }
        let ghost u4 = deserializer.unread();
        proof { if T0::spec_faithful() && T1::spec_faithful() && T2::spec_faithful() && T3::spec_faithful() && T4::spec_faithful() && T5::spec_faithful() && T6::spec_faithful() && T7::spec_faithful() && T8::spec_faithful() { assert(u4 =~= start.subrange((start.len() - u4.len()) as int, start.len() as int)); } }
        let a4 = T4::deserialize(deserializer)?;
        proof { if T0::spec_faithful() && T1::spec_faithful() && T2::spec_faithful() && T3::spec_faithful() && T4::spec_faithful() && T5::spec_faithful() && T6::spec_faithful() && T7::spec_faithful() && T8::spec_faithful() { T4::lemma_decode_bounded(u4); } }
        let ghost u5 = deserializer.unread();
        proof { if T0::spec_faithful() && T1::spec_faithful() && T2::spec_faithful() && T3::spec_faithful() && T4::spec_faithful() && T5::spec_faithful() && T6::spec_faithful() && T7::spec_faithful() && T8::spec_faithful() { assert(u5 =~= start.subrange((start.len() - u5.len()) as int, start.len() as int)); } }
        let a5 = T5::deserialize(deserializer)?;
        proof { if T0::spec_faithful() && T1::spec_faithful() && T2::spec_faithful() && T3::spec_faithful() && T4::spec_faithful() && T5::spec_faithful() && T6::spec_faithful() && T7::spec_faithful() && T8::spec_faithful() { T5::lemma_decode_bounded(u5); } }
        let ghost u6 = deserializer.unread();
        proof { if T0::spec_faithful() && T1::spec_faithful() && T2::spec_faithful() && T3::spec_faithful() && T4::spec_faithful() && T5::spec_faithful() && T6::spec_faithful() && T7::spec_faithful() && T8::spec_faithful() { assert(u6 =~= start.subrange((start.len() - u6.len()) as int, start.len() as int)); } }
        let a6 = T6::deserialize(deserializer)?;
        proof { if T0::spec_faithful() && T1::spec_faithful() && T2::spec_faithful() && T3::spec_faithful() && T4::spec_faithful() && T5::spec_faithful() && T6::spec_faithful() && T7::spec_faithful() && T8::spec_faithful() { T6::lemma_decode_bounded(u6); } }
        let ghost u7 = deserializer.unread();
        proof { if T0::spec_faithful() && T1::spec_faithful() && T2::spec_faithful() && T3::spec_faithful() && T4::spec_faithful() && T5::spec_faithful() && T6::spec_faithful() && T7::spec_faithful() && T8::spec_faithful() { assert(u7 =~= start.subrange((start.len() - u7.len()) as int, start.len() as int)); } }
        let a7 = T7::deserialize(deserializer)?;
        proof { if T0::spec_faithful() && T1::spec_faithful() && T2::spec_faithful() && T3::spec_faithful() && T4::spec_faithful() && T5::spec_faithful() && T6::spec_faithful() && T7::spec_faithful() && T8::spec_faithful() { T7::lemma_decode_bounded(u7); } }
        let ghost u8 = deserializer.unread();
        proof { if T0::spec_faithful() && T1::spec_faithful() && T2::spec_faithful() && T3::spec_faithful() && T4::spec_faithful() && T5::spec_faithful() && T6::spec_faithful() && T7::spec_faithful() && T8::spec_faithful() { assert(u8 =~= start.subrange((start.len() - u8.len()) as int, start.len() as int)); } }
        let a8 = T8::deserialize(deserializer)?;
        proof { if T0::spec_faithful() && T1::spec_faithful() && T2::spec_faithful() && T3::spec_faithful() && T4::spec_faithful() && T5::spec_faithful() && T6::spec_faithful() && T7::spec_faithful() && T8::spec_faithful() { T8::lemma_decode_bounded(u8); } }
        proof { if T0::spec_faithful() && T1::spec_faithful() && T2::spec_faithful() && T3::spec_faithful() && T4::spec_faithful() && T5::spec_faithful() && T6::spec_faithful() && T7::spec_faithful() && T8::spec_faithful() { assert(deserializer.unread() =~= start.subrange((start.len() - deserializer.unread().len()) as int, start.len() as int)); } }
        Ok((a0, a1, a2, a3, a4, a5, a6, a7, a8))
    }

    #[verifier::rlimit(100)]
    #[verifier::spinoff_prover]
    fn deserialize_in_place<R: ReadUninit>(&mut self, deserializer: &mut Deserializer<R>) -> (r: Result<()>) {
        let ghost start = deserializer.unread();
        let ghost u0 = deserializer.unread();
        proof { if T0::spec_faithful() && T1::spec_faithful() && T2::spec_faithful() && T3::spec_faithful() && T4::spec_faithful() && T5::spec_faithful() && T6::spec_faithful() && T7::spec_faithful() && T8::spec_faithful() { assert(u0 =~= start.subrange((start.len() - u0.len()) as int, start.len() as int)); } }
        self.0.deserialize_in_place(deserializer)?;
        proof { if T0::spec_faithful() && T1::spec_faithful() && T2::spec_faithful() && T3::spec_faithful() && T4::spec_faithful() && T5::spec_faithful() && T6::spec_faithful() && T7::spec_faithful() && T8::spec_faithful() { T0::lemma_decode_bounded(u0); } }
        let ghost u1 = deserializer.unread();
        proof { if T0::spec_faithful() && T1::spec_faithful() && T2::spec_faithful() && T3::spec_faithful() && T4::spec_faithful() && T5::spec_faithful() && T6::spec_faithful() && T7::spec_faithful() && T8::spec_faithful() { assert(u1 =~= start.subrange((start.len() - u1.len()) as int, start.len() as int)); } }
        self.1.deserialize_in_place(deserializer)?;
        proof { if T0::spec_faithful() && T1::spec_faithful() && T2::spec_faithful() && T3::spec_faithful() && T4::spec_faithful() && T5::spec_faithful() && T6::spec_faithful() && T7::spec_faithful() && T8::spec_faithful() { T1::lemma_decode_bounded(u1); } }
        let ghost u2 = deserializer.unread();
        proof { if T0::spec_faithful() && T1::spec_faithful() && T2::spec_faithful() && T3::spec_faithful() && T4::spec_faithful() && T5::spec_faithful() && T6::spec_faithful() && T7::spec_faithful() && T8::spec_faithful() { assert(u2 =~= start.subrange((start.len() - u2.len()) as int, start.len() as int)); } }
        self.2.deserialize_in_place(deserializer)?;
        proof { if T0::spec_faithful() && T1::spec_faithful() && T2::spec_faithful() && T3::spec_faithful() && T4::spec_faithful() && T5::spec_faithful() && T6::spec_faithful() && T7::spec_faithful() && T8::spec_faithful() { T2::lemma_decode_bounded(u2); } }
        let ghost u3 = deserializer.unread();
        proof { if T0::spec_faithful() && T1::spec_faithful() && T2::spec_faithful() && T3::spec_faithful() && T4::spec_faithful() && T5::spec_faithful() && T6::spec_faithful() && T7::spec_faithful() && T8::spec_faithful() { assert(u3 =~= start.subrange((start.len() - u3.len()) as int, start.len() as int)); } }
        self.3.deserialize_in_place(deserializer)?;
        proof { if T0::spec_faithful() && T1::spec_faithful() && T2::spec_faithful() && T3::spec_faithful() && T4::spec_faithful() && T5::spec_faithful() && T6::spec_faithful() && T7::spec_faithful() && T8::spec_faithful() { T3::lemma_decode_bounded(u3); } }
        let ghost u4 = deserializer.unread();
        proof { if T0::spec_faithful() && T1::spec_faithful() && T2::spec_faithful() && T3::spec_faithful() && T4::spec_faithful() && T5::spec_faithful() && T6::spec_faithful() && T7::spec_faithful() && T8::spec_faithful() { assert(u4 =~= start.subrange((start.len() - u4.len()) as int, start.len() as int)); } }
        self.4.deserialize_in_place(deserializer)?;
        proof { if T0::spec_faithful() && T1::spec_faithful() && T2::spec_faithful() && T3::spec_faithful() && T4::spec_faithful() && T5::spec_faithful() && T6::spec_faithful() && T7::spec_faithful() && T8::spec_faithful() { T4::lemma_decode_bounded(u4); } }
        let ghost u5 = deserializer.unread();
        proof { if T0::spec_faithful() && T1::spec_faithful() && T2::spec_faithful() && T3::spec_faithful() && T4::spec_faithful() && T5::spec_faithful() && T6::spec_faithful() && T7::spec_faithful() && T8::spec_faithful() { assert(u5 =~= start.subrange((start.len() - u5.len()) as int, start.len() as int)); } }
        self.5.deserialize_in_place(deserializer)?;
        proof { if T0::spec_faithful() && T1::spec_faithful() && T2::spec_faithful() && T3::spec_faithful() && T4::spec_faithful() && T5::spec_faithful() && T6::spec_faithful() && T7::spec_faithful() && T8::spec_faithful() { T5::lemma_decode_bounded(u5); } }
        let ghost u6 = deserializer.unread();
        proof { if T0::spec_faithful() && T1::spec_faithful() && T2::spec_faithful() && T3::spec_faithful() && T4::spec_faithful() && T5::spec_faithful() && T6::spec_faithful() && T7::spec_faithful() && T8::spec_faithful() { assert(u6 =~= start.subrange((start.len() - u6.len()) as int, start.len() as int)); } }
        self.6.deserialize_in_place(deserializer)?;
        proof { if T0::spec_faithful() && T1::spec_faithful() && T2::spec_faithful() && T3::spec_faithful() && T4::spec_faithful() && T5::spec_faithful() && T6::spec_faithful() && T7::spec_faithful() && T8::spec_faithful() { T6::lemma_decode_bounded(u6); } }
        let ghost u7 = deserializer.unread();
        proof { if T0::spec_faithful() && T1::spec_faithful() && T2::spec_faithful() && T3::spec_faithful() && T4::spec_faithful() && T5::spec_faithful() && T6::spec_faithful() && T7::spec_faithful() && T8::spec_faithful() { assert(u7 =~= start.subrange((start.len() - u7.len()) as int, start.len() as int)); } }
        self.7.deserialize_in_place(deserializer)?;
        proof { if T0::spec_faithful() && T1::spec_faithful() && T2::spec_faithful() && T3::spec_faithful() && T4::spec_faithful() && T5::spec_faithful() && T6::spec_faithful() && T7::spec_faithful() && T8::spec_faithful() { T7::lemma_decode_bounded(u7); } }
        let ghost u8 = deserializer.unread();
        proof { if T0::spec_faithful() && T1::spec_faithful() && T2::spec_faithful() && T3::spec_faithful() && T4::spec_faithful() && T5::spec_faithful() && T6::spec_faithful() && T7::spec_faithful() && T8::spec_faithful() { assert(u8 =~= start.subrange((start.len() - u8.len()) as int, start.len() as int)); } }
        self.8.deserialize_in_place(deserializer)?;
        proof { if T0::spec_faithful() && T1::spec_faithful() && T2::spec_faithful() && T3::spec_faithful() && T4::spec_faithful() && T5::spec_faithful() && T6::spec_faithful() && T7::spec_faithful() && T8::spec_faithful() { T8::lemma_decode_bounded(u8); } }
        proof { if T0::spec_faithful() && T1::spec_faithful() && T2::spec_faithful() && T3::spec_faithful() && T4::spec_faithful() && T5::spec_faithful() && T6::spec_faithful() && T7::spec_faithful() && T8::spec_faithful() { assert(deserializer.unread() =~= start.subrange((start.len() - deserializer.unread().len()) as int, start.len() as int)); } }
        Ok(())
    }
}

impl<T0: WireFormat, T1: WireFormat, T2: WireFormat, T3: WireFormat, T4: WireFormat, T5: WireFormat, T6: WireFormat, T7: WireFormat, T8: WireFormat, T9: WireFormat> WireFormat for (T0, T1, T2, T3, T4, T5, T6, T7, T8, T9) {
    type Model = (T0::Model, T1::Model, T2::Model, T3::Model, T4::Model, T5::Model, T6::Model, T7::Model, T8::Model, T9::Model);

    open spec fn model(&self) -> (T0::Model, T1::Model, T2::Model, T3::Model, T4::Model, T5::Model, T6::Model, T7::Model, T8::Model, T9::Model) {
        (self.0.model(), self.1.model(), self.2.model(), self.3.model(), self.4.model(), self.5.model(), self.6.model(), self.7.model(), self.8.model(), self.9.model())
    }

    open spec fn spec_encodes(m: (T0::Model, T1::Model, T2::Model, T3::Model, T4::Model, T5::Model, T6::Model, T7::Model, T8::Model, T9::Model), bytes: Seq<u8>) -> bool {
        exists|k1: int| 0 <= k1 <= bytes.len() && #[trigger] T0::spec_encodes(m.0, bytes.subrange(0, k1)) && (exists|k2: int| k1 <= k2 <= bytes.len() && #[trigger] T1::spec_encodes(m.1, bytes.subrange(k1, k2)) && (exists|k3: int| k2 <= k3 <= bytes.len() && #[trigger] T2::spec_encodes(m.2, bytes.subrange(k2, k3)) && (exists|k4: int| k3 <= k4 <= bytes.len() && #[trigger] T3::spec_encodes(m.3, bytes.subrange(k3, k4)) && (exists|k5: int| k4 <= k5 <= bytes.len() && #[trigger] T4::spec_encodes(m.4, bytes.subrange(k4, k5)) && (exists|k6: int| k5 <= k6 <= bytes.len() && #[trigger] T5::spec_encodes(m.5, bytes.subrange(k5, k6)) && (exists|k7: int| k6 <= k7 <= bytes.len() && #[trigger] T6::spec_encodes(m.6, bytes.subrange(k6, k7)) && (exists|k8: int| k7 <= k8 <= bytes.len() && #[trigger] T7::spec_encodes(m.7, bytes.subrange(k7, k8)) && (exists|k9: int| k8 <= k9 <= bytes.len() && #[trigger] T8::spec_encodes(m.8, bytes.subrange(k8, k9)) && (T9::spec_encodes(m.9, bytes.subrange(k9, bytes.len() as int)))))))))))
    }

    open spec fn spec_encodable(m: (T0::Model, T1::Model, T2::Model, T3::Model, T4::Model, T5::Model, T6::Model, T7::Model, T8::Model, T9::Model)) -> bool {
        T0::spec_encodable(m.0) && T1::spec_encodable(m.1) && T2::spec_encodable(m.2) && T3::spec_encodable(m.3) && T4::spec_encodable(m.4) && T5::spec_encodable(m.5) && T6::spec_encodable(m.6) && T7::spec_encodable(m.7) && T8::spec_encodable(m.8) && T9::spec_encodable(m.9)
    }

    open spec fn spec_decode(bytes: Seq<u8>) -> Option<((T0::Model, T1::Model, T2::Model, T3::Model, T4::Model, T5::Model, T6::Model, T7::Model, T8::Model, T9::Model), nat)> {
        match T0::spec_decode(bytes.subrange((0) as int, bytes.len() as int)) { None => None, Some((a0, n0)) => if 0 + n0 > bytes.len() { None } else { match T1::spec_decode(bytes.subrange((0 + n0) as int, bytes.len() as int)) { None => None, Some((a1, n1)) => if 0 + n0 + n1 > bytes.len() { None } else { match T2::spec_decode(bytes.subrange((0 + n0 + n1) as int, bytes.len() as int)) { None => None, Some((a2, n2)) => if 0 + n0 + n1 + n2 > bytes.len() { None } else { match T3::spec_decode(bytes.subrange((0 + n0 + n1 + n2) as int, bytes.len() as int)) { None => None, Some((a3, n3)) => if 0 + n0 + n1 + n2 + n3 > bytes.len() { None } else { match T4::spec_decode(bytes.subrange((0 + n0 + n1 + n2 + n3) as int, bytes.len() as int)) { None => None, Some((a4, n4)) => if 0 + n0 + n1 + n2 + n3 + n4 > bytes.len() { None } else { match T5::spec_decode(bytes.subrange((0 + n0 + n1 + n2 + n3 + n4) as int, bytes.len() as int)) { None => None, Some((a5, n5)) => if 0 + n0 + n1 + n2 + n3 + n4 + n5 > bytes.len() { None } else { match T6::spec_decode(bytes.subrange((0 + n0 + n1 + n2 + n3 + n4 + n5) as int, bytes.len() as int)) { None => None, Some((a6, n6)) => if 0 + n0 + n1 + n2 + n3 + n4 + n5 + n6 > bytes.len() { None } else { match T7::spec_decode(bytes.subrange((0 + n0 + n1 + n2 + n3 + n4 + n5 + n6) as int, bytes.len() as int)) { None => None, Some((a7, n7)) => if 0 + n0 + n1 + n2 + n3 + n4 + n5 + n6 + n7 > bytes.len() { None } else { match T8::spec_decode(bytes.subrange((0 + n0 + n1 + n2 + n3 + n4 + n5 + n6 + n7) as int, bytes.len() as int)) { None => None, Some((a8, n8)) => if 0 + n0 + n1 + n2 + n3 + n4 + n5 + n6 + n7 + n8 > bytes.len() { None } else { match T9::spec_decode(bytes.subrange((0 + n0 + n1 + n2 + n3 + n4 + n5 + n6 + n7 + n8) as int, bytes.len() as int)) { None => None, Some((a9, n9)) => if 0 + n0 + n1 + n2 + n3 + n4 + n5 + n6 + n7 + n8 + n9 > bytes.len() { None } else { Some(((a0, a1, a2, a3, a4, a5, a6, a7, a8, a9), 0 + n0 + n1 + n2 + n3 + n4 + n5 + n6 + n7 + n8 + n9 as nat)) } } } } } } } } } } } } } } } } } } } }
    }

    open spec fn spec_faithful() -> bool {
        T0::spec_faithful() && T1::spec_faithful() && T2::spec_faithful() && T3::spec_faithful() && T4::spec_faithful() && T5::spec_faithful() && T6::spec_faithful() && T7::spec_faithful() && T8::spec_faithful() && T9::spec_faithful()
    }

    #[verifier::rlimit(100)]
    #[verifier::spinoff_prover]
    proof fn lemma_round_trip(m: (T0::Model, T1::Model, T2::Model, T3::Model, T4::Model, T5::Model, T6::Model, T7::Model, T8::Model, T9::Model), bytes: Seq<u8>, rest: Seq<u8>) {
        let k1 = choose|k1: int| 0 <= k1 <= bytes.len() && #[trigger] T0::spec_encodes(m.0, bytes.subrange(0, k1)) && (exists|k2: int| k1 <= k2 <= bytes.len() && #[trigger] T1::spec_encodes(m.1, bytes.subrange(k1, k2)) && (exists|k3: int| k2 <= k3 <= bytes.len() && #[trigger] T2::spec_encodes(m.2, bytes.subrange(k2, k3)) && (exists|k4: int| k3 <= k4 <= bytes.len() && #[trigger] T3::spec_encodes(m.3, bytes.subrange(k3, k4)) && (exists|k5: int| k4 <= k5 <= bytes.len() && #[trigger] T4::spec_encodes(m.4, bytes.subrange(k4, k5)) && (exists|k6: int| k5 <= k6 <= bytes.len() && #[trigger] T5::spec_encodes(m.5, bytes.subrange(k5, k6)) && (exists|k7: int| k6 <= k7 <= bytes.len() && #[trigger] T6::spec_encodes(m.6, bytes.subrange(k6, k7)) && (exists|k8: int| k7 <= k8 <= bytes.len() && #[trigger] T7::spec_encodes(m.7, bytes.subrange(k7, k8)) && (exists|k9: int| k8 <= k9 <= bytes.len() && #[trigger] T8::spec_encodes(m.8, bytes.subrange(k8, k9)) && (T9::spec_encodes(m.9, bytes.subrange(k9, bytes.len() as int)))))))))));
        let k2 = choose|k2: int| k1 <= k2 <= bytes.len() && #[trigger] T1::spec_encodes(m.1, bytes.subrange(k1, k2)) && (exists|k3: int| k2 <= k3 <= bytes.len() && #[trigger] T2::spec_encodes(m.2, bytes.subrange(k2, k3)) && (exists|k4: int| k3 <= k4 <= bytes.len() && #[trigger] T3::spec_encodes(m.3, bytes.subrange(k3, k4)) && (exists|k5: int| k4 <= k5 <= bytes.len() && #[trigger] T4::spec_encodes(m.4, bytes.subrange(k4, k5)) && (exists|k6: int| k5 <= k6 <= bytes.len() && #[trigger] T5::spec_encodes(m.5, bytes.subrange(k5, k6)) && (exists|k7: int| k6 <= k7 <= bytes.len() && #[trigger] T6::spec_encodes(m.6, bytes.subrange(k6, k7)) && (exists|k8: int| k7 <= k8 <= bytes.len() && #[trigger] T7::spec_encodes(m.7, bytes.subrange(k7, k8)) && (exists|k9: int| k8 <= k9 <= bytes.len() && #[trigger] T8::spec_encodes(m.8, bytes.subrange(k8, k9)) && (T9::spec_encodes(m.9, bytes.subrange(k9, bytes.len() as int))))))))));
        let k3 = choose|k3: int| k2 <= k3 <= bytes.len() && #[trigger] T2::spec_encodes(m.2, bytes.subrange(k2, k3)) && (exists|k4: int| k3 <= k4 <= bytes.len() && #[trigger] T3::spec_encodes(m.3, bytes.subrange(k3, k4)) && (exists|k5: int| k4 <= k5 <= bytes.len() && #[trigger] T4::spec_encodes(m.4, bytes.subrange(k4, k5)) && (exists|k6: int| k5 <= k6 <= bytes.len() && #[trigger] T5::spec_encodes(m.5, bytes.subrange(k5, k6)) && (exists|k7: int| k6 <= k7 <= bytes.len() && #[trigger] T6::spec_encodes(m.6, bytes.subrange(k6, k7)) && (exists|k8: int| k7 <= k8 <= bytes.len() && #[trigger] T7::spec_encodes(m.7, bytes.subrange(k7, k8)) && (exists|k9: int| k8 <= k9 <= bytes.len() && #[trigger] T8::spec_encodes(m.8, bytes.subrange(k8, k9)) && (T9::spec_encodes(m.9, bytes.subrange(k9, bytes.len() as int)))))))));
        let k4 = choose|k4: int| k3 <= k4 <= bytes.len() && #[trigger] T3::spec_encodes(m.3, bytes.subrange(k3, k4)) && (exists|k5: int| k4 <= k5 <= bytes.len() && #[trigger] T4::spec_encodes(m.4, bytes.subrange(k4, k5)) && (exists|k6: int| k5 <= k6 <= bytes.len() && #[trigger] T5::spec_encodes(m.5, bytes.subrange(k5, k6)) && (exists|k7: int| k6 <= k7 <= bytes.len() && #[trigger] T6::spec_encodes(m.6, bytes.subrange(k6, k7)) && (exists|k8: int| k7 <= k8 <= bytes.len() && #[trigger] T7::spec_encodes(m.7, bytes.subrange(k7, k8)) && (exists|k9: int| k8 <= k9 <= bytes.len() && #[trigger] T8::spec_encodes(m.8, bytes.subrange(k8, k9)) && (T9::spec_encodes(m.9, bytes.subrange(k9, bytes.len() as int))))))));
        let k5 = choose|k5: int| k4 <= k5 <= bytes.len() && #[trigger] T4::spec_encodes(m.4, bytes.subrange(k4, k5)) && (exists|k6: int| k5 <= k6 <= bytes.len() && #[trigger] T5::spec_encodes(m.5, bytes.subrange(k5, k6)) && (exists|k7: int| k6 <= k7 <= bytes.len() && #[trigger] T6::spec_encodes(m.6, bytes.subrange(k6, k7)) && (exists|k8: int| k7 <= k8 <= bytes.len() && #[trigger] T7::spec_encodes(m.7, bytes.subrange(k7, k8)) && (exists|k9: int| k8 <= k9 <= bytes.len() && #[trigger] T8::spec_encodes(m.8, bytes.subrange(k8, k9)) && (T9::spec_encodes(m.9, bytes.subrange(k9, bytes.len() as int)))))));
        let k6 = choose|k6: int| k5 <= k6 <= bytes.len() && #[trigger] T5::spec_encodes(m.5, bytes.subrange(k5, k6)) && (exists|k7: int| k6 <= k7 <= bytes.len() && #[trigger] T6::spec_encodes(m.6, bytes.subrange(k6, k7)) && (exists|k8: int| k7 <= k8 <= bytes.len() && #[trigger] T7::spec_encodes(m.7, bytes.subrange(k7, k8)) && (exists|k9: int| k8 <= k9 <= bytes.len() && #[trigger] T8::spec_encodes(m.8, bytes.subrange(k8, k9)) && (T9::spec_encodes(m.9, bytes.subrange(k9, bytes.len() as int))))));
        let k7 = choose|k7: int| k6 <= k7 <= bytes.len() && #[trigger] T6::spec_encodes(m.6, bytes.subrange(k6, k7)) && (exists|k8: int| k7 <= k8 <= bytes.len() && #[trigger] T7::spec_encodes(m.7, bytes.subrange(k7, k8)) && (exists|k9: int| k8 <= k9 <= bytes.len() && #[trigger] T8::spec_encodes(m.8, bytes.subrange(k8, k9)) && (T9::spec_encodes(m.9, bytes.subrange(k9, bytes.len() as int)))));
        let k8 = choose|k8: int| k7 <= k8 <= bytes.len() && #[trigger] T7::spec_encodes(m.7, bytes.subrange(k7, k8)) && (exists|k9: int| k8 <= k9 <= bytes.len() && #[trigger] T8::spec_encodes(m.8, bytes.subrange(k8, k9)) && (T9::spec_encodes(m.9, bytes.subrange(k9, bytes.len() as int))));
        let k9 = choose|k9: int| k8 <= k9 <= bytes.len() && #[trigger] T8::spec_encodes(m.8, bytes.subrange(k8, k9)) && (T9::spec_encodes(m.9, bytes.subrange(k9, bytes.len() as int)));
        lemma_field_round_trip::<T0>(m.0, bytes, rest, 0, k1);
        lemma_field_round_trip::<T1>(m.1, bytes, rest, k1, k2);
        lemma_field_round_trip::<T2>(m.2, bytes, rest, k2, k3);
        lemma_field_round_trip::<T3>(m.3, bytes, rest, k3, k4);
        lemma_field_round_trip::<T4>(m.4, bytes, rest, k4, k5);
        lemma_field_round_trip::<T5>(m.5, bytes, rest, k5, k6);
        lemma_field_round_trip::<T6>(m.6, bytes, rest, k6, k7);
        lemma_field_round_trip::<T7>(m.7, bytes, rest, k7, k8);
        lemma_field_round_trip::<T8>(m.8, bytes, rest, k8, k9);
        lemma_field_round_trip::<T9>(m.9, bytes, rest, k9, bytes.len() as int);
    }

    proof fn lemma_decode_bounded(bytes: Seq<u8>) {
    }
}

impl<T0: Serialize, T1: Serialize, T2: Serialize, T3: Serialize, T4: Serialize, T5: Serialize, T6: Serialize, T7: Serialize, T8: Serialize, T9: Serialize> Serialize for (T0, T1, T2, T3, T4, T5, T6, T7, T8, T9) {
    #[verifier::rlimit(100)]
    #[verifier::spinoff_prover]
    fn serialize<W: WriteUninit>(&self, serializer: &mut Serializer<W>) -> (r: Result<()>) {
        let ghost w0 = serializer.written();
        self.0.serialize(serializer)?;
        let ghost w1 = serializer.written();
        self.1.serialize(serializer)?;
        let ghost w2 = serializer.written();
        self.2.serialize(serializer)?;
        let ghost w3 = serializer.written();
        self.3.serialize(serializer)?;
        let ghost w4 = serializer.written();
        self.4.serialize(serializer)?;
        let ghost w5 = serializer.written();
        self.5.serialize(serializer)?;
        let ghost w6 = serializer.written();
        self.6.serialize(serializer)?;
        let ghost w7 = serializer.written();
        self.7.serialize(serializer)?;
        let ghost w8 = serializer.written();
        self.8.serialize(serializer)?;
        let ghost w9 = serializer.written();
        self.9.serialize(serializer)?;
        let ghost w10 = serializer.written();
        proof {
            if T0::spec_faithful() && T1::spec_faithful() && T2::spec_faithful() && T3::spec_faithful() && T4::spec_faithful() && T5::spec_faithful() && T6::spec_faithful() && T7::spec_faithful() && T8::spec_faithful() && T9::spec_faithful() {
                lemma_extends_trans(w0, w1, w2);
                lemma_extends_trans(w0, w2, w3);
                lemma_extends_trans(w0, w3, w4);
                lemma_extends_trans(w0, w4, w5);
                lemma_extends_trans(w0, w5, w6);
                lemma_extends_trans(w0, w6, w7);
                lemma_extends_trans(w0, w7, w8);
                lemma_extends_trans(w0, w8, w9);
                lemma_extends_trans(w0, w9, w10);
                let all = appended(w0, w10);
                let m = self.model();
                let k1 = (w1.len() - w0.len()) as int;
                let k2 = (w2.len() - w0.len()) as int;
                let k3 = (w3.len() - w0.len()) as int;
                let k4 = (w4.len() - w0.len()) as int;
                let k5 = (w5.len() - w0.len()) as int;
                let k6 = (w6.len() - w0.len()) as int;
                let k7 = (w7.len() - w0.len()) as int;
                let k8 = (w8.len() - w0.len()) as int;
                let k9 = (w9.len() - w0.len()) as int;
                assert(all.subrange(0, k1) =~= appended(w0, w1));
                assert(T0::spec_encodes(m.0, all.subrange(0, k1)));
                assert(all.subrange(k1, k2) =~= appended(w1, w2));
                assert(T1::spec_encodes(m.1, all.subrange(k1, k2)));
                assert(all.subrange(k2, k3) =~= appended(w2, w3));
                assert(T2::spec_encodes(m.2, all.subrange(k2, k3)));
                assert(all.subrange(k3, k4) =~= appended(w3, w4));
                assert(T3::spec_encodes(m.3, all.subrange(k3, k4)));
                assert(all.subrange(k4, k5) =~= appended(w4, w5));
                assert(T4::spec_encodes(m.4, all.subrange(k4, k5)));
                assert(all.subrange(k5, k6) =~= appended(w5, w6));
                assert(T5::spec_encodes(m.5, all.subrange(k5, k6)));
                assert(all.subrange(k6, k7) =~= appended(w6, w7));
                assert(T6::spec_encodes(m.6, all.subrange(k6, k7)));
                assert(all.subrange(k7, k8) =~= appended(w7, w8));
                assert(T7::spec_encodes(m.7, all.subrange(k7, k8)));
                assert(all.subrange(k8, k9) =~= appended(w8, w9));
                assert(T8::spec_encodes(m.8, all.subrange(k8, k9)));
                assert(all.subrange(k9, all.len() as int) =~= appended(w9, w10));
                assert(T9::spec_encodes(m.9, all.subrange(k9, all.len() as int)));
            }
        }
        Ok(())
    }
}

impl<T0: Deserialize, T1: Deserialize, T2: Deserialize, T3: Deserialize, T4: Deserialize, T5: Deserialize, T6: Deserialize, T7: Deserialize, T8: Deserialize, T9: Deserialize> Deserialize for (T0, T1, T2, T3, T4, T5, T6, T7, T8, T9) {
    #[verifier::rlimit(100)]
    #[verifier::spinoff_prover]
    fn deserialize<R: ReadUninit>(deserializer: &mut Deserializer<R>) -> (r: Result<Self>) {
        let ghost start = deserializer.unread();
        let ghost u0 = deserializer.unread();
        proof { if T0::spec_faithful() && T1::spec_faithful() && T2::spec_faithful() && T3::spec_faithful() && T4::spec_faithful() && T5::spec_faithful() && T6::spec_faithful() && T7::spec_faithful() && T8::spec_faithful() && T9::spec_faithful() { assert(u0 =~= start.subrange((start.len() - u0.len()) as int, start.len() as int)); } }
        let a0 = T0::deserialize(deserializer)?;
        proof { if T0::spec_faithful() && T1::spec_faithful() && T2::spec_faithful() && T3::spec_faithful() && T4::spec_faithful() && T5::spec_faithful() && T6::spec_faithful() && T7::spec_faithful() && T8::spec_faithful() && T9::spec_faithful() { T0::lemma_decode_bounded(u0); } }
        let ghost u1 = deserializer.unread();
        proof { if T0::spec_faithful() && T1::spec_faithful() && T2::spec_faithful() && T3::spec_faithful() && T4::spec_faithful() && T5::spec_faithful() && T6::spec_faithful() && T7::spec_faithful() && T8::spec_faithful() && T9::spec_faithful() { assert(u1 =~= start.subrange((start.len() - u1.len()) as int, start.len() as int)); } }
        let a1 = T1::deserialize(deserializer)?;
        proof { if T0::spec_faithful() && T1::spec_faithful() && T2::spec_faithful() && T3::spec_faithful() && T4::spec_faithful() && T5::spec_faithful() && T6::spec_faithful() && T7::spec_faithful() && T8::spec_faithful() && T9::spec_faithful() { T1::lemma_decode_bounded(u1); } }
        let ghost u2 = deserializer.unread();
        proof { if T0::spec_faithful() && T1::spec_faithful() && T2::spec_faithful() && T3::spec_faithful() && T4::spec_faithful() && T5::spec_faithful() && T6::spec_faithful() && T7::spec_faithful() && T8::spec_faithful() && T9::spec_faithful() { assert(u2 =~= start.subrange((start.len() - u2.len()) as int, start.len() as int)); } }
        let a2 = T2::deserialize(deserializer)?;
        proof { if T0::spec_faithful() && T1::spec_faithful() && T2::spec_faithful() && T3::spec_faithful() && T4::spec_faithful() && T5::spec_faithful() && T6::spec_faithful() && T7::spec_faithful() && T8::spec_faithful() && T9::spec_faithful() { T2::lemma_decode_bounded(u2); } }
        let ghost u3 = deserializer.unread();
        proof { if T0::spec_faithful() && T1::spec_faithful() && T2::spec_faithful() && T3::spec_faithful() && T4::spec_faithful() && T5::spec_faithful() && T6::spec_faithful() && T7::spec_faithful() && T8::spec_faithful() && T9::spec_faithful() { assert(u3 =~= start.subrange((start.len() - u3.len()) as int, start.len() as int)); } }
        let a3 = T3::deserialize(deserializer)?;
        proof { if T0::spec_faithful() && T1::spec_faithful() && T2::spec_faithful() && T3::spec_faithful() && T4::spec_faithful() && T5::spec_faithful() && T6::spec_faithful() && T7::spec_faithful() && T8::spec_faithful() && T9::spec_faithful() { T3::lemma_decode_bounded(u3); } }
        let ghost u4 = deserializer.unread();
        proof { if T0::spec_faithful() && T1::spec_faithful() && T2::spec_faithful() && T3::spec_faithful() && T4::spec_faithful() && T5::spec_faithful() && T6::spec_faithful() && T7::spec_faithful() && T8::spec_faithful() && T9::spec_faithful() { assert(u4 =~= start.subrange((start.len() - u4.len()) as int, start.len() as int)); } }
        let a4 = T4::deserialize(deserializer)?;
        proof { if T0::spec_faithful() && T1::spec_faithful() && T2::spec_faithful() && T3::spec_faithful() && T4::spec_faithful() && T5::spec_faithful() && T6::spec_faithful() && T7::spec_faithful() && T8::spec_faithful() && T9::spec_faithful() { T4::lemma_decode_bounded(u4); } }
        let ghost u5 = deserializer.unread();
        proof { if T0::spec_faithful() && T1::spec_faithful() && T2::spec_faithful() && T3::spec_faithful() && T4::spec_faithful() && T5::spec_faithful() && T6::spec_faithful() && T7::spec_faithful() && T8::spec_faithful() && T9::spec_faithful() { assert(u5 =~= start.subrange((start.len() - u5.len()) as int, start.len() as int)); } }
        let a5 = T5::deserialize(deserializer)?;
        proof { if T0::spec_faithful() && T1::spec_faithful() && T2::spec_faithful() && T3::spec_faithful() && T4::spec_faithful() && T5::spec_faithful() && T6::spec_faithful() && T7::spec_faithful() && T8::spec_faithful() && T9::spec_faithful() { T5::lemma_decode_bounded(u5); } }
        let ghost u6 = deserializer.unread();
        proof { if T0::spec_faithful() && T1::spec_faithful() && T2::spec_faithful() && T3::spec_faithful() && T4::spec_faithful() && T5::spec_faithful() && T6::spec_faithful() && T7::spec_faithful() && T8::spec_faithful() && T9::spec_faithful() { assert(u6 =~= start.subrange((start.len() - u6.len()) as int, start.len() as int)); } }
        let a6 = T6::deserialize(deserializer)?;
        proof { if T0::spec_faithful() && T1::spec_faithful() && T2::spec_faithful() && T3::spec_faithful() && T4::spec_faithful() && T5::spec_faithful() && T6::spec_faithful() && T7::spec_faithful() && T8::spec_faithful() && T9::spec_faithful() { T6::lemma_decode_bounded(u6); } }
        let ghost u7 = deserializer.unread();
        proof { if T0::spec_faithful() && T1::spec_faithful() && T2::spec_faithful() && T3::spec_faithful() && T4::spec_faithful() && T5::spec_faithful() && T6::spec_faithful() && T7::spec_faithful() && T8::spec_faithful() && T9::spec_faithful() { assert(u7 =~= start.subrange((start.len() - u7.len()) as int, start.len() as int)); } }
        let a7 = T7::deserialize(deserializer)?;
        proof { if T0::spec_faithful() && T1::spec_faithful() && T2::spec_faithful() && T3::spec_faithful() && T4::spec_faithful() && T5::spec_faithful() && T6::spec_faithful() && T7::spec_faithful() && T8::spec_faithful() && T9::spec_faithful() { T7::lemma_decode_bounded(u7); } }
        let ghost u8 = deserializer.unread();
        proof { if T0::spec_faithful() && T1::spec_faithful() && T2::spec_faithful() && T3::spec_faithful() && T4::spec_faithful() && T5::spec_faithful() && T6::spec_faithful() && T7::spec_faithful() && T8::spec_faithful() && T9::spec_faithful() { assert(u8 =~= start.subrange((start.len() - u8.len()) as int, start.len() as int)); } }
        let a8 = T8::deserialize(deserializer)?;
        proof { if T0::spec_faithful() && T1::spec_faithful() && T2::spec_faithful() && T3::spec_faithful() && T4::spec_faithful() && T5::spec_faithful() && T6::spec_faithful() && T7::spec_faithful() && T8::spec_faithful() && T9::spec_faithful() { T8::lemma_decode_bounded(u8); } }
        let ghost u9 = deserializer.unread();
        proof { if T0::spec_faithful() && T1::spec_faithful() && T2::spec_faithful() && T3::spec_faithful() && T4::spec_faithful() && T5::spec_faithful() && T6::spec_faithful() && T7::spec_faithful() && T8::spec_faithful() && T9::spec_faithful() { assert(u9 =~= start.subrange((start.len() - u9.len()) as int, start.len() as int)); } }
        let a9 = T9::deserialize(deserializer)?;
        proof { if T0::spec_faithful() && T1::spec_faithful() && T2::spec_faithful() && T3::spec_faithful() && T4::spec_faithful() && T5::spec_faithful() && T6::spec_faithful() && T7::spec_faithful() && T8::spec_faithful() && T9::spec_faithful() { T9::lemma_decode_bounded(u9); } }
        proof { if T0::spec_faithful() && T1::spec_faithful() && T2::spec_faithful() && T3::spec_faithful() && T4::spec_faithful() && T5::spec_faithful() && T6::spec_faithful() && T7::spec_faithful() && T8::spec_faithful() && T9::spec_faithful() { assert(deserializer.unread() =~= start.subrange((start.len() - deserializer.unread().len()) as int, start.len() as int)); } }
        Ok((a0, a1, a2, a3, a4, a5, a6, a7, a8, a9))
    }

    #[verifier::rlimit(100)]
    #[verifier::spinoff_prover]
    fn deserialize_in_place<R: ReadUninit>(&mut self, deserializer: &mut Deserializer<R>) -> (r: Result<()>) {
        let ghost start = deserializer.unread();
        let ghost u0 = deserializer.unread();
        proof { if T0::spec_faithful() && T1::spec_faithful() && T2::spec_faithful() && T3::spec_faithful() && T4::spec_faithful() && T5::spec_faithful() && T6::spec_faithful() && T7::spec_faithful() && T8::spec_faithful() && T9::spec_faithful() { assert(u0 =~= start.subrange((start.len() - u0.len()) as int, start.len() as int)); } }
        self.0.deserialize_in_place(deserializer)?;
        proof { if T0::spec_faithful() && T1::spec_faithful() && T2::spec_faithful() && T3::spec_faithful() && T4::spec_faithful() && T5::spec_faithful() && T6::spec_faithful() && T7::spec_faithful() && T8::spec_faithful() && T9::spec_faithful() { T0::lemma_decode_bounded(u0); } }
        let ghost u1 = deserializer.unread();
        proof { if T0::spec_faithful() && T1::spec_faithful() && T2::spec_faithful() && T3::spec_faithful() && T4::spec_faithful() && T5::spec_faithful() && T6::spec_faithful() && T7::spec_faithful() && T8::spec_faithful() && T9::spec_faithful() { assert(u1 =~= start.subrange((start.len() - u1.len()) as int, start.len() as int)); } }
        self.1.deserialize_in_place(deserializer)?;
        proof { if T0::spec_faithful() && T1::spec_faithful() && T2::spec_faithful() && T3::spec_faithful() && T4::spec_faithful() && T5::spec_faithful() && T6::spec_faithful() && T7::spec_faithful() && T8::spec_faithful() && T9::spec_faithful() { T1::lemma_decode_bounded(u1); } }
        let ghost u2 = deserializer.unread();
        proof { if T0::spec_faithful() && T1::spec_faithful() && T2::spec_faithful() && T3::spec_faithful() && T4::spec_faithful() && T5::spec_faithful() && T6::spec_faithful() && T7::spec_faithful() && T8::spec_faithful() && T9::spec_faithful() { assert(u2 =~= start.subrange((start.len() - u2.len()) as int, start.len() as int)); } }
        self.2.deserialize_in_place(deserializer)?;
        proof { if T0::spec_faithful() && T1::spec_faithful() && T2::spec_faithful() && T3::spec_faithful() && T4::spec_faithful() && T5::spec_faithful() && T6::spec_faithful() && T7::spec_faithful() && T8::spec_faithful() && T9::spec_faithful() { T2::lemma_decode_bounded(u2); } }
        let ghost u3 = deserializer.unread();
        proof { if T0::spec_faithful() && T1::spec_faithful() && T2::spec_faithful() && T3::spec_faithful() && T4::spec_faithful() && T5::spec_faithful() && T6::spec_faithful() && T7::spec_faithful() && T8::spec_faithful() && T9::spec_faithful() { assert(u3 =~= start.subrange((start.len() - u3.len()) as int, start.len() as int)); } }
        self.3.deserialize_in_place(deserializer)?;
        proof { if T0::spec_faithful() && T1::spec_faithful() && T2::spec_faithful() && T3::spec_faithful() && T4::spec_faithful() && T5::spec_faithful() && T6::spec_faithful() && T7::spec_faithful() && T8::spec_faithful() && T9::spec_faithful() { T3::lemma_decode_bounded(u3); } }
        let ghost u4 = deserializer.unread();
        proof { if T0::spec_faithful() && T1::spec_faithful() && T2::spec_faithful() && T3::spec_faithful() && T4::spec_faithful() && T5::spec_faithful() && T6::spec_faithful() && T7::spec_faithful() && T8::spec_faithful() && T9::spec_faithful() { assert(u4 =~= start.subrange((start.len() - u4.len()) as int, start.len() as int)); } }
        self.4.deserialize_in_place(deserializer)?;
        proof { if T0::spec_faithful() && T1::spec_faithful() && T2::spec_faithful() && T3::spec_faithful() && T4::spec_faithful() && T5::spec_faithful() && T6::spec_faithful() && T7::spec_faithful() && T8::spec_faithful() && T9::spec_faithful() { T4::lemma_decode_bounded(u4); } }
        let ghost u5 = deserializer.unread();
        proof { if T0::spec_faithful() && T1::spec_faithful() && T2::spec_faithful() && T3::spec_faithful() && T4::spec_faithful() && T5::spec_faithful() && T6::spec_faithful() && T7::spec_faithful() && T8::spec_faithful() && T9::spec_faithful() { assert(u5 =~= start.subrange((start.len() - u5.len()) as int, start.len() as int)); } }
        self.5.deserialize_in_place(deserializer)?;
        proof { if T0::spec_faithful() && T1::spec_faithful() && T2::spec_faithful() && T3::spec_faithful() && T4::spec_faithful() && T5::spec_faithful() && T6::spec_faithful() && T7::spec_faithful() && T8::spec_faithful() && T9::spec_faithful() { T5::lemma_decode_bounded(u5); } }
        let ghost u6 = deserializer.unread();
        proof { if T0::spec_faithful() && T1::spec_faithful() && T2::spec_faithful() && T3::spec_faithful() && T4::spec_faithful() && T5::spec_faithful() && T6::spec_faithful() && T7::spec_faithful() && T8::spec_faithful() && T9::spec_faithful() { assert(u6 =~= start.subrange((start.len() - u6.len()) as int, start.len() as int)); } }
        self.6.deserialize_in_place(deserializer)?;
        proof { if T0::spec_faithful() && T1::spec_faithful() && T2::spec_faithful() && T3::spec_faithful() && T4::spec_faithful() && T5::spec_faithful() && T6::spec_faithful() && T7::spec_faithful() && T8::spec_faithful() && T9::spec_faithful() { T6::lemma_decode_bounded(u6); } }
        let ghost u7 = deserializer.unread();
        proof { if T0::spec_faithful() && T1::spec_faithful() && T2::spec_faithful() && T3::spec_faithful() && T4::spec_faithful() && T5::spec_faithful() && T6::spec_faithful() && T7::spec_faithful() && T8::spec_faithful() && T9::spec_faithful() { assert(u7 =~= start.subrange((start.len() - u7.len()) as int, start.len() as int)); } }
        self.7.deserialize_in_place(deserializer)?;
        proof { if T0::spec_faithful() && T1::spec_faithful() && T2::spec_faithful() && T3::spec_faithful() && T4::spec_faithful() && T5::spec_faithful() && T6::spec_faithful() && T7::spec_faithful() && T8::spec_faithful() && T9::spec_faithful() { T7::lemma_decode_bounded(u7); } }
        let ghost u8 = deserializer.unread();
        proof { if T0::spec_faithful() && T1::spec_faithful() && T2::spec_faithful() && T3::spec_faithful() && T4::spec_faithful() && T5::spec_faithful() && T6::spec_faithful() && T7::spec_faithful() && T8::spec_faithful() && T9::spec_faithful() { assert(u8 =~= start.subrange((start.len() - u8.len()) as int, start.len() as int)); } }
        self.8.deserialize_in_place(deserializer)?;
        proof { if T0::spec_faithful() && T1::spec_faithful() && T2::spec_faithful() && T3::spec_faithful() && T4::spec_faithful() && T5::spec_faithful() && T6::spec_faithful() && T7::spec_faithful() && T8::spec_faithful() && T9::spec_faithful() { T8::lemma_decode_bounded(u8); } }
        let ghost u9 = deserializer.unread();
        proof { if T0::spec_faithful() && T1::spec_faithful() && T2::spec_faithful() && T3::spec_faithful() && T4::spec_faithful() && T5::spec_faithful() && T6::spec_faithful() && T7::spec_faithful() && T8::spec_faithful() && T9::spec_faithful() { assert(u9 =~= start.subrange((start.len() - u9.len()) as int, start.len() as int)); } }
        self.9.deserialize_in_place(deserializer)?;
        proof { if T0::spec_faithful() && T1::spec_faithful() && T2::spec_faithful() && T3::spec_faithful() && T4::spec_faithful() && T5::spec_faithful() && T6::spec_faithful() && T7::spec_faithful() && T8::spec_faithful() && T9::spec_faithful() { T9::lemma_decode_bounded(u9); } }
        proof { if T0::spec_faithful() && T1::spec_faithful() && T2::spec_faithful() && T3::spec_faithful() && T4::spec_faithful() && T5::spec_faithful() && T6::spec_faithful() && T7::spec_faithful() && T8::spec_faithful() && T9::spec_faithful() { assert(deserializer.unread() =~= start.subrange((start.len() - deserializer.unread().len()) as int, start.len() as int)); } }
        Ok(())
    }
}

impl<T0: WireFormat, T1: WireFormat, T2: WireFormat, T3: WireFormat, T4: WireFormat, T5: WireFormat, T6: WireFormat, T7: WireFormat, T8: WireFormat, T9: WireFormat, T10: WireFormat> WireFormat for (T0, T1, T2, T3, T4, T5, T6, T7, T8, T9, T10) {
    type Model = (T0::Model, T1::Model, T2::Model, T3::Model, T4::Model, T5::Model, T6::Model, T7::Model, T8::Model, T9::Model, T10::Model);

    open spec fn model(&self) -> (T0::Model, T1::Model, T2::Model, T3::Model, T4::Model, T5::Model, T6::Model, T7::Model, T8::Model, T9::Model, T10::Model) {
        (self.0.model(), self.1.model(), self.2.model(), self.3.model(), self.4.model(), self.5.model(), self.6.model(), self.7.model(), self.8.model(), self.9.model(), self.10.model())
    }

    open spec fn spec_encodes(m: (T0::Model, T1::Model, T2::Model, T3::Model, T4::Model, T5::Model, T6::Model, T7::Model, T8::Model, T9::Model, T10::Model), bytes: Seq<u8>) -> bool {
        exists|k1: int| 0 <= k1 <= bytes.len() && #[trigger] T0::spec_encodes(m.0, bytes.subrange(0, k1)) && (exists|k2: int| k1 <= k2 <= bytes.len() && #[trigger] T1::spec_encodes(m.1, bytes.subrange(k1, k2)) && (exists|k3: int| k2 <= k3 <= bytes.len() && #[trigger] T2::spec_encodes(m.2, bytes.subrange(k2, k3)) && (exists|k4: int| k3 <= k4 <= bytes.len() && #[trigger] T3::spec_encodes(m.3, bytes.subrange(k3, k4)) && (exists|k5: int| k4 <= k5 <= bytes.len() && #[trigger] T4::spec_encodes(m.4, bytes.subrange(k4, k5)) && (exists|k6: int| k5 <= k6 <= bytes.len() && #[trigger] T5::spec_encodes(m.5, bytes.subrange(k5, k6)) && (exists|k7: int| k6 <= k7 <= bytes.len() && #[trigger] T6::spec_encodes(m.6, bytes.subrange(k6, k7)) && (exists|k8: int| k7 <= k8 <= bytes.len() && #[trigger] T7::spec_encodes(m.7, bytes.subrange(k7, k8)) && (exists|k9: int| k8 <= k9 <= bytes.len() && #[trigger] T8::spec_encodes(m.8, bytes.subrange(k8, k9)) && (exists|k10: int| k9 <= k10 <= bytes.len() && #[trigger] T9::spec_encodes(m.9, bytes.subrange(k9, k10)) && (T10::spec_encodes(m.10, bytes.subrange(k10, bytes.len() as int))))))))))))
    }

    open spec fn spec_encodable(m: (T0::Model, T1::Model, T2::Model, T3::Model, T4::Model, T5::Model, T6::Model, T7::Model, T8::Model, T9::Model, T10::Model)) -> bool {
        T0::spec_encodable(m.0) && T1::spec_encodable(m.1) && T2::spec_encodable(m.2) && T3::spec_encodable(m.3) && T4::spec_encodable(m.4) && T5::spec_encodable(m.5) && T6::spec_encodable(m.6) && T7::spec_encodable(m.7) && T8::spec_encodable(m.8) && T9::spec_encodable(m.9) && T10::spec_encodable(m.10)
    }

    open spec fn spec_decode(bytes: Seq<u8>) -> Option<((T0::Model, T1::Model, T2::Model, T3::Model, T4::Model, T5::Model, T6::Model, T7::Model, T8::Model, T9::Model, T10::Model), nat)> {
        match T0::spec_decode(bytes.subrange((0) as int, bytes.len() as int)) { None => None, Some((a0, n0)) => if 0 + n0 > bytes.len() { None } else { match T1::spec_decode(bytes.subrange((0 + n0) as int, bytes.len() as int)) { None => None, Some((a1, n1)) => if 0 + n0 + n1 > bytes.len() { None } else { match T2::spec_decode(bytes.subrange((0 + n0 + n1) as int, bytes.len() as int)) { None => None, Some((a2, n2)) => if 0 + n0 + n1 + n2 > bytes.len() { None } else { match T3::spec_decode(bytes.subrange((0 + n0 + n1 + n2) as int, bytes.len() as int)) { None => None, Some((a3, n3)) => if 0 + n0 + n1 + n2 + n3 > bytes.len() { None } else { match T4::spec_decode(bytes.subrange((0 + n0 + n1 + n2 + n3) as int, bytes.len() as int)) { None => None, Some((a4, n4)) => if 0 + n0 + n1 + n2 + n3 + n4 > bytes.len() { None } else { match T5::spec_decode(bytes.subrange((0 + n0 + n1 + n2 + n3 + n4) as int, bytes.len() as int)) { None => None, Some((a5, n5)) => if 0 + n0 + n1 + n2 + n3 + n4 + n5 > bytes.len() { None } else { match T6::spec_decode(bytes.subrange((0 + n0 + n1 + n2 + n3 + n4 + n5) as int, bytes.len() as int)) { None => None, Some((a6, n6)) => if 0 + n0 + n1 + n2 + n3 + n4 + n5 + n6 > bytes.len() { None } else { match T7::spec_decode(bytes.subrange((0 + n0 + n1 + n2 + n3 + n4 + n5 + n6) as int, bytes.len() as int)) { None => None, Some((a7, n7)) => if 0 + n0 + n1 + n2 + n3 + n4 + n5 + n6 + n7 > bytes.len() { None } else { match T8::spec_decode(bytes.subrange((0 + n0 + n1 + n2 + n3 + n4 + n5 + n6 + n7) as int, bytes.len() as int)) { None => None, Some((a8, n8)) => if 0 + n0 + n1 + n2 + n3 + n4 + n5 + n6 + n7 + n8 > bytes.len() { None } else { match T9::spec_decode(bytes.subrange((0 + n0 + n1 + n2 + n3 + n4 + n5 + n6 + n7 + n8) as int, bytes.len() as int)) { None => None, Some((a9, n9)) => if 0 + n0 + n1 + n2 + n3 + n4 + n5 + n6 + n7 + n8 + n9 > bytes.len() { None } else { match T10::spec_decode(bytes.subrange((0 + n0 + n1 + n2 + n3 + n4 + n5 + n6 + n7 + n8 + n9) as int, bytes.len() as int)) { None => None, Some((a10, n10)) => if 0 + n0 + n1 + n2 + n3 + n4 + n5 + n6 + n7 + n8 + n9 + n10 > bytes.len() { None } else { Some(((a0, a1, a2, a3, a4, a5, a6, a7, a8, a9, a10), 0 + n0 + n1 + n2 + n3 + n4 + n5 + n6 + n7 + n8 + n9 + n10 as nat)) } } } } } } } } } } } } } } } } } } } } } }
    }

    open spec fn spec_faithful() -> bool {
        T0::spec_faithful() && T1::spec_faithful() && T2::spec_faithful() && T3::spec_faithful() && T4::spec_faithful() && T5::spec_faithful() && T6::spec_faithful() && T7::spec_faithful() && T8::spec_faithful() && T9::spec_faithful() && T10::spec_faithful()
    }

    #[verifier::rlimit(100)]
    #[verifier::spinoff_prover]
    proof fn lemma_round_trip(m: (T0::Model, T1::Model, T2::Model, T3::Model, T4::Model, T5::Model, T6::Model, T7::Model, T8::Model, T9::Model, T10::Model), bytes: Seq<u8>, rest: Seq<u8>) {
        let k1 = choose|k1: int| 0 <= k1 <= bytes.len() && #[trigger] T0::spec_encodes(m.0, bytes.subrange(0, k1)) && (exists|k2: int| k1 <= k2 <= bytes.len() && #[trigger] T1::spec_encodes(m.1, bytes.subrange(k1, k2)) && (exists|k3: int| k2 <= k3 <= bytes.len() && #[trigger] T2::spec_encodes(m.2, bytes.subrange(k2, k3)) && (exists|k4: int| k3 <= k4 <= bytes.len() && #[trigger] T3::spec_encodes(m.3, bytes.subrange(k3, k4)) && (exists|k5: int| k4 <= k5 <= bytes.len() && #[trigger] T4::spec_encodes(m.4, bytes.subrange(k4, k5)) && (exists|k6: int| k5 <= k6 <= bytes.len() && #[trigger] T5::spec_encodes(m.5, bytes.subrange(k5, k6)) && (exists|k7: int| k6 <= k7 <= bytes.len() && #[trigger] T6::spec_encodes(m.6, bytes.subrange(k6, k7)) && (exists|k8: int| k7 <= k8 <= bytes.len() && #[trigger] T7::spec_encodes(m.7, bytes.subrange(k7, k8)) && (exists|k9: int| k8 <= k9 <= bytes.len() && #[trigger] T8::spec_encodes(m.8, bytes.subrange(k8, k9)) && (exists|k10: int| k9 <= k10 <= bytes.len() && #[trigger] T9::spec_encodes(m.9, bytes.subrange(k9, k10)) && (T10::spec_encodes(m.10, bytes.subrange(k10, bytes.len() as int))))))))))));
        let k2 = choose|k2: int| k1 <= k2 <= bytes.len() && #[trigger] T1::spec_encodes(m.1, bytes.subrange(k1, k2)) && (exists|k3: int| k2 <= k3 <= bytes.len() && #[trigger] T2::spec_encodes(m.2, bytes.subrange(k2, k3)) && (exists|k4: int| k3 <= k4 <= bytes.len() && #[trigger] T3::spec_encodes(m.3, bytes.subrange(k3, k4)) && (exists|k5: int| k4 <= k5 <= bytes.len() && #[trigger] T4::spec_encodes(m.4, bytes.subrange(k4, k5)) && (exists|k6: int| k5 <= k6 <= bytes.len() && #[trigger] T5::spec_encodes(m.5, bytes.subrange(k5, k6)) && (exists|k7: int| k6 <= k7 <= bytes.len() && #[trigger] T6::spec_encodes(m.6, bytes.subrange(k6, k7)) && (exists|k8: int| k7 <= k8 <= bytes.len() && #[trigger] T7::spec_encodes(m.7, bytes.subrange(k7, k8)) && (exists|k9: int| k8 <= k9 <= bytes.len() && #[trigger] T8::spec_encodes(m.8, bytes.subrange(k8, k9)) && (exists|k10: int| k9 <= k10 <= bytes.len() && #[trigger] T9::spec_encodes(m.9, bytes.subrange(k9, k10)) && (T10::spec_encodes(m.10, bytes.subrange(k10, bytes.len() as int)))))))))));
        let k3 = choose|k3: int| k2 <= k3 <= bytes.len() && #[trigger] T2::spec_encodes(m.2, bytes.subrange(k2, k3)) && (exists|k4: int| k3 <= k4 <= bytes.len() && #[trigger] T3::spec_encodes(m.3, bytes.subrange(k3, k4)) && (exists|k5: int| k4 <= k5 <= bytes.len() && #[trigger] T4::spec_encodes(m.4, bytes.subrange(k4, k5)) && (exists|k6: int| k5 <= k6 <= bytes.len() && #[trigger] T5::spec_encodes(m.5, bytes.subrange(k5, k6)) && (exists|k7: int| k6 <= k7 <= bytes.len() && #[trigger] T6::spec_encodes(m.6, bytes.subrange(k6, k7)) && (exists|k8: int| k7 <= k8 <= bytes.len() && #[trigger] T7::spec_encodes(m.7, bytes.subrange(k7, k8)) && (exists|k9: int| k8 <= k9 <= bytes.len() && #[trigger] T8::spec_encodes(m.8, bytes.subrange(k8, k9)) && (exists|k10: int| k9 <= k10 <= bytes.len() && #[trigger] T9::spec_encodes(m.9, bytes.subrange(k9, k10)) && (T10::spec_encodes(m.10, bytes.subrange(k10, bytes.len() as int))))))))));
        let k4 = choose|k4: int| k3 <= k4 <= bytes.len() && #[trigger] T3::spec_encodes(m.3, bytes.subrange(k3, k4)) && (exists|k5: int| k4 <= k5 <= bytes.len() && #[trigger] T4::spec_encodes(m.4, bytes.subrange(k4, k5)) && (exists|k6: int| k5 <= k6 <= bytes.len() && #[trigger] T5::spec_encodes(m.5, bytes.subrange(k5, k6)) && (exists|k7: int| k6 <= k7 <= bytes.len() && #[trigger] T6::spec_encodes(m.6, bytes.subrange(k6, k7)) && (exists|k8: int| k7 <= k8 <= bytes.len() && #[trigger] T7::spec_encodes(m.7, bytes.subrange(k7, k8)) && (exists|k9: int| k8 <= k9 <= bytes.len() && #[trigger] T8::spec_encodes(m.8, bytes.subrange(k8, k9)) && (exists|k10: int| k9 <= k10 <= bytes.len() && #[trigger] T9::spec_encodes(m.9, bytes.subrange(k9, k10)) && (T10::spec_encodes(m.10, bytes.subrange(k10, bytes.len() as int)))))))));
        let k5 = choose|k5: int| k4 <= k5 <= bytes.len() && #[trigger] T4::spec_encodes(m.4, bytes.subrange(k4, k5)) && (exists|k6: int| k5 <= k6 <= bytes.len() && #[trigger] T5::spec_encodes(m.5, bytes.subrange(k5, k6)) && (exists|k7: int| k6 <= k7 <= bytes.len() && #[trigger] T6::spec_encodes(m.6, bytes.subrange(k6, k7)) && (exists|k8: int| k7 <= k8 <= bytes.len() && #[trigger] T7::spec_encodes(m.7, bytes.subrange(k7, k8)) && (exists|k9: int| k8 <= k9 <= bytes.len() && #[trigger] T8::spec_encodes(m.8, bytes.subrange(k8, k9)) && (exists|k10: int| k9 <= k10 <= bytes.len() && #[trigger] T9::spec_encodes(m.9, bytes.subrange(k9, k10)) && (T10::spec_encodes(m.10, bytes.subrange(k10, bytes.len() as int))))))));
        let k6 = choose|k6: int| k5 <= k6 <= bytes.len() && #[trigger] T5::spec_encodes(m.5, bytes.subrange(k5, k6)) && (exists|k7: int| k6 <= k7 <= bytes.len() && #[trigger] T6::spec_encodes(m.6, bytes.subrange(k6, k7)) && (exists|k8: int| k7 <= k8 <= bytes.len() && #[trigger] T7::spec_encodes(m.7, bytes.subrange(k7, k8)) && (exists|k9: int| k8 <= k9 <= bytes.len() && #[trigger] T8::spec_encodes(m.8, bytes.subrange(k8, k9)) && (exists|k10: int| k9 <= k10 <= bytes.len() && #[trigger] T9::spec_encodes(m.9, bytes.subrange(k9, k10)) && (T10::spec_encodes(m.10, bytes.subrange(k10, bytes.len() as int)))))));
        let k7 = choose|k7: int| k6 <= k7 <= bytes.len() && #[trigger] T6::spec_encodes(m.6, bytes.subrange(k6, k7)) && (exists|k8: int| k7 <= k8 <= bytes.len() && #[trigger] T7::spec_encodes(m.7, bytes.subrange(k7, k8)) && (exists|k9: int| k8 <= k9 <= bytes.len() && #[trigger] T8::spec_encodes(m.8, bytes.subrange(k8, k9)) && (exists|k10: int| k9 <= k10 <= bytes.len() && #[trigger] T9::spec_encodes(m.9, bytes.subrange(k9, k10)) && (T10::spec_encodes(m.10, bytes.subrange(k10, bytes.len() as int))))));
        let k8 = choose|k8: int| k7 <= k8 <= bytes.len() && #[trigger] T7::spec_encodes(m.7, bytes.subrange(k7, k8)) && (exists|k9: int| k8 <= k9 <= bytes.len() && #[trigger] T8::spec_encodes(m.8, bytes.subrange(k8, k9)) && (exists|k10: int| k9 <= k10 <= bytes.len() && #[trigger] T9::spec_encodes(m.9, bytes.subrange(k9, k10)) && (T10::spec_encodes(m.10, bytes.subrange(k10, bytes.len() as int)))));
        let k9 = choose|k9: int| k8 <= k9 <= bytes.len() && #[trigger] T8::spec_encodes(m.8, bytes.subrange(k8, k9)) && (exists|k10: int| k9 <= k10 <= bytes.len() && #[trigger] T9::spec_encodes(m.9, bytes.subrange(k9, k10)) && (T10::spec_encodes(m.10, bytes.subrange(k10, bytes.len() as int))));
        let k10 = choose|k10: int| k9 <= k10 <= bytes.len() && #[trigger] T9::spec_encodes(m.9, bytes.subrange(k9, k10)) && (T10::spec_encodes(m.10, bytes.subrange(k10, bytes.len() as int)));
        lemma_field_round_trip::<T0>(m.0, bytes, rest, 0, k1);
        lemma_field_round_trip::<T1>(m.1, bytes, rest, k1, k2);
        lemma_field_round_trip::<T2>(m.2, bytes, rest, k2, k3);
        lemma_field_round_trip::<T3>(m.3, bytes, rest, k3, k4);
        lemma_field_round_trip::<T4>(m.4, bytes, rest, k4, k5);
        lemma_field_round_trip::<T5>(m.5, bytes, rest, k5, k6);
        lemma_field_round_trip::<T6>(m.6, bytes, rest, k6, k7);
        lemma_field_round_trip::<T7>(m.7, bytes, rest, k7, k8);
        lemma_field_round_trip::<T8>(m.8, bytes, rest, k8, k9);
        lemma_field_round_trip::<T9>(m.9, bytes, rest, k9, k10);
        lemma_field_round_trip::<T10>(m.10, bytes, rest, k10, bytes.len() as int);
    }

    proof fn lemma_decode_bounded(bytes: Seq<u8>) {
    }
}

impl<T0: Serialize, T1: Serialize, T2: Serialize, T3: Serialize, T4: Serialize, T5: Serialize, T6: Serialize, T7: Serialize, T8: Serialize, T9: Serialize, T10: Serialize> Serialize for (T0, T1, T2, T3, T4, T5, T6, T7, T8, T9, T10) {
    #[verifier::rlimit(100)]
    #[verifier::spinoff_prover]
    fn serialize<W: WriteUninit>(&self, serializer: &mut Serializer<W>) -> (r: Result<()>) {
        let ghost w0 = serializer.written();
        self.0.serialize(serializer)?;
        let ghost w1 = serializer.written();
        self.1.serialize(serializer)?;
        let ghost w2 = serializer.written();
        self.2.serialize(serializer)?;
        let ghost w3 = serializer.written();
        self.3.serialize(serializer)?;
        let ghost w4 = serializer.written();
        self.4.serialize(serializer)?;
        let ghost w5 = serializer.written();
        self.5.serialize(serializer)?;
        let ghost w6 = serializer.written();
        self.6.serialize(serializer)?;
        let ghost w7 = serializer.written();
        self.7.serialize(serializer)?;
        let ghost w8 = serializer.written();
        self.8.serialize(serializer)?;
        let ghost w9 = serializer.written();
        self.9.serialize(serializer)?;
        let ghost w10 = serializer.written();
        self.10.serialize(serializer)?;
        let ghost w11 = serializer.written();
        proof {
            if T0::spec_faithful() && T1::spec_faithful() && T2::spec_faithful() && T3::spec_faithful() && T4::spec_faithful() && T5::spec_faithful() && T6::spec_faithful() && T7::spec_faithful() && T8::spec_faithful() && T9::spec_faithful() && T10::spec_faithful() {
                lemma_extends_trans(w0, w1, w2);
                lemma_extends_trans(w0, w2, w3);
                lemma_extends_trans(w0, w3, w4);
                lemma_extends_trans(w0, w4, w5);
                lemma_extends_trans(w0, w5, w6);
                lemma_extends_trans(w0, w6, w7);
                lemma_extends_trans(w0, w7, w8);
                lemma_extends_trans(w0, w8, w9);
                lemma_extends_trans(w0, w9, w10);
                lemma_extends_trans(w0, w10, w11);
                let all = appended(w0, w11);
                let m = self.model();
                let k1 = (w1.len() - w0.len()) as int;
                let k2 = (w2.len() - w0.len()) as int;
                let k3 = (w3.len() - w0.len()) as int;
                let k4 = (w4.len() - w0.len()) as int;
                let k5 = (w5.len() - w0.len()) as int;
                let k6 = (w6.len() - w0.len()) as int;
                let k7 = (w7.len() - w0.len()) as int;
                let k8 = (w8.len() - w0.len()) as int;
                let k9 = (w9.len() - w0.len()) as int;
                let k10 = (w10.len() - w0.len()) as int;
                assert(all.subrange(0, k1) =~= appended(w0, w1));
                assert(T0::spec_encodes(m.0, all.subrange(0, k1)));
                assert(all.subrange(k1, k2) =~= appended(w1, w2));
                assert(T1::spec_encodes(m.1, all.subrange(k1, k2)));
                assert(all.subrange(k2, k3) =~= appended(w2, w3));
                assert(T2::spec_encodes(m.2, all.subrange(k2, k3)));
                assert(all.subrange(k3, k4) =~= appended(w3, w4));
                assert(T3::spec_encodes(m.3, all.subrange(k3, k4)));
                assert(all.subrange(k4, k5) =~= appended(w4, w5));
                assert(T4::spec_encodes(m.4, all.subrange(k4, k5)));
                assert(all.subrange(k5, k6) =~= appended(w5, w6));
                assert(T5::spec_encodes(m.5, all.subrange(k5, k6)));
                assert(all.subrange(k6, k7) =~= appended(w6, w7));
                assert(T6::spec_encodes(m.6, all.subrange(k6, k7)));
                assert(all.subrange(k7, k8) =~= appended(w7, w8));
                assert(T7::spec_encodes(m.7, all.subrange(k7, k8)));
                assert(all.subrange(k8, k9) =~= appended(w8, w9));
                assert(T8::spec_encodes(m.8, all.subrange(k8, k9)));
                assert(all.subrange(k9, k10) =~= appended(w9, w10));
                assert(T9::spec_encodes(m.9, all.subrange(k9, k10)));
                assert(all.subrange(k10, all.len() as int) =~= appended(w10, w11));
                assert(T10::spec_encodes(m.10, all.subrange(k10, all.len() as int)));
            }
        }
        Ok(())
    }
}

impl<T0: Deserialize, T1: Deserialize, T2: Deserialize, T3: Deserialize, T4: Deserialize, T5: Deserialize, T6: Deserialize, T7: Deserialize, T8: Deserialize, T9: Deserialize, T10: Deserialize> Deserialize for (T0, T1, T2, T3, T4, T5, T6, T7, T8, T9, T10) {
    #[verifier::rlimit(100)]
    #[verifier::spinoff_prover]
    fn deserialize<R: ReadUninit>(deserializer: &mut Deserializer<R>) -> (r: Result<Self>) {
        let ghost start = deserializer.unread();
        let ghost u0 = deserializer.unread();
        proof { if T0::spec_faithful() && T1::spec_faithful() && T2::spec_faithful() && T3::spec_faithful() && T4::spec_faithful() && T5::spec_faithful() && T6::spec_faithful() && T7::spec_faithful() && T8::spec_faithful() && T9::spec_faithful() && T10::spec_faithful() { assert(u0 =~= start.subrange((start.len() - u0.len()) as int, start.len() as int)); } }
        let a0 = T0::deserialize(deserializer)?;
        proof { if T0::spec_faithful() && T1::spec_faithful() && T2::spec_faithful() && T3::spec_faithful() && T4::spec_faithful() && T5::spec_faithful() && T6::spec_faithful() && T7::spec_faithful() && T8::spec_faithful() && T9::spec_faithful() && T10::spec_faithful() { T0::lemma_decode_bounded(u0); } }
        let ghost u1 = deserializer.unread();
        proof { if T0::spec_faithful() && T1::spec_faithful() && T2::spec_faithful() && T3::spec_faithful() && T4::spec_faithful() && T5::spec_faithful() && T6::spec_faithful() && T7::spec_faithful() && T8::spec_faithful() && T9::spec_faithful() && T10::spec_faithful() { assert(u1 =~= start.subrange((start.len() - u1.len()) as int, start.len() as int)); } }
        let a1 = T1::deserialize(deserializer)?;
        proof { if T0::spec_faithful() && T1::spec_faithful() && T2::spec_faithful() && T3::spec_faithful() && T4::spec_faithful() && T5::spec_faithful() && T6::spec_faithful() && T7::spec_faithful() && T8::spec_faithful() && T9::spec_faithful() && T10::spec_faithful() { T1::lemma_decode_bounded(u1); } }
        let ghost u2 = deserializer.unread();
        proof { if T0::spec_faithful() && T1::spec_faithful() && T2::spec_faithful() && T3::spec_faithful() && T4::spec_faithful() && T5::spec_faithful() && T6::spec_faithful() && T7::spec_faithful() && T8::spec_faithful() && T9::spec_faithful() && T10::spec_faithful() { assert(u2 =~= start.subrange((start.len() - u2.len()) as int, start.len() as int)); } }
        let a2 = T2::deserialize(deserializer)?;
        proof { if T0::spec_faithful() && T1::spec_faithful() && T2::spec_faithful() && T3::spec_faithful() && T4::spec_faithful() && T5::spec_faithful() && T6::spec_faithful() && T7::spec_faithful() && T8::spec_faithful() && T9::spec_faithful() && T10::spec_faithful() { T2::lemma_decode_bounded(u2); } }
        let ghost u3 = deserializer.unread();
        proof { if T0::spec_faithful() && T1::spec_faithful() && T2::spec_faithful() && T3::spec_faithful() && T4::spec_faithful() && T5::spec_faithful() && T6::spec_faithful() && T7::spec_faithful() && T8::spec_faithful() && T9::spec_faithful() && T10::spec_faithful() { assert(u3 =~= start.subrange((start.len() - u3.len()) as int, start.len() as int)); } }
        let a3 = T3::deserialize(deserializer)?;
        proof { if T0::spec_faithful() && T1::spec_faithful() && T2::spec_faithful() && T3::spec_faithful() && T4::spec_faithful() && T5::spec_faithful() && T6::spec_faithful() && T7::spec_faithful() && T8::spec_faithful() && T9::spec_faithful() && T10::spec_faithful() { T3::lemma_decode_bounded(u3); } }
        let ghost u4 = deserializer.unread();
        proof { if T0::spec_faithful() && T1::spec_faithful() && T2::spec_faithful() && T3::spec_faithful() && T4::spec_faithful() && T5::spec_faithful() && T6::spec_faithful() && T7::spec_faithful() && T8::spec_faithful() && T9::spec_faithful() && T10::spec_faithful() { assert(u4 =~= start.subrange((start.len() - u4.len()) as int, start.len() as int)); } }
        let a4 = T4::deserialize(deserializer)?;
        proof { if T0::spec_faithful() && T1::spec_faithful() && T2::spec_faithful() && T3::spec_faithful() && T4::spec_faithful() && T5::spec_faithful() && T6::spec_faithful() && T7::spec_faithful() && T8::spec_faithful() && T9::spec_faithful() && T10::spec_faithful() { T4::lemma_decode_bounded(u4); } }
        let ghost u5 = deserializer.unread();
        proof { if T0::spec_faithful() && T1::spec_faithful() && T2::spec_faithful() && T3::spec_faithful() && T4::spec_faithful() && T5::spec_faithful() && T6::spec_faithful() && T7::spec_faithful() && T8::spec_faithful() && T9::spec_faithful() && T10::spec_faithful() { assert(u5 =~= start.subrange((start.len() - u5.len()) as int, start.len() as int)); } }
        let a5 = T5::deserialize(deserializer)?;
        proof { if T0::spec_faithful() && T1::spec_faithful() && T2::spec_faithful() && T3::spec_faithful() && T4::spec_faithful() && T5::spec_faithful() && T6::spec_faithful() && T7::spec_faithful() && T8::spec_faithful() && T9::spec_faithful() && T10::spec_faithful() { T5::lemma_decode_bounded(u5); } }
        let ghost u6 = deserializer.unread();
        proof { if T0::spec_faithful() && T1::spec_faithful() && T2::spec_faithful() && T3::spec_faithful() && T4::spec_faithful() && T5::spec_faithful() && T6::spec_faithful() && T7::spec_faithful() && T8::spec_faithful() && T9::spec_faithful() && T10::spec_faithful() { assert(u6 =~= start.subrange((start.len() - u6.len()) as int, start.len() as int)); } }
        let a6 = T6::deserialize(deserializer)?;
        proof { if T0::spec_faithful() && T1::spec_faithful() && T2::spec_faithful() && T3::spec_faithful() && T4::spec_faithful() && T5::spec_faithful() && T6::spec_faithful() && T7::spec_faithful() && T8::spec_faithful() && T9::spec_faithful() && T10::spec_faithful() { T6::lemma_decode_bounded(u6); } }
        let ghost u7 = deserializer.unread();
        proof { if T0::spec_faithful() && T1::spec_faithful() && T2::spec_faithful() && T3::spec_faithful() && T4::spec_faithful() && T5::spec_faithful() && T6::spec_faithful() && T7::spec_faithful() && T8::spec_faithful() && T9::spec_faithful() && T10::spec_faithful() { assert(u7 =~= start.subrange((start.len() - u7.len()) as int, start.len() as int)); } }
        let a7 = T7::deserialize(deserializer)?;
        proof { if T0::spec_faithful() && T1::spec_faithful() && T2::spec_faithful() && T3::spec_faithful() && T4::spec_faithful() && T5::spec_faithful() && T6::spec_faithful() && T7::spec_faithful() && T8::spec_faithful() && T9::spec_faithful() && T10::spec_faithful() { T7::lemma_decode_bounded(u7); } }
        let ghost u8 = deserializer.unread();
        proof { if T0::spec_faithful() && T1::spec_faithful() && T2::spec_faithful() && T3::spec_faithful() && T4::spec_faithful() && T5::spec_faithful() && T6::spec_faithful() && T7::spec_faithful() && T8::spec_faithful() && T9::spec_faithful() && T10::spec_faithful() { assert(u8 =~= start.subrange((start.len() - u8.len()) as int, start.len() as int)); } }
        let a8 = T8::deserialize(deserializer)?;
        proof { if T0::spec_faithful() && T1::spec_faithful() && T2::spec_faithful() && T3::spec_faithful() && T4::spec_faithful() && T5::spec_faithful() && T6::spec_faithful() && T7::spec_faithful() && T8::spec_faithful() && T9::spec_faithful() && T10::spec_faithful() { T8::lemma_decode_bounded(u8); } }
        let ghost u9 = deserializer.unread();
        proof { if T0::spec_faithful() && T1::spec_faithful() && T2::spec_faithful() && T3::spec_faithful() && T4::spec_faithful() && T5::spec_faithful() && T6::spec_faithful() && T7::spec_faithful() && T8::spec_faithful() && T9::spec_faithful() && T10::spec_faithful() { assert(u9 =~= start.subrange((start.len() - u9.len()) as int, start.len() as int)); } }
        let a9 = T9::deserialize(deserializer)?;
        proof { if T0::spec_faithful() && T1::spec_faithful() && T2::spec_faithful() && T3::spec_faithful() && T4::spec_faithful() && T5::spec_faithful() && T6::spec_faithful() && T7::spec_faithful() && T8::spec_faithful() && T9::spec_faithful() && T10::spec_faithful() { T9::lemma_decode_bounded(u9); } }
        let ghost u10 = deserializer.unread();
        proof { if T0::spec_faithful() && T1::spec_faithful() && T2::spec_faithful() && T3::spec_faithful() && T4::spec_faithful() && T5::spec_faithful() && T6::spec_faithful() && T7::spec_faithful() && T8::spec_faithful() && T9::spec_faithful() && T10::spec_faithful() { assert(u10 =~= start.subrange((start.len() - u10.len()) as int, start.len() as int)); } }
        let a10 = T10::deserialize(deserializer)?;
        proof { if T0::spec_faithful() && T1::spec_faithful() && T2::spec_faithful() && T3::spec_faithful() && T4::spec_faithful() && T5::spec_faithful() && T6::spec_faithful() && T7::spec_faithful() && T8::spec_faithful() && T9::spec_faithful() && T10::spec_faithful() { T10::lemma_decode_bounded(u10); } }
        proof { if T0::spec_faithful() && T1::spec_faithful() && T2::spec_faithful() && T3::spec_faithful() && T4::spec_faithful() && T5::spec_faithful() && T6::spec_faithful() && T7::spec_faithful() && T8::spec_faithful() && T9::spec_faithful() && T10::spec_faithful() { assert(deserializer.unread() =~= start.subrange((start.len() - deserializer.unread().len()) as int, start.len() as int)); } }
        Ok((a0, a1, a2, a3, a4, a5, a6, a7, a8, a9, a10))
    }

    #[verifier::rlimit(100)]
    #[verifier::spinoff_prover]
    fn deserialize_in_place<R: ReadUninit>(&mut self, deserializer: &mut Deserializer<R>) -> (r: Result<()>) {
        let ghost start = deserializer.unread();
        let ghost u0 = deserializer.unread();
        proof { if T0::spec_faithful() && T1::spec_faithful() && T2::spec_faithful() && T3::spec_faithful() && T4::spec_faithful() && T5::spec_faithful() && T6::spec_faithful() && T7::spec_faithful() && T8::spec_faithful() && T9::spec_faithful() && T10::spec_faithful() { assert(u0 =~= start.subrange((start.len() - u0.len()) as int, start.len() as int)); } }
        self.0.deserialize_in_place(deserializer)?;
        proof { if T0::spec_faithful() && T1::spec_faithful() && T2::spec_faithful() && T3::spec_faithful() && T4::spec_faithful() && T5::spec_faithful() && T6::spec_faithful() && T7::spec_faithful() && T8::spec_faithful() && T9::spec_faithful() && T10::spec_faithful() { T0::lemma_decode_bounded(u0); } }
        let ghost u1 = deserializer.unread();
        proof { if T0::spec_faithful() && T1::spec_faithful() && T2::spec_faithful() && T3::spec_faithful() && T4::spec_faithful() && T5::spec_faithful() && T6::spec_faithful() && T7::spec_faithful() && T8::spec_faithful() && T9::spec_faithful() && T10::spec_faithful() { assert(u1 =~= start.subrange((start.len() - u1.len()) as int, start.len() as int)); } }
        self.1.deserialize_in_place(deserializer)?;
        proof { if T0::spec_faithful() && T1::spec_faithful() && T2::spec_faithful() && T3::spec_faithful() && T4::spec_faithful() && T5::spec_faithful() && T6::spec_faithful() && T7::spec_faithful() && T8::spec_faithful() && T9::spec_faithful() && T10::spec_faithful() { T1::lemma_decode_bounded(u1); } }
        let ghost u2 = deserializer.unread();
        proof { if T0::spec_faithful() && T1::spec_faithful() && T2::spec_faithful() && T3::spec_faithful() && T4::spec_faithful() && T5::spec_faithful() && T6::spec_faithful() && T7::spec_faithful() && T8::spec_faithful() && T9::spec_faithful() && T10::spec_faithful() { assert(u2 =~= start.subrange((start.len() - u2.len()) as int, start.len() as int)); } }
        self.2.deserialize_in_place(deserializer)?;
        proof { if T0::spec_faithful() && T1::spec_faithful() && T2::spec_faithful() && T3::spec_faithful() && T4::spec_faithful() && T5::spec_faithful() && T6::spec_faithful() && T7::spec_faithful() && T8::spec_faithful() && T9::spec_faithful() && T10::spec_faithful() { T2::lemma_decode_bounded(u2); } }
        let ghost u3 = deserializer.unread();
        proof { if T0::spec_faithful() && T1::spec_faithful() && T2::spec_faithful() && T3::spec_faithful() && T4::spec_faithful() && T5::spec_faithful() && T6::spec_faithful() && T7::spec_faithful() && T8::spec_faithful() && T9::spec_faithful() && T10::spec_faithful() { assert(u3 =~= start.subrange((start.len() - u3.len()) as int, start.len() as int)); } }
        self.3.deserialize_in_place(deserializer)?;
        proof { if T0::spec_faithful() && T1::spec_faithful() && T2::spec_faithful() && T3::spec_faithful() && T4::spec_faithful() && T5::spec_faithful() && T6::spec_faithful() && T7::spec_faithful() && T8::spec_faithful() && T9::spec_faithful() && T10::spec_faithful() { T3::lemma_decode_bounded(u3); } }
        let ghost u4 = deserializer.unread();
        proof { if T0::spec_faithful() && T1::spec_faithful() && T2::spec_faithful() && T3::spec_faithful() && T4::spec_faithful() && T5::spec_faithful() && T6::spec_faithful() && T7::spec_faithful() && T8::spec_faithful() && T9::spec_faithful() && T10::spec_faithful() { assert(u4 =~= start.subrange((start.len() - u4.len()) as int, start.len() as int)); } }
        self.4.deserialize_in_place(deserializer)?;
        proof { if T0::spec_faithful() && T1::spec_faithful() && T2::spec_faithful() && T3::spec_faithful() && T4::spec_faithful() && T5::spec_faithful() && T6::spec_faithful() && T7::spec_faithful() && T8::spec_faithful() && T9::spec_faithful() && T10::spec_faithful() { T4::lemma_decode_bounded(u4); } }
        let ghost u5 = deserializer.unread();
        proof { if T0::spec_faithful() && T1::spec_faithful() && T2::spec_faithful() && T3::spec_faithful() && T4::spec_faithful() && T5::spec_faithful() && T6::spec_faithful() && T7::spec_faithful() && T8::spec_faithful() && T9::spec_faithful() && T10::spec_faithful() { assert(u5 =~= start.subrange((start.len() - u5.len()) as int, start.len() as int)); } }
        self.5.deserialize_in_place(deserializer)?;
        proof { if T0::spec_faithful() && T1::spec_faithful() && T2::spec_faithful() && T3::spec_faithful() && T4::spec_faithful() && T5::spec_faithful() && T6::spec_faithful() && T7::spec_faithful() && T8::spec_faithful() && T9::spec_faithful() && T10::spec_faithful() { T5::lemma_decode_bounded(u5); } }
        let ghost u6 = deserializer.unread();
        proof { if T0::spec_faithful() && T1::spec_faithful() && T2::spec_faithful() && T3::spec_faithful() && T4::spec_faithful() && T5::spec_faithful() && T6::spec_faithful() && T7::spec_faithful() && T8::spec_faithful() && T9::spec_faithful() && T10::spec_faithful() { assert(u6 =~= start.subrange((start.len() - u6.len()) as int, start.len() as int)); } }
        self.6.deserialize_in_place(deserializer)?;
        proof { if T0::spec_faithful() && T1::spec_faithful() && T2::spec_faithful() && T3::spec_faithful() && T4::spec_faithful() && T5::spec_faithful() && T6::spec_faithful() && T7::spec_faithful() && T8::spec_faithful() && T9::spec_faithful() && T10::spec_faithful() { T6::lemma_decode_bounded(u6); } }
        let ghost u7 = deserializer.unread();
        proof { if T0::spec_faithful() && T1::spec_faithful() && T2::spec_faithful() && T3::spec_faithful() && T4::spec_faithful() && T5::spec_faithful() && T6::spec_faithful() && T7::spec_faithful() && T8::spec_faithful() && T9::spec_faithful() && T10::spec_faithful() { assert(u7 =~= start.subrange((start.len() - u7.len()) as int, start.len() as int)); } }
        self.7.deserialize_in_place(deserializer)?;
        proof { if T0::spec_faithful() && T1::spec_faithful() && T2::spec_faithful() && T3::spec_faithful() && T4::spec_faithful() && T5::spec_faithful() && T6::spec_faithful() && T7::spec_faithful() && T8::spec_faithful() && T9::spec_faithful() && T10::spec_faithful() { T7::lemma_decode_bounded(u7); } }
        let ghost u8 = deserializer.unread();
        proof { if T0::spec_faithful() && T1::spec_faithful() && T2::spec_faithful() && T3::spec_faithful() && T4::spec_faithful() && T5::spec_faithful() && T6::spec_faithful() && T7::spec_faithful() && T8::spec_faithful() && T9::spec_faithful() && T10::spec_faithful() { assert(u8 =~= start.subrange((start.len() - u8.len()) as int, start.len() as int)); } }
        self.8.deserialize_in_place(deserializer)?;
        proof { if T0::spec_faithful() && T1::spec_faithful() && T2::spec_faithful() && T3::spec_faithful() && T4::spec_faithful() && T5::spec_faithful() && T6::spec_faithful() && T7::spec_faithful() && T8::spec_faithful() && T9::spec_faithful() && T10::spec_faithful() { T8::lemma_decode_bounded(u8); } }
        let ghost u9 = deserializer.unread();
        proof { if T0::spec_faithful() && T1::spec_faithful() && T2::spec_faithful() && T3::spec_faithful() && T4::spec_faithful() && T5::spec_faithful() && T6::spec_faithful() && T7::spec_faithful() && T8::spec_faithful() && T9::spec_faithful() && T10::spec_faithful() { assert(u9 =~= start.subrange((start.len() - u9.len()) as int, start.len() as int)); } }
        self.9.deserialize_in_place(deserializer)?;
        proof { if T0::spec_faithful() && T1::spec_faithful() && T2::spec_faithful() && T3::spec_faithful() && T4::spec_faithful() && T5::spec_faithful() && T6::spec_faithful() && T7::spec_faithful() && T8::spec_faithful() && T9::spec_faithful() && T10::spec_faithful() { T9::lemma_decode_bounded(u9); } }
        let ghost u10 = deserializer.unread();
        proof { if T0::spec_faithful() && T1::spec_faithful() && T2::spec_faithful() && T3::spec_faithful() && T4::spec_faithful() && T5::spec_faithful() && T6::spec_faithful() && T7::spec_faithful() && T8::spec_faithful() && T9::spec_faithful() && T10::spec_faithful() { assert(u10 =~= start.subrange((start.len() - u10.len()) as int, start.len() as int)); } }
        self.10.deserialize_in_place(deserializer)?;
        proof { if T0::spec_faithful() && T1::spec_faithful() && T2::spec_faithful() && T3::spec_faithful() && T4::spec_faithful() && T5::spec_faithful() && T6::spec_faithful() && T7::spec_faithful() && T8::spec_faithful() && T9::spec_faithful() && T10::spec_faithful() { T10::lemma_decode_bounded(u10); } }
        proof { if T0::spec_faithful() && T1::spec_faithful() && T2::spec_faithful() && T3::spec_faithful() && T4::spec_faithful() && T5::spec_faithful() && T6::spec_faithful() && T7::spec_faithful() && T8::spec_faithful() && T9::spec_faithful() && T10::spec_faithful() { assert(deserializer.unread() =~= start.subrange((start.len() - deserializer.unread().len()) as int, start.len() as int)); } }
        Ok(())
    }
}

impl<T0: WireFormat, T1: WireFormat, T2: WireFormat, T3: WireFormat, T4: WireFormat, T5: WireFormat, T6: WireFormat, T7: WireFormat, T8: WireFormat, T9: WireFormat, T10: WireFormat, T11: WireFormat> WireFormat for (T0, T1, T2, T3, T4, T5, T6, T7, T8, T9, T10, T11) {
    type Model = (T0::Model, T1::Model, T2::Model, T3::Model, T4::Model, T5::Model, T6::Model, T7::Model, T8::Model, T9::Model, T10::Model, T11::Model);

    open spec fn model(&self) -> (T0::Model, T1::Model, T2::Model, T3::Model, T4::Model, T5::Model, T6::Model, T7::Model, T8::Model, T9::Model, T10::Model, T11::Model) {
        (self.0.model(), self.1.model(), self.2.model(), self.3.model(), self.4.model(), self.5.model(), self.6.model(), self.7.model(), self.8.model(), self.9.model(), self.10.model(), self.11.model())
    }

    open spec fn spec_encodes(m: (T0::Model, T1::Model, T2::Model, T3::Model, T4::Model, T5::Model, T6::Model, T7::Model, T8::Model, T9::Model, T10::Model, T11::Model), bytes: Seq<u8>) -> bool {
        exists|k1: int| 0 <= k1 <= bytes.len() && #[trigger] T0::spec_encodes(m.0, bytes.subrange(0, k1)) && (exists|k2: int| k1 <= k2 <= bytes.len() && #[trigger] T1::spec_encodes(m.1, bytes.subrange(k1, k2)) && (exists|k3: int| k2 <= k3 <= bytes.len() && #[trigger] T2::spec_encodes(m.2, bytes.subrange(k2, k3)) && (exists|k4: int| k3 <= k4 <= bytes.len() && #[trigger] T3::spec_encodes(m.3, bytes.subrange(k3, k4)) && (exists|k5: int| k4 <= k5 <= bytes.len() && #[trigger] T4::spec_encodes(m.4, bytes.subrange(k4, k5)) && (exists|k6: int| k5 <= k6 <= bytes.len() && #[trigger] T5::spec_encodes(m.5, bytes.subrange(k5, k6)) && (exists|k7: int| k6 <= k7 <= bytes.len() && #[trigger] T6::spec_encodes(m.6, bytes.subrange(k6, k7)) && (exists|k8: int| k7 <= k8 <= bytes.len() && #[trigger] T7::spec_encodes(m.7, bytes.subrange(k7, k8)) && (exists|k9: int| k8 <= k9 <= bytes.len() && #[trigger] T8::spec_encodes(m.8, bytes.subrange(k8, k9)) && (exists|k10: int| k9 <= k10 <= bytes.len() && #[trigger] T9::spec_encodes(m.9, bytes.subrange(k9, k10)) && (exists|k11: int| k10 <= k11 <= bytes.len() && #[trigger] T10::spec_encodes(m.10, bytes.subrange(k10, k11)) && (T11::spec_encodes(m.11, bytes.subrange(k11, bytes.len() as int)))))))))))))
    }

    open spec fn spec_encodable(m: (T0::Model, T1::Model, T2::Model, T3::Model, T4::Model, T5::Model, T6::Model, T7::Model, T8::Model, T9::Model, T10::Model, T11::Model)) -> bool {
        T0::spec_encodable(m.0) && T1::spec_encodable(m.1) && T2::spec_encodable(m.2) && T3::spec_encodable(m.3) && T4::spec_encodable(m.4) && T5::spec_encodable(m.5) && T6::spec_encodable(m.6) && T7::spec_encodable(m.7) && T8::spec_encodable(m.8) && T9::spec_encodable(m.9) && T10::spec_encodable(m.10) && T11::spec_encodable(m.11)
    }

    open spec fn spec_decode(bytes: Seq<u8>) -> Option<((T0::Model, T1::Model, T2::Model, T3::Model, T4::Model, T5::Model, T6::Model, T7::Model, T8::Model, T9::Model, T10::Model, T11::Model), nat)> {
        match T0::spec_decode(bytes.subrange((0) as int, bytes.len() as int)) { None => None, Some((a0, n0)) => if 0 + n0 > bytes.len() { None } else { match T1::spec_decode(bytes.subrange((0 + n0) as int, bytes.len() as int)) { None => None, Some((a1, n1)) => if 0 + n0 + n1 > bytes.len() { None } else { match T2::spec_decode(bytes.subrange((0 + n0 + n1) as int, bytes.len() as int)) { None => None, Some((a2, n2)) => if 0 + n0 + n1 + n2 > bytes.len() { None } else { match T3::spec_decode(bytes.subrange((0 + n0 + n1 + n2) as int, bytes.len() as int)) { None => None, Some((a3, n3)) => if 0 + n0 + n1 + n2 + n3 > bytes.len() { None } else { match T4::spec_decode(bytes.subrange((0 + n0 + n1 + n2 + n3) as int, bytes.len() as int)) { None => None, Some((a4, n4)) => if 0 + n0 + n1 + n2 + n3 + n4 > bytes.len() { None } else { match T5::spec_decode(bytes.subrange((0 + n0 + n1 + n2 + n3 + n4) as int, bytes.len() as int)) { None => None, Some((a5, n5)) => if 0 + n0 + n1 + n2 + n3 + n4 + n5 > bytes.len() { None } else { match T6::spec_decode(bytes.subrange((0 + n0 + n1 + n2 + n3 + n4 + n5) as int, bytes.len() as int)) { None => None, Some((a6, n6)) => if 0 + n0 + n1 + n2 + n3 + n4 + n5 + n6 > bytes.len() { None } else { match T7::spec_decode(bytes.subrange((0 + n0 + n1 + n2 + n3 + n4 + n5 + n6) as int, bytes.len() as int)) { None => None, Some((a7, n7)) => if 0 + n0 + n1 + n2 + n3 + n4 + n5 + n6 + n7 > bytes.len() { None } else { match T8::spec_decode(bytes.subrange((0 + n0 + n1 + n2 + n3 + n4 + n5 + n6 + n7) as int, bytes.len() as int)) { None => None, Some((a8, n8)) => if 0 + n0 + n1 + n2 + n3 + n4 + n5 + n6 + n7 + n8 > bytes.len() { None } else { match T9::spec_decode(bytes.subrange((0 + n0 + n1 + n2 + n3 + n4 + n5 + n6 + n7 + n8) as int, bytes.len() as int)) { None => None, Some((a9, n9)) => if 0 + n0 + n1 + n2 + n3 + n4 + n5 + n6 + n7 + n8 + n9 > bytes.len() { None } else { match T10::spec_decode(bytes.subrange((0 + n0 + n1 + n2 + n3 + n4 + n5 + n6 + n7 + n8 + n9) as int, bytes.len() as int)) { None => None, Some((a10, n10)) => if 0 + n0 + n1 + n2 + n3 + n4 + n5 + n6 + n7 + n8 + n9 + n10 > bytes.len() { None } else { match T11::spec_decode(bytes.subrange((0 + n0 + n1 + n2 + n3 + n4 + n5 + n6 + n7 + n8 + n9 + n10) as int, bytes.len() as int)) { None => None, Some((a11, n11)) => if 0 + n0 + n1 + n2 + n3 + n4 + n5 + n6 + n7 + n8 + n9 + n10 + n11 > bytes.len() { None } else { Some(((a0, a1, a2, a3, a4, a5, a6, a7, a8, a9, a10, a11), 0 + n0 + n1 + n2 + n3 + n4 + n5 + n6 + n7 + n8 + n9 + n10 + n11 as nat)) } } } } } } } } } } } } } } } } } } } } } } } }
    }

    open spec fn spec_faithful() -> bool {
        T0::spec_faithful() && T1::spec_faithful() && T2::spec_faithful() && T3::spec_faithful() && T4::spec_faithful() && T5::spec_faithful() && T6::spec_faithful() && T7::spec_faithful() && T8::spec_faithful() && T9::spec_faithful() && T10::spec_faithful() && T11::spec_faithful()
    }

    #[verifier::rlimit(100)]
    #[verifier::spinoff_prover]
    proof fn lemma_round_trip(m: (T0::Model, T1::Model, T2::Model, T3::Model, T4::Model, T5::Model, T6::Model, T7::Model, T8::Model, T9::Model, T10::Model, T11::Model), bytes: Seq<u8>, rest: Seq<u8>) {
        let k1 = choose|k1: int| 0 <= k1 <= bytes.len() && #[trigger] T0::spec_encodes(m.0, bytes.subrange(0, k1)) && (exists|k2: int| k1 <= k2 <= bytes.len() && #[trigger] T1::spec_encodes(m.1, bytes.subrange(k1, k2)) && (exists|k3: int| k2 <= k3 <= bytes.len() && #[trigger] T2::spec_encodes(m.2, bytes.subrange(k2, k3)) && (exists|k4: int| k3 <= k4 <= bytes.len() && #[trigger] T3::spec_encodes(m.3, bytes.subrange(k3, k4)) && (exists|k5: int| k4 <= k5 <= bytes.len() && #[trigger] T4::spec_encodes(m.4, bytes.subrange(k4, k5)) && (exists|k6: int| k5 <= k6 <= bytes.len() && #[trigger] T5::spec_encodes(m.5, bytes.subrange(k5, k6)) && (exists|k7: int| k6 <= k7 <= bytes.len() && #[trigger] T6::spec_encodes(m.6, bytes.subrange(k6, k7)) && (exists|k8: int| k7 <= k8 <= bytes.len() && #[trigger] T7::spec_encodes(m.7, bytes.subrange(k7, k8)) && (exists|k9: int| k8 <= k9 <= bytes.len() && #[trigger] T8::spec_encodes(m.8, bytes.subrange(k8, k9)) && (exists|k10: int| k9 <= k10 <= bytes.len() && #[trigger] T9::spec_encodes(m.9, bytes.subrange(k9, k10)) && (exists|k11: int| k10 <= k11 <= bytes.len() && #[trigger] T10::spec_encodes(m.10, bytes.subrange(k10, k11)) && (T11::spec_encodes(m.11, bytes.subrange(k11, bytes.len() as int)))))))))))));
        let k2 = choose|k2: int| k1 <= k2 <= bytes.len() && #[trigger] T1::spec_encodes(m.1, bytes.subrange(k1, k2)) && (exists|k3: int| k2 <= k3 <= bytes.len() && #[trigger] T2::spec_encodes(m.2, bytes.subrange(k2, k3)) && (exists|k4: int| k3 <= k4 <= bytes.len() && #[trigger] T3::spec_encodes(m.3, bytes.subrange(k3, k4)) && (exists|k5: int| k4 <= k5 <= bytes.len() && #[trigger] T4::spec_encodes(m.4, bytes.subrange(k4, k5)) && (exists|k6: int| k5 <= k6 <= bytes.len() && #[trigger] T5::spec_encodes(m.5, bytes.subrange(k5, k6)) && (exists|k7: int| k6 <= k7 <= bytes.len() && #[trigger] T6::spec_encodes(m.6, bytes.subrange(k6, k7)) && (exists|k8: int| k7 <= k8 <= bytes.len() && #[trigger] T7::spec_encodes(m.7, bytes.subrange(k7, k8)) && (exists|k9: int| k8 <= k9 <= bytes.len() && #[trigger] T8::spec_encodes(m.8, bytes.subrange(k8, k9)) && (exists|k10: int| k9 <= k10 <= bytes.len() && #[trigger] T9::spec_encodes(m.9, bytes.subrange(k9, k10)) && (exists|k11: int| k10 <= k11 <= bytes.len() && #[trigger] T10::spec_encodes(m.10, bytes.subrange(k10, k11)) && (T11::spec_encodes(m.11, bytes.subrange(k11, bytes.len() as int))))))))))));
        let k3 = choose|k3: int| k2 <= k3 <= bytes.len() && #[trigger] T2::spec_encodes(m.2, bytes.subrange(k2, k3)) && (exists|k4: int| k3 <= k4 <= bytes.len() && #[trigger] T3::spec_encodes(m.3, bytes.subrange(k3, k4)) && (exists|k5: int| k4 <= k5 <= bytes.len() && #[trigger] T4::spec_encodes(m.4, bytes.subrange(k4, k5)) && (exists|k6: int| k5 <= k6 <= bytes.len() && #[trigger] T5::spec_encodes(m.5, bytes.subrange(k5, k6)) && (exists|k7: int| k6 <= k7 <= bytes.len() && #[trigger] T6::spec_encodes(m.6, bytes.subrange(k6, k7)) && (exists|k8: int| k7 <= k8 <= bytes.len() && #[trigger] T7::spec_encodes(m.7, bytes.subrange(k7, k8)) && (exists|k9: int| k8 <= k9 <= bytes.len() && #[trigger] T8::spec_encodes(m.8, bytes.subrange(k8, k9)) && (exists|k10: int| k9 <= k10 <= bytes.len() && #[trigger] T9::spec_encodes(m.9, bytes.subrange(k9, k10)) && (exists|k11: int| k10 <= k11 <= bytes.len() && #[trigger] T10::spec_encodes(m.10, bytes.subrange(k10, k11)) && (T11::spec_encodes(m.11, bytes.subrange(k11, bytes.len() as int)))))))))));
        let k4 = choose|k4: int| k3 <= k4 <= bytes.len() && #[trigger] T3::spec_encodes(m.3, bytes.subrange(k3, k4)) && (exists|k5: int| k4 <= k5 <= bytes.len() && #[trigger] T4::spec_encodes(m.4, bytes.subrange(k4, k5)) && (exists|k6: int| k5 <= k6 <= bytes.len() && #[trigger] T5::spec_encodes(m.5, bytes.subrange(k5, k6)) && (exists|k7: int| k6 <= k7 <= bytes.len() && #[trigger] T6::spec_encodes(m.6, bytes.subrange(k6, k7)) && (exists|k8: int| k7 <= k8 <= bytes.len() && #[trigger] T7::spec_encodes(m.7, bytes.subrange(k7, k8)) && (exists|k9: int| k8 <= k9 <= bytes.len() && #[trigger] T8::spec_encodes(m.8, bytes.subrange(k8, k9)) && (exists|k10: int| k9 <= k10 <= bytes.len() && #[trigger] T9::spec_encodes(m.9, bytes.subrange(k9, k10)) && (exists|k11: int| k10 <= k11 <= bytes.len() && #[trigger] T10::spec_encodes(m.10, bytes.subrange(k10, k11)) && (T11::spec_encodes(m.11, bytes.subrange(k11, bytes.len() as int))))))))));
        let k5 = choose|k5: int| k4 <= k5 <= bytes.len() && #[trigger] T4::spec_encodes(m.4, bytes.subrange(k4, k5)) && (exists|k6: int| k5 <= k6 <= bytes.len() && #[trigger] T5::spec_encodes(m.5, bytes.subrange(k5, k6)) && (exists|k7: int| k6 <= k7 <= bytes.len() && #[trigger] T6::spec_encodes(m.6, bytes.subrange(k6, k7)) && (exists|k8: int| k7 <= k8 <= bytes.len() && #[trigger] T7::spec_encodes(m.7, bytes.subrange(k7, k8)) && (exists|k9: int| k8 <= k9 <= bytes.len() && #[trigger] T8::spec_encodes(m.8, bytes.subrange(k8, k9)) && (exists|k10: int| k9 <= k10 <= bytes.len() && #[trigger] T9::spec_encodes(m.9, bytes.subrange(k9, k10)) && (exists|k11: int| k10 <= k11 <= bytes.len() && #[trigger] T10::spec_encodes(m.10, bytes.subrange(k10, k11)) && (T11::spec_encodes(m.11, bytes.subrange(k11, bytes.len() as int)))))))));
        let k6 = choose|k6: int| k5 <= k6 <= bytes.len() && #[trigger] T5::spec_encodes(m.5, bytes.subrange(k5, k6)) && (exists|k7: int| k6 <= k7 <= bytes.len() && #[trigger] T6::spec_encodes(m.6, bytes.subrange(k6, k7)) && (exists|k8: int| k7 <= k8 <= bytes.len() && #[trigger] T7::spec_encodes(m.7, bytes.subrange(k7, k8)) && (exists|k9: int| k8 <= k9 <= bytes.len() && #[trigger] T8::spec_encodes(m.8, bytes.subrange(k8, k9)) && (exists|k10: int| k9 <= k10 <= bytes.len() && #[trigger] T9::spec_encodes(m.9, bytes.subrange(k9, k10)) && (exists|k11: int| k10 <= k11 <= bytes.len() && #[trigger] T10::spec_encodes(m.10, bytes.subrange(k10, k11)) && (T11::spec_encodes(m.11, bytes.subrange(k11, bytes.len() as int))))))));
        let k7 = choose|k7: int| k6 <= k7 <= bytes.len() && #[trigger] T6::spec_encodes(m.6, bytes.subrange(k6, k7)) && (exists|k8: int| k7 <= k8 <= bytes.len() && #[trigger] T7::spec_encodes(m.7, bytes.subrange(k7, k8)) && (exists|k9: int| k8 <= k9 <= bytes.len() && #[trigger] T8::spec_encodes(m.8, bytes.subrange(k8, k9)) && (exists|k10: int| k9 <= k10 <= bytes.len() && #[trigger] T9::spec_encodes(m.9, bytes.subrange(k9, k10)) && (exists|k11: int| k10 <= k11 <= bytes.len() && #[trigger] T10::spec_encodes(m.10, bytes.subrange(k10, k11)) && (T11::spec_encodes(m.11, bytes.subrange(k11, bytes.len() as int)))))));
        let k8 = choose|k8: int| k7 <= k8 <= bytes.len() && #[trigger] T7::spec_encodes(m.7, bytes.subrange(k7, k8)) && (exists|k9: int| k8 <= k9 <= bytes.len() && #[trigger] T8::spec_encodes(m.8, bytes.subrange(k8, k9)) && (exists|k10: int| k9 <= k10 <= bytes.len() && #[trigger] T9::spec_encodes(m.9, bytes.subrange(k9, k10)) && (exists|k11: int| k10 <= k11 <= bytes.len() && #[trigger] T10::spec_encodes(m.10, bytes.subrange(k10, k11)) && (T11::spec_encodes(m.11, bytes.subrange(k11, bytes.len() as int))))));
        let k9 = choose|k9: int| k8 <= k9 <= bytes.len() && #[trigger] T8::spec_encodes(m.8, bytes.subrange(k8, k9)) && (exists|k10: int| k9 <= k10 <= bytes.len() && #[trigger] T9::spec_encodes(m.9, bytes.subrange(k9, k10)) && (exists|k11: int| k10 <= k11 <= bytes.len() && #[trigger] T10::spec_encodes(m.10, bytes.subrange(k10, k11)) && (T11::spec_encodes(m.11, bytes.subrange(k11, bytes.len() as int)))));
        let k10 = choose|k10: int| k9 <= k10 <= bytes.len() && #[trigger] T9::spec_encodes(m.9, bytes.subrange(k9, k10)) && (exists|k11: int| k10 <= k11 <= bytes.len() && #[trigger] T10::spec_encodes(m.10, bytes.subrange(k10, k11)) && (T11::spec_encodes(m.11, bytes.subrange(k11, bytes.len() as int))));
        let k11 = choose|k11: int| k10 <= k11 <= bytes.len() && #[trigger] T10::spec_encodes(m.10, bytes.subrange(k10, k11)) && (T11::spec_encodes(m.11, bytes.subrange(k11, bytes.len() as int)));
        lemma_field_round_trip::<T0>(m.0, bytes, rest, 0, k1);
        lemma_field_round_trip::<T1>(m.1, bytes, rest, k1, k2);
        lemma_field_round_trip::<T2>(m.2, bytes, rest, k2, k3);
        lemma_field_round_trip::<T3>(m.3, bytes, rest, k3, k4);
        lemma_field_round_trip::<T4>(m.4, bytes, rest, k4, k5);
        lemma_field_round_trip::<T5>(m.5, bytes, rest, k5, k6);
        lemma_field_round_trip::<T6>(m.6, bytes, rest, k6, k7);
        lemma_field_round_trip::<T7>(m.7, bytes, rest, k7, k8);
        lemma_field_round_trip::<T8>(m.8, bytes, rest, k8, k9);
        lemma_field_round_trip::<T9>(m.9, bytes, rest, k9, k10);
        lemma_field_round_trip::<T10>(m.10, bytes, rest, k10, k11);
        lemma_field_round_trip::<T11>(m.11, bytes, rest, k11, bytes.len() as int);
    }

    proof fn lemma_decode_bounded(bytes: Seq<u8>) {
    }
}

impl<T0: Serialize, T1: Serialize, T2: Serialize, T3: Serialize, T4: Serialize, T5: Serialize, T6: Serialize, T7: Serialize, T8: Serialize, T9: Serialize, T10: Serialize, T11: Serialize> Serialize for (T0, T1, T2, T3, T4, T5, T6, T7, T8, T9, T10, T11) {
    #[verifier::rlimit(100)]
    #[verifier::spinoff_prover]
    fn serialize<W: WriteUninit>(&self, serializer: &mut Serializer<W>) -> (r: Result<()>) {
        let ghost w0 = serializer.written();
        self.0.serialize(serializer)?;
        let ghost w1 = serializer.written();
        self.1.serialize(serializer)?;
        let ghost w2 = serializer.written();
        self.2.serialize(serializer)?;
        let ghost w3 = serializer.written();
        self.3.serialize(serializer)?;
        let ghost w4 = serializer.written();
        self.4.serialize(serializer)?;
        let ghost w5 = serializer.written();
        self.5.serialize(serializer)?;
        let ghost w6 = serializer.written();
        self.6.serialize(serializer)?;
        let ghost w7 = serializer.written();
        self.7.serialize(serializer)?;
        let ghost w8 = serializer.written();
        self.8.serialize(serializer)?;
        let ghost w9 = serializer.written();
        self.9.serialize(serializer)?;
        let ghost w10 = serializer.written();
        self.10.serialize(serializer)?;
        let ghost w11 = serializer.written();
        self.11.serialize(serializer)?;
        let ghost w12 = serializer.written();
        proof {
            if T0::spec_faithful() && T1::spec_faithful() && T2::spec_faithful() && T3::spec_faithful() && T4::spec_faithful() && T5::spec_faithful() && T6::spec_faithful() && T7::spec_faithful() && T8::spec_faithful() && T9::spec_faithful() && T10::spec_faithful() && T11::spec_faithful() {
                lemma_extends_trans(w0, w1, w2);
                lemma_extends_trans(w0, w2, w3);
                lemma_extends_trans(w0, w3, w4);
                lemma_extends_trans(w0, w4, w5);
                lemma_extends_trans(w0, w5, w6);
                lemma_extends_trans(w0, w6, w7);
                lemma_extends_trans(w0, w7, w8);
                lemma_extends_trans(w0, w8, w9);
                lemma_extends_trans(w0, w9, w10);
                lemma_extends_trans(w0, w10, w11);
                lemma_extends_trans(w0, w11, w12);
                let all = appended(w0, w12);
                let m = self.model();
                let k1 = (w1.len() - w0.len()) as int;
                let k2 = (w2.len() - w0.len()) as int;
                let k3 = (w3.len() - w0.len()) as int;
                let k4 = (w4.len() - w0.len()) as int;
                let k5 = (w5.len() - w0.len()) as int;
                let k6 = (w6.len() - w0.len()) as int;
                let k7 = (w7.len() - w0.len()) as int;
                let k8 = (w8.len() - w0.len()) as int;
                let k9 = (w9.len() - w0.len()) as int;
                let k10 = (w10.len() - w0.len()) as int;
                let k11 = (w11.len() - w0.len()) as int;
                assert(all.subrange(0, k1) =~= appended(w0, w1));
                assert(T0::spec_encodes(m.0, all.subrange(0, k1)));
                assert(all.subrange(k1, k2) =~= appended(w1, w2));
                assert(T1::spec_encodes(m.1, all.subrange(k1, k2)));
                assert(all.subrange(k2, k3) =~= appended(w2, w3));
                assert(T2::spec_encodes(m.2, all.subrange(k2, k3)));
                assert(all.subrange(k3, k4) =~= appended(w3, w4));
                assert(T3::spec_encodes(m.3, all.subrange(k3, k4)));
                assert(all.subrange(k4, k5) =~= appended(w4, w5));
                assert(T4::spec_encodes(m.4, all.subrange(k4, k5)));
                assert(all.subrange(k5, k6) =~= appended(w5, w6));
                assert(T5::spec_encodes(m.5, all.subrange(k5, k6)));
                assert(all.subrange(k6, k7) =~= appended(w6, w7));
                assert(T6::spec_encodes(m.6, all.subrange(k6, k7)));
                assert(all.subrange(k7, k8) =~= appended(w7, w8));
                assert(T7::spec_encodes(m.7, all.subrange(k7, k8)));
                assert(all.subrange(k8, k9) =~= appended(w8, w9));
                assert(T8::spec_encodes(m.8, all.subrange(k8, k9)));
                assert(all.subrange(k9, k10) =~= appended(w9, w10));
                assert(T9::spec_encodes(m.9, all.subrange(k9, k10)));
                assert(all.subrange(k10, k11) =~= appended(w10, w11));
                assert(T10::spec_encodes(m.10, all.subrange(k10, k11)));
                assert(all.subrange(k11, all.len() as int) =~= appended(w11, w12));
                assert(T11::spec_encodes(m.11, all.subrange(k11, all.len() as int)));
            }
        }
        Ok(())
    }
}

impl<T0: Deserialize, T1: Deserialize, T2: Deserialize, T3: Deserialize, T4: Deserialize, T5: Deserialize, T6: Deserialize, T7: Deserialize, T8: Deserialize, T9: Deserialize, T10: Deserialize, T11: Deserialize> Deserialize for (T0, T1, T2, T3, T4, T5, T6, T7, T8, T9, T10, T11) {
    #[verifier::rlimit(100)]
    #[verifier::spinoff_prover]
    fn deserialize<R: ReadUninit>(deserializer: &mut Deserializer<R>) -> (r: Result<Self>) {
        let ghost start = deserializer.unread();
        let ghost u0 = deserializer.unread();
        proof { if T0::spec_faithful() && T1::spec_faithful() && T2::spec_faithful() && T3::spec_faithful() && T4::spec_faithful() && T5::spec_faithful() && T6::spec_faithful() && T7::spec_faithful() && T8::spec_faithful() && T9::spec_faithful() && T10::spec_faithful() && T11::spec_faithful() { assert(u0 =~= start.subrange((start.len() - u0.len()) as int, start.len() as int)); } }
        let a0 = T0::deserialize(deserializer)?;
        proof { if T0::spec_faithful() && T1::spec_faithful() && T2::spec_faithful() && T3::spec_faithful() && T4::spec_faithful() && T5::spec_faithful() && T6::spec_faithful() && T7::spec_faithful() && T8::spec_faithful() && T9::spec_faithful() && T10::spec_faithful() && T11::spec_faithful() { T0::lemma_decode_bounded(u0); } }
        let ghost u1 = deserializer.unread();
        proof { if T0::spec_faithful() && T1::spec_faithful() && T2::spec_faithful() && T3::spec_faithful() && T4::spec_faithful() && T5::spec_faithful() && T6::spec_faithful() && T7::spec_faithful() && T8::spec_faithful() && T9::spec_faithful() && T10::spec_faithful() && T11::spec_faithful() { assert(u1 =~= start.subrange((start.len() - u1.len()) as int, start.len() as int)); } }
        let a1 = T1::deserialize(deserializer)?;
        proof { if T0::spec_faithful() && T1::spec_faithful() && T2::spec_faithful() && T3::spec_faithful() && T4::spec_faithful() && T5::spec_faithful() && T6::spec_faithful() && T7::spec_faithful() && T8::spec_faithful() && T9::spec_faithful() && T10::spec_faithful() && T11::spec_faithful() { T1::lemma_decode_bounded(u1); } }
        let ghost u2 = deserializer.unread();
        proof { if T0::spec_faithful() && T1::spec_faithful() && T2::spec_faithful() && T3::spec_faithful() && T4::spec_faithful() && T5::spec_faithful() && T6::spec_faithful() && T7::spec_faithful() && T8::spec_faithful() && T9::spec_faithful() && T10::spec_faithful() && T11::spec_faithful() { assert(u2 =~= start.subrange((start.len() - u2.len()) as int, start.len() as int)); } }
        let a2 = T2::deserialize(deserializer)?;
        proof { if T0::spec_faithful() && T1::spec_faithful() && T2::spec_faithful() && T3::spec_faithful() && T4::spec_faithful() && T5::spec_faithful() && T6::spec_faithful() && T7::spec_faithful() && T8::spec_faithful() && T9::spec_faithful() && T10::spec_faithful() && T11::spec_faithful() { T2::lemma_decode_bounded(u2); } }
        let ghost u3 = deserializer.unread();
        proof { if T0::spec_faithful() && T1::spec_faithful() && T2::spec_faithful() && T3::spec_faithful() && T4::spec_faithful() && T5::spec_faithful() && T6::spec_faithful() && T7::spec_faithful() && T8::spec_faithful() && T9::spec_faithful() && T10::spec_faithful() && T11::spec_faithful() { assert(u3 =~= start.subrange((start.len() - u3.len()) as int, start.len() as int)); } }
        let a3 = T3::deserialize(deserializer)?;
        proof { if T0::spec_faithful() && T1::spec_faithful() && T2::spec_faithful() && T3::spec_faithful() && T4::spec_faithful() && T5::spec_faithful() && T6::spec_faithful() && T7::spec_faithful() && T8::spec_faithful() && T9::spec_faithful() && T10::spec_faithful() && T11::spec_faithful() { T3::lemma_decode_bounded(u3); } }
        let ghost u4 = deserializer.unread();
        proof { if T0::spec_faithful() && T1::spec_faithful() && T2::spec_faithful() && T3::spec_faithful() && T4::spec_faithful() && T5::spec_faithful() && T6::spec_faithful() && T7::spec_faithful() && T8::spec_faithful() && T9::spec_faithful() && T10::spec_faithful() && T11::spec_faithful() { assert(u4 =~= start.subrange((start.len() - u4.len()) as int, start.len() as int)); } }
        let a4 = T4::deserialize(deserializer)?;
        proof { if T0::spec_faithful() && T1::spec_faithful() && T2::spec_faithful() && T3::spec_faithful() && T4::spec_faithful() && T5::spec_faithful() && T6::spec_faithful() && T7::spec_faithful() && T8::spec_faithful() && T9::spec_faithful() && T10::spec_faithful() && T11::spec_faithful() { T4::lemma_decode_bounded(u4); } }
        let ghost u5 = deserializer.unread();
        proof { if T0::spec_faithful() && T1::spec_faithful() && T2::spec_faithful() && T3::spec_faithful() && T4::spec_faithful() && T5::spec_faithful() && T6::spec_faithful() && T7::spec_faithful() && T8::spec_faithful() && T9::spec_faithful() && T10::spec_faithful() && T11::spec_faithful() { assert(u5 =~= start.subrange((start.len() - u5.len()) as int, start.len() as int)); } }
        let a5 = T5::deserialize(deserializer)?;
        proof { if T0::spec_faithful() && T1::spec_faithful() && T2::spec_faithful() && T3::spec_faithful() && T4::spec_faithful() && T5::spec_faithful() && T6::spec_faithful() && T7::spec_faithful() && T8::spec_faithful() && T9::spec_faithful() && T10::spec_faithful() && T11::spec_faithful() { T5::lemma_decode_bounded(u5); } }
        let ghost u6 = deserializer.unread();
        proof { if T0::spec_faithful() && T1::spec_faithful() && T2::spec_faithful() && T3::spec_faithful() && T4::spec_faithful() && T5::spec_faithful() && T6::spec_faithful() && T7::spec_faithful() && T8::spec_faithful() && T9::spec_faithful() && T10::spec_faithful() && T11::spec_faithful() { assert(u6 =~= start.subrange((start.len() - u6.len()) as int, start.len() as int)); } }
        let a6 = T6::deserialize(deserializer)?;
        proof { if T0::spec_faithful() && T1::spec_faithful() && T2::spec_faithful() && T3::spec_faithful() && T4::spec_faithful() && T5::spec_faithful() && T6::spec_faithful() && T7::spec_faithful() && T8::spec_faithful() && T9::spec_faithful() && T10::spec_faithful() && T11::spec_faithful() { T6::lemma_decode_bounded(u6); } }
        let ghost u7 = deserializer.unread();
        proof { if T0::spec_faithful() && T1::spec_faithful() && T2::spec_faithful() && T3::spec_faithful() && T4::spec_faithful() && T5::spec_faithful() && T6::spec_faithful() && T7::spec_faithful() && T8::spec_faithful() && T9::spec_faithful() && T10::spec_faithful() && T11::spec_faithful() { assert(u7 =~= start.subrange((start.len() - u7.len()) as int, start.len() as int)); } }
        let a7 = T7::deserialize(deserializer)?;
        proof { if T0::spec_faithful() && T1::spec_faithful() && T2::spec_faithful() && T3::spec_faithful() && T4::spec_faithful() && T5::spec_faithful() && T6::spec_faithful() && T7::spec_faithful() && T8::spec_faithful() && T9::spec_faithful() && T10::spec_faithful() && T11::spec_faithful() { T7::lemma_decode_bounded(u7); } }
        let ghost u8 = deserializer.unread();
        proof { if T0::spec_faithful() && T1::spec_faithful() && T2::spec_faithful() && T3::spec_faithful() && T4::spec_faithful() && T5::spec_faithful() && T6::spec_faithful() && T7::spec_faithful() && T8::spec_faithful() && T9::spec_faithful() && T10::spec_faithful() && T11::spec_faithful() { assert(u8 =~= start.subrange((start.len() - u8.len()) as int, start.len() as int)); } }
        let a8 = T8::deserialize(deserializer)?;
        proof { if T0::spec_faithful() && T1::spec_faithful() && T2::spec_faithful() && T3::spec_faithful() && T4::spec_faithful() && T5::spec_faithful() && T6::spec_faithful() && T7::spec_faithful() && T8::spec_faithful() && T9::spec_faithful() && T10::spec_faithful() && T11::spec_faithful() { T8::lemma_decode_bounded(u8); } }
        let ghost u9 = deserializer.unread();
        proof { if T0::spec_faithful() && T1::spec_faithful() && T2::spec_faithful() && T3::spec_faithful() && T4::spec_faithful() && T5::spec_faithful() && T6::spec_faithful() && T7::spec_faithful() && T8::spec_faithful() && T9::spec_faithful() && T10::spec_faithful() && T11::spec_faithful() { assert(u9 =~= start.subrange((start.len() - u9.len()) as int, start.len() as int)); } }
        let a9 = T9::deserialize(deserializer)?;
        proof { if T0::spec_faithful() && T1::spec_faithful() && T2::spec_faithful() && T3::spec_faithful() && T4::spec_faithful() && T5::spec_faithful() && T6::spec_faithful() && T7::spec_faithful() && T8::spec_faithful() && T9::spec_faithful() && T10::spec_faithful() && T11::spec_faithful() { T9::lemma_decode_bounded(u9); } }
        let ghost u10 = deserializer.unread();
        proof { if T0::spec_faithful() && T1::spec_faithful() && T2::spec_faithful() && T3::spec_faithful() && T4::spec_faithful() && T5::spec_faithful() && T6::spec_faithful() && T7::spec_faithful() && T8::spec_faithful() && T9::spec_faithful() && T10::spec_faithful() && T11::spec_faithful() { assert(u10 =~= start.subrange((start.len() - u10.len()) as int, start.len() as int)); } }
        let a10 = T10::deserialize(deserializer)?;
        proof { if T0::spec_faithful() && T1::spec_faithful() && T2::spec_faithful() && T3::spec_faithful() && T4::spec_faithful() && T5::spec_faithful() && T6::spec_faithful() && T7::spec_faithful() && T8::spec_faithful() && T9::spec_faithful() && T10::spec_faithful() && T11::spec_faithful() { T10::lemma_decode_bounded(u10); } }
        let ghost u11 = deserializer.unread();
        proof { if T0::spec_faithful() && T1::spec_faithful() && T2::spec_faithful() && T3::spec_faithful() && T4::spec_faithful() && T5::spec_faithful() && T6::spec_faithful() && T7::spec_faithful() && T8::spec_faithful() && T9::spec_faithful() && T10::spec_faithful() && T11::spec_faithful() { assert(u11 =~= start.subrange((start.len() - u11.len()) as int, start.len() as int)); } }
        let a11 = T11::deserialize(deserializer)?;
        proof { if T0::spec_faithful() && T1::spec_faithful() && T2::spec_faithful() && T3::spec_faithful() && T4::spec_faithful() && T5::spec_faithful() && T6::spec_faithful() && T7::spec_faithful() && T8::spec_faithful() && T9::spec_faithful() && T10::spec_faithful() && T11::spec_faithful() { T11::lemma_decode_bounded(u11); } }
        proof { if T0::spec_faithful() && T1::spec_faithful() && T2::spec_faithful() && T3::spec_faithful() && T4::spec_faithful() && T5::spec_faithful() && T6::spec_faithful() && T7::spec_faithful() && T8::spec_faithful() && T9::spec_faithful() && T10::spec_faithful() && T11::spec_faithful() { assert(deserializer.unread() =~= start.subrange((start.len() - deserializer.unread().len()) as int, start.len() as int)); } }
        Ok((a0, a1, a2, a3, a4, a5, a6, a7, a8, a9, a10, a11))
    }

    #[verifier::rlimit(100)]
    #[verifier::spinoff_prover]
    fn deserialize_in_place<R: ReadUninit>(&mut self, deserializer: &mut Deserializer<R>) -> (r: Result<()>) {
        let ghost start = deserializer.unread();
        let ghost u0 = deserializer.unread();
        proof { if T0::spec_faithful() && T1::spec_faithful() && T2::spec_faithful() && T3::spec_faithful() && T4::spec_faithful() && T5::spec_faithful() && T6::spec_faithful() && T7::spec_faithful() && T8::spec_faithful() && T9::spec_faithful() && T10::spec_faithful() && T11::spec_faithful() { assert(u0 =~= start.subrange((start.len() - u0.len()) as int, start.len() as int)); } }
        self.0.deserialize_in_place(deserializer)?;
        proof { if T0::spec_faithful() && T1::spec_faithful() && T2::spec_faithful() && T3::spec_faithful() && T4::spec_faithful() && T5::spec_faithful() && T6::spec_faithful() && T7::spec_faithful() && T8::spec_faithful() && T9::spec_faithful() && T10::spec_faithful() && T11::spec_faithful() { T0::lemma_decode_bounded(u0); } }
        let ghost u1 = deserializer.unread();
        proof { if T0::spec_faithful() && T1::spec_faithful() && T2::spec_faithful() && T3::spec_faithful() && T4::spec_faithful() && T5::spec_faithful() && T6::spec_faithful() && T7::spec_faithful() && T8::spec_faithful() && T9::spec_faithful() && T10::spec_faithful() && T11::spec_faithful() { assert(u1 =~= start.subrange((start.len() - u1.len()) as int, start.len() as int)); } }
        self.1.deserialize_in_place(deserializer)?;
        proof { if T0::spec_faithful() && T1::spec_faithful() && T2::spec_faithful() && T3::spec_faithful() && T4::spec_faithful() && T5::spec_faithful() && T6::spec_faithful() && T7::spec_faithful() && T8::spec_faithful() && T9::spec_faithful() && T10::spec_faithful() && T11::spec_faithful() { T1::lemma_decode_bounded(u1); } }
        let ghost u2 = deserializer.unread();
        proof { if T0::spec_faithful() && T1::spec_faithful() && T2::spec_faithful() && T3::spec_faithful() && T4::spec_faithful() && T5::spec_faithful() && T6::spec_faithful() && T7::spec_faithful() && T8::spec_faithful() && T9::spec_faithful() && T10::spec_faithful() && T11::spec_faithful() { assert(u2 =~= start.subrange((start.len() - u2.len()) as int, start.len() as int)); } }
        self.2.deserialize_in_place(deserializer)?;
        proof { if T0::spec_faithful() && T1::spec_faithful() && T2::spec_faithful() && T3::spec_faithful() && T4::spec_faithful() && T5::spec_faithful() && T6::spec_faithful() && T7::spec_faithful() && T8::spec_faithful() && T9::spec_faithful() && T10::spec_faithful() && T11::spec_faithful() { T2::lemma_decode_bounded(u2); } }
        let ghost u3 = deserializer.unread();
        proof { if T0::spec_faithful() && T1::spec_faithful() && T2::spec_faithful() && T3::spec_faithful() && T4::spec_faithful() && T5::spec_faithful() && T6::spec_faithful() && T7::spec_faithful() && T8::spec_faithful() && T9::spec_faithful() && T10::spec_faithful() && T11::spec_faithful() { assert(u3 =~= start.subrange((start.len() - u3.len()) as int, start.len() as int)); } }
        self.3.deserialize_in_place(deserializer)?;
        proof { if T0::spec_faithful() && T1::spec_faithful() && T2::spec_faithful() && T3::spec_faithful() && T4::spec_faithful() && T5::spec_faithful() && T6::spec_faithful() && T7::spec_faithful() && T8::spec_faithful() && T9::spec_faithful() && T10::spec_faithful() && T11::spec_faithful() { T3::lemma_decode_bounded(u3); } }
        let ghost u4 = deserializer.unread();
        proof { if T0::spec_faithful() && T1::spec_faithful() && T2::spec_faithful() && T3::spec_faithful() && T4::spec_faithful() && T5::spec_faithful() && T6::spec_faithful() && T7::spec_faithful() && T8::spec_faithful() && T9::spec_faithful() && T10::spec_faithful() && T11::spec_faithful() { assert(u4 =~= start.subrange((start.len() - u4.len()) as int, start.len() as int)); } }
        self.4.deserialize_in_place(deserializer)?;
        proof { if T0::spec_faithful() && T1::spec_faithful() && T2::spec_faithful() && T3::spec_faithful() && T4::spec_faithful() && T5::spec_faithful() && T6::spec_faithful() && T7::spec_faithful() && T8::spec_faithful() && T9::spec_faithful() && T10::spec_faithful() && T11::spec_faithful() { T4::lemma_decode_bounded(u4); } }
        let ghost u5 = deserializer.unread();
        proof { if T0::spec_faithful() && T1::spec_faithful() && T2::spec_faithful() && T3::spec_faithful() && T4::spec_faithful() && T5::spec_faithful() && T6::spec_faithful() && T7::spec_faithful() && T8::spec_faithful() && T9::spec_faithful() && T10::spec_faithful() && T11::spec_faithful() { assert(u5 =~= start.subrange((start.len() - u5.len()) as int, start.len() as int)); } }
        self.5.deserialize_in_place(deserializer)?;
        proof { if T0::spec_faithful() && T1::spec_faithful() && T2::spec_faithful() && T3::spec_faithful() && T4::spec_faithful() && T5::spec_faithful() && T6::spec_faithful() && T7::spec_faithful() && T8::spec_faithful() && T9::spec_faithful() && T10::spec_faithful() && T11::spec_faithful() { T5::lemma_decode_bounded(u5); } }
        let ghost u6 = deserializer.unread();
        proof { if T0::spec_faithful() && T1::spec_faithful() && T2::spec_faithful() && T3::spec_faithful() && T4::spec_faithful() && T5::spec_faithful() && T6::spec_faithful() && T7::spec_faithful() && T8::spec_faithful() && T9::spec_faithful() && T10::spec_faithful() && T11::spec_faithful() { assert(u6 =~= start.subrange((start.len() - u6.len()) as int, start.len() as int)); } }
        self.6.deserialize_in_place(deserializer)?;
        proof { if T0::spec_faithful() && T1::spec_faithful() && T2::spec_faithful() && T3::spec_faithful() && T4::spec_faithful() && T5::spec_faithful() && T6::spec_faithful() && T7::spec_faithful() && T8::spec_faithful() && T9::spec_faithful() && T10::spec_faithful() && T11::spec_faithful() { T6::lemma_decode_bounded(u6); } }
        let ghost u7 = deserializer.unread();
        proof { if T0::spec_faithful() && T1::spec_faithful() && T2::spec_faithful() && T3::spec_faithful() && T4::spec_faithful() && T5::spec_faithful() && T6::spec_faithful() && T7::spec_faithful() && T8::spec_faithful() && T9::spec_faithful() && T10::spec_faithful() && T11::spec_faithful() { assert(u7 =~= start.subrange((start.len() - u7.len()) as int, start.len() as int)); } }
        self.7.deserialize_in_place(deserializer)?;
        proof { if T0::spec_faithful() && T1::spec_faithful() && T2::spec_faithful() && T3::spec_faithful() && T4::spec_faithful() && T5::spec_faithful() && T6::spec_faithful() && T7::spec_faithful() && T8::spec_faithful() && T9::spec_faithful() && T10::spec_faithful() && T11::spec_faithful() { T7::lemma_decode_bounded(u7); } }
        let ghost u8 = deserializer.unread();
        proof { if T0::spec_faithful() && T1::spec_faithful() && T2::spec_faithful() && T3::spec_faithful() && T4::spec_faithful() && T5::spec_faithful() && T6::spec_faithful() && T7::spec_faithful() && T8::spec_faithful() && T9::spec_faithful() && T10::spec_faithful() && T11::spec_faithful() { assert(u8 =~= start.subrange((start.len() - u8.len()) as int, start.len() as int)); } }
        self.8.deserialize_in_place(deserializer)?;
        proof { if T0::spec_faithful() && T1::spec_faithful() && T2::spec_faithful() && T3::spec_faithful() && T4::spec_faithful() && T5::spec_faithful() && T6::spec_faithful() && T7::spec_faithful() && T8::spec_faithful() && T9::spec_faithful() && T10::spec_faithful() && T11::spec_faithful() { T8::lemma_decode_bounded(u8); } }
        let ghost u9 = deserializer.unread();
        proof { if T0::spec_faithful() && T1::spec_faithful() && T2::spec_faithful() && T3::spec_faithful() && T4::spec_faithful() && T5::spec_faithful() && T6::spec_faithful() && T7::spec_faithful() && T8::spec_faithful() && T9::spec_faithful() && T10::spec_faithful() && T11::spec_faithful() { assert(u9 =~= start.subrange((start.len() - u9.len()) as int, start.len() as int)); } }
        self.9.deserialize_in_place(deserializer)?;
        proof { if T0::spec_faithful() && T1::spec_faithful() && T2::spec_faithful() && T3::spec_faithful() && T4::spec_faithful() && T5::spec_faithful() && T6::spec_faithful() && T7::spec_faithful() && T8::spec_faithful() && T9::spec_faithful() && T10::spec_faithful() && T11::spec_faithful() { T9::lemma_decode_bounded(u9); } }
        let ghost u10 = deserializer.unread();
        proof { if T0::spec_faithful() && T1::spec_faithful() && T2::spec_faithful() && T3::spec_faithful() && T4::spec_faithful() && T5::spec_faithful() && T6::spec_faithful() && T7::spec_faithful() && T8::spec_faithful() && T9::spec_faithful() && T10::spec_faithful() && T11::spec_faithful() { assert(u10 =~= start.subrange((start.len() - u10.len()) as int, start.len() as int)); } }
        self.10.deserialize_in_place(deserializer)?;
        proof { if T0::spec_faithful() && T1::spec_faithful() && T2::spec_faithful() && T3::spec_faithful() && T4::spec_faithful() && T5::spec_faithful() && T6::spec_faithful() && T7::spec_faithful() && T8::spec_faithful() && T9::spec_faithful() && T10::spec_faithful() && T11::spec_faithful() { T10::lemma_decode_bounded(u10); } }
        let ghost u11 = deserializer.unread();
        proof { if T0::spec_faithful() && T1::spec_faithful() && T2::spec_faithful() && T3::spec_faithful() && T4::spec_faithful() && T5::spec_faithful() && T6::spec_faithful() && T7::spec_faithful() && T8::spec_faithful() && T9::spec_faithful() && T10::spec_faithful() && T11::spec_faithful() { assert(u11 =~= start.subrange((start.len() - u11.len()) as int, start.len() as int)); } }
        self.11.deserialize_in_place(deserializer)?;
        proof { if T0::spec_faithful() && T1::spec_faithful() && T2::spec_faithful() && T3::spec_faithful() && T4::spec_faithful() && T5::spec_faithful() && T6::spec_faithful() && T7::spec_faithful() && T8::spec_faithful() && T9::spec_faithful() && T10::spec_faithful() && T11::spec_faithful() { T11::lemma_decode_bounded(u11); } }
        proof { if T0::spec_faithful() && T1::spec_faithful() && T2::spec_faithful() && T3::spec_faithful() && T4::spec_faithful() && T5::spec_faithful() && T6::spec_faithful() && T7::spec_faithful() && T8::spec_faithful() && T9::spec_faithful() && T10::spec_faithful() && T11::spec_faithful() { assert(deserializer.unread() =~= start.subrange((start.len() - deserializer.unread().len()) as int, start.len() as int)); } }
        Ok(())
    }
}

impl<T0: WireFormat, T1: WireFormat, T2: WireFormat, T3: WireFormat, T4: WireFormat, T5: WireFormat, T6: WireFormat, T7: WireFormat, T8: WireFormat, T9: WireFormat, T10: WireFormat, T11: WireFormat, T12: WireFormat> WireFormat for (T0, T1, T2, T3, T4, T5, T6, T7, T8, T9, T10, T11, T12) {
    type Model = (T0::Model, T1::Model, T2::Model, T3::Model, T4::Model, T5::Model, T6::Model, T7::Model, T8::Model, T9::Model, T10::Model, T11::Model, T12::Model);

    open spec fn model(&self) -> (T0::Model, T1::Model, T2::Model, T3::Model, T4::Model, T5::Model, T6::Model, T7::Model, T8::Model, T9::Model, T10::Model, T11::Model, T12::Model) {
        (self.0.model(), self.1.model(), self.2.model(), self.3.model(), self.4.model(), self.5.model(), self.6.model(), self.7.model(), self.8.model(), self.9.model(), self.10.model(), self.11.model(), self.12.model())
    }

    open spec fn spec_encodes(m: (T0::Model, T1::Model, T2::Model, T3::Model, T4::Model, T5::Model, T6::Model, T7::Model, T8::Model, T9::Model, T10::Model, T11::Model, T12::Model), bytes: Seq<u8>) -> bool {
        exists|k1: int| 0 <= k1 <= bytes.len() && #[trigger] T0::spec_encodes(m.0, bytes.subrange(0, k1)) && (exists|k2: int| k1 <= k2 <= bytes.len() && #[trigger] T1::spec_encodes(m.1, bytes.subrange(k1, k2)) && (exists|k3: int| k2 <= k3 <= bytes.len() && #[trigger] T2::spec_encodes(m.2, bytes.subrange(k2, k3)) && (exists|k4: int| k3 <= k4 <= bytes.len() && #[trigger] T3::spec_encodes(m.3, bytes.subrange(k3, k4)) && (exists|k5: int| k4 <= k5 <= bytes.len() && #[trigger] T4::spec_encodes(m.4, bytes.subrange(k4, k5)) && (exists|k6: int| k5 <= k6 <= bytes.len() && #[trigger] T5::spec_encodes(m.5, bytes.subrange(k5, k6)) && (exists|k7: int| k6 <= k7 <= bytes.len() && #[trigger] T6::spec_encodes(m.6, bytes.subrange(k6, k7)) && (exists|k8: int| k7 <= k8 <= bytes.len() && #[trigger] T7::spec_encodes(m.7, bytes.subrange(k7, k8)) && (exists|k9: int| k8 <= k9 <= bytes.len() && #[trigger] T8::spec_encodes(m.8, bytes.subrange(k8, k9)) && (exists|k10: int| k9 <= k10 <= bytes.len() && #[trigger] T9::spec_encodes(m.9, bytes.subrange(k9, k10)) && (exists|k11: int| k10 <= k11 <= bytes.len() && #[trigger] T10::spec_encodes(m.10, bytes.subrange(k10, k11)) && (exists|k12: int| k11 <= k12 <= bytes.len() && #[trigger] T11::spec_encodes(m.11, bytes.subrange(k11, k12)) && (T12::spec_encodes(m.12, bytes.subrange(k12, bytes.len() as int))))))))))))))
    }

    open spec fn spec_encodable(m: (T0::Model, T1::Model, T2::Model, T3::Model, T4::Model, T5::Model, T6::Model, T7::Model, T8::Model, T9::Model, T10::Model, T11::Model, T12::Model)) -> bool {
        T0::spec_encodable(m.0) && T1::spec_encodable(m.1) && T2::spec_encodable(m.2) && T3::spec_encodable(m.3) && T4::spec_encodable(m.4) && T5::spec_encodable(m.5) && T6::spec_encodable(m.6) && T7::spec_encodable(m.7) && T8::spec_encodable(m.8) && T9::spec_encodable(m.9) && T10::spec_encodable(m.10) && T11::spec_encodable(m.11) && T12::spec_encodable(m.12)
    }

    open spec fn spec_decode(bytes: Seq<u8>) -> Option<((T0::Model, T1::Model, T2::Model, T3::Model, T4::Model, T5::Model, T6::Model, T7::Model, T8::Model, T9::Model, T10::Model, T11::Model, T12::Model), nat)> {
        match T0::spec_decode(bytes.subrange((0) as int, bytes.len() as int)) { None => None, Some((a0, n0)) => if 0 + n0 > bytes.len() { None } else { match T1::spec_decode(bytes.subrange((0 + n0) as int, bytes.len() as int)) { None => None, Some((a1, n1)) => if 0 + n0 + n1 > bytes.len() { None } else { match T2::spec_decode(bytes.subrange((0 + n0 + n1) as int, bytes.len() as int)) { None => None, Some((a2, n2)) => if 0 + n0 + n1 + n2 > bytes.len() { None } else { match T3::spec_decode(bytes.subrange((0 + n0 + n1 + n2) as int, bytes.len() as int)) { None => None, Some((a3, n3)) => if 0 + n0 + n1 + n2 + n3 > bytes.len() { None } else { match T4::spec_decode(bytes.subrange((0 + n0 + n1 + n2 + n3) as int, bytes.len() as int)) { None => None, Some((a4, n4)) => if 0 + n0 + n1 + n2 + n3 + n4 > bytes.len() { None } else { match T5::spec_decode(bytes.subrange((0 + n0 + n1 + n2 + n3 + n4) as int, bytes.len() as int)) { None => None, Some((a5, n5)) => if 0 + n0 + n1 + n2 + n3 + n4 + n5 > bytes.len() { None } else { match T6::spec_decode(bytes.subrange((0 + n0 + n1 + n2 + n3 + n4 + n5) as int, bytes.len() as int)) { None => None, Some((a6, n6)) => if 0 + n0 + n1 + n2 + n3 + n4 + n5 + n6 > bytes.len() { None } else { match T7::spec_decode(bytes.subrange((0 + n0 + n1 + n2 + n3 + n4 + n5 + n6) as int, bytes.len() as int)) { None => None, Some((a7, n7)) => if 0 + n0 + n1 + n2 + n3 + n4 + n5 + n6 + n7 > bytes.len() { None } else { match T8::spec_decode(bytes.subrange((0 + n0 + n1 + n2 + n3 + n4 + n5 + n6 + n7) as int, bytes.len() as int)) { None => None, Some((a8, n8)) => if 0 + n0 + n1 + n2 + n3 + n4 + n5 + n6 + n7 + n8 > bytes.len() { None } else { match T9::spec_decode(bytes.subrange((0 + n0 + n1 + n2 + n3 + n4 + n5 + n6 + n7 + n8) as int, bytes.len() as int)) { None => None, Some((a9, n9)) => if 0 + n0 + n1 + n2 + n3 + n4 + n5 + n6 + n7 + n8 + n9 > bytes.len() { None } else { match T10::spec_decode(bytes.subrange((0 + n0 + n1 + n2 + n3 + n4 + n5 + n6 + n7 + n8 + n9) as int, bytes.len() as int)) { None => None, Some((a10, n10)) => if 0 + n0 + n1 + n2 + n3 + n4 + n5 + n6 + n7 + n8 + n9 + n10 > bytes.len() { None } else { match T11::spec_decode(bytes.subrange((0 + n0 + n1 + n2 + n3 + n4 + n5 + n6 + n7 + n8 + n9 + n10) as int, bytes.len() as int)) { None => None, Some((a11, n11)) => if 0 + n0 + n1 + n2 + n3 + n4 + n5 + n6 + n7 + n8 + n9 + n10 + n11 > bytes.len() { None } else { match T12::spec_decode(bytes.subrange((0 + n0 + n1 + n2 + n3 + n4 + n5 + n6 + n7 + n8 + n9 + n10 + n11) as int, bytes.len() as int)) { None => None, Some((a12, n12)) => if 0 + n0 + n1 + n2 + n3 + n4 + n5 + n6 + n7 + n8 + n9 + n10 + n11 + n12 > bytes.len() { None } else { Some(((a0, a1, a2, a3, a4, a5, a6, a7, a8, a9, a10, a11, a12), 0 + n0 + n1 + n2 + n3 + n4 + n5 + n6 + n7 + n8 + n9 + n10 + n11 + n12 as nat)) } } } } } } } } } } } } } } } } } } } } } } } } } }
    }

    open spec fn spec_faithful() -> bool {
        T0::spec_faithful() && T1::spec_faithful() && T2::spec_faithful() && T3::spec_faithful() && T4::spec_faithful() && T5::spec_faithful() && T6::spec_faithful() && T7::spec_faithful() && T8::spec_faithful() && T9::spec_faithful() && T10::spec_faithful() && T11::spec_faithful() && T12::spec_faithful()
    }

    #[verifier::rlimit(100)]
    #[verifier::spinoff_prover]
    proof fn lemma_round_trip(m: (T0::Model, T1::Model, T2::Model, T3::Model, T4::Model, T5::Model, T6::Model, T7::Model, T8::Model, T9::Model, T10::Model, T11::Model, T12::Model), bytes: Seq<u8>, rest: Seq<u8>) {
        let k1 = choose|k1: int| 0 <= k1 <= bytes.len() && #[trigger] T0::spec_encodes(m.0, bytes.subrange(0, k1)) && (exists|k2: int| k1 <= k2 <= bytes.len() && #[trigger] T1::spec_encodes(m.1, bytes.subrange(k1, k2)) && (exists|k3: int| k2 <= k3 <= bytes.len() && #[trigger] T2::spec_encodes(m.2, bytes.subrange(k2, k3)) && (exists|k4: int| k3 <= k4 <= bytes.len() && #[trigger] T3::spec_encodes(m.3, bytes.subrange(k3, k4)) && (exists|k5: int| k4 <= k5 <= bytes.len() && #[trigger] T4::spec_encodes(m.4, bytes.subrange(k4, k5)) && (exists|k6: int| k5 <= k6 <= bytes.len() && #[trigger] T5::spec_encodes(m.5, bytes.subrange(k5, k6)) && (exists|k7: int| k6 <= k7 <= bytes.len() && #[trigger] T6::spec_encodes(m.6, bytes.subrange(k6, k7)) && (exists|k8: int| k7 <= k8 <= bytes.len() && #[trigger] T7::spec_encodes(m.7, bytes.subrange(k7, k8)) && (exists|k9: int| k8 <= k9 <= bytes.len() && #[trigger] T8::spec_encodes(m.8, bytes.subrange(k8, k9)) && (exists|k10: int| k9 <= k10 <= bytes.len() && #[trigger] T9::spec_encodes(m.9, bytes.subrange(k9, k10)) && (exists|k11: int| k10 <= k11 <= bytes.len() && #[trigger] T10::spec_encodes(m.10, bytes.subrange(k10, k11)) && (exists|k12: int| k11 <= k12 <= bytes.len() && #[trigger] T11::spec_encodes(m.11, bytes.subrange(k11, k12)) && (T12::spec_encodes(m.12, bytes.subrange(k12, bytes.len() as int))))))))))))));
        let k2 = choose|k2: int| k1 <= k2 <= bytes.len() && #[trigger] T1::spec_encodes(m.1, bytes.subrange(k1, k2)) && (exists|k3: int| k2 <= k3 <= bytes.len() && #[trigger] T2::spec_encodes(m.2, bytes.subrange(k2, k3)) && (exists|k4: int| k3 <= k4 <= bytes.len() && #[trigger] T3::spec_encodes(m.3, bytes.subrange(k3, k4)) && (exists|k5: int| k4 <= k5 <= bytes.len() && #[trigger] T4::spec_encodes(m.4, bytes.subrange(k4, k5)) && (exists|k6: int| k5 <= k6 <= bytes.len() && #[trigger] T5::spec_encodes(m.5, bytes.subrange(k5, k6)) && (exists|k7: int| k6 <= k7 <= bytes.len() && #[trigger] T6::spec_encodes(m.6, bytes.subrange(k6, k7)) && (exists|k8: int| k7 <= k8 <= bytes.len() && #[trigger] T7::spec_encodes(m.7, bytes.subrange(k7, k8)) && (exists|k9: int| k8 <= k9 <= bytes.len() && #[trigger] T8::spec_encodes(m.8, bytes.subrange(k8, k9)) && (exists|k10: int| k9 <= k10 <= bytes.len() && #[trigger] T9::spec_encodes(m.9, bytes.subrange(k9, k10)) && (exists|k11: int| k10 <= k11 <= bytes.len() && #[trigger] T10::spec_encodes(m.10, bytes.subrange(k10, k11)) && (exists|k12: int| k11 <= k12 <= bytes.len() && #[trigger] T11::spec_encodes(m.11, bytes.subrange(k11, k12)) && (T12::spec_encodes(m.12, bytes.subrange(k12, bytes.len() as int)))))))))))));
        let k3 = choose|k3: int| k2 <= k3 <= bytes.len() && #[trigger] T2::spec_encodes(m.2, bytes.subrange(k2, k3)) && (exists|k4: int| k3 <= k4 <= bytes.len() && #[trigger] T3::spec_encodes(m.3, bytes.subrange(k3, k4)) && (exists|k5: int| k4 <= k5 <= bytes.len() && #[trigger] T4::spec_encodes(m.4, bytes.subrange(k4, k5)) && (exists|k6: int| k5 <= k6 <= bytes.len() && #[trigger] T5::spec_encodes(m.5, bytes.subrange(k5, k6)) && (exists|k7: int| k6 <= k7 <= bytes.len() && #[trigger] T6::spec_encodes(m.6, bytes.subrange(k6, k7)) && (exists|k8: int| k7 <= k8 <= bytes.len() && #[trigger] T7::spec_encodes(m.7, bytes.subrange(k7, k8)) && (exists|k9: int| k8 <= k9 <= bytes.len() && #[trigger] T8::spec_encodes(m.8, bytes.subrange(k8, k9)) && (exists|k10: int| k9 <= k10 <= bytes.len() && #[trigger] T9::spec_encodes(m.9, bytes.subrange(k9, k10)) && (exists|k11: int| k10 <= k11 <= bytes.len() && #[trigger] T10::spec_encodes(m.10, bytes.subrange(k10, k11)) && (exists|k12: int| k11 <= k12 <= bytes.len() && #[trigger] T11::spec_encodes(m.11, bytes.subrange(k11, k12)) && (T12::spec_encodes(m.12, bytes.subrange(k12, bytes.len() as int))))))))))));
        let k4 = choose|k4: int| k3 <= k4 <= bytes.len() && #[trigger] T3::spec_encodes(m.3, bytes.subrange(k3, k4)) && (exists|k5: int| k4 <= k5 <= bytes.len() && #[trigger] T4::spec_encodes(m.4, bytes.subrange(k4, k5)) && (exists|k6: int| k5 <= k6 <= bytes.len() && #[trigger] T5::spec_encodes(m.5, bytes.subrange(k5, k6)) && (exists|k7: int| k6 <= k7 <= bytes.len() && #[trigger] T6::spec_encodes(m.6, bytes.subrange(k6, k7)) && (exists|k8: int| k7 <= k8 <= bytes.len() && #[trigger] T7::spec_encodes(m.7, bytes.subrange(k7, k8)) && (exists|k9: int| k8 <= k9 <= bytes.len() && #[trigger] T8::spec_encodes(m.8, bytes.subrange(k8, k9)) && (exists|k10: int| k9 <= k10 <= bytes.len() && #[trigger] T9::spec_encodes(m.9, bytes.subrange(k9, k10)) && (exists|k11: int| k10 <= k11 <= bytes.len() && #[trigger] T10::spec_encodes(m.10, bytes.subrange(k10, k11)) && (exists|k12: int| k11 <= k12 <= bytes.len() && #[trigger] T11::spec_encodes(m.11, bytes.subrange(k11, k12)) && (T12::spec_encodes(m.12, bytes.subrange(k12, bytes.len() as int)))))))))));
        let k5 = choose|k5: int| k4 <= k5 <= bytes.len() && #[trigger] T4::spec_encodes(m.4, bytes.subrange(k4, k5)) && (exists|k6: int| k5 <= k6 <= bytes.len() && #[trigger] T5::spec_encodes(m.5, bytes.subrange(k5, k6)) && (exists|k7: int| k6 <= k7 <= bytes.len() && #[trigger] T6::spec_encodes(m.6, bytes.subrange(k6, k7)) && (exists|k8: int| k7 <= k8 <= bytes.len() && #[trigger] T7::spec_encodes(m.7, bytes.subrange(k7, k8)) && (exists|k9: int| k8 <= k9 <= bytes.len() && #[trigger] T8::spec_encodes(m.8, bytes.subrange(k8, k9)) && (exists|k10: int| k9 <= k10 <= bytes.len() && #[trigger] T9::spec_encodes(m.9, bytes.subrange(k9, k10)) && (exists|k11: int| k10 <= k11 <= bytes.len() && #[trigger] T10::spec_encodes(m.10, bytes.subrange(k10, k11)) && (exists|k12: int| k11 <= k12 <= bytes.len() && #[trigger] T11::spec_encodes(m.11, bytes.subrange(k11, k12)) && (T12::spec_encodes(m.12, bytes.subrange(k12, bytes.len() as int))))))))));
        let k6 = choose|k6: int| k5 <= k6 <= bytes.len() && #[trigger] T5::spec_encodes(m.5, bytes.subrange(k5, k6)) && (exists|k7: int| k6 <= k7 <= bytes.len() && #[trigger] T6::spec_encodes(m.6, bytes.subrange(k6, k7)) && (exists|k8: int| k7 <= k8 <= bytes.len() && #[trigger] T7::spec_encodes(m.7, bytes.subrange(k7, k8)) && (exists|k9: int| k8 <= k9 <= bytes.len() && #[trigger] T8::spec_encodes(m.8, bytes.subrange(k8, k9)) && (exists|k10: int| k9 <= k10 <= bytes.len() && #[trigger] T9::spec_encodes(m.9, bytes.subrange(k9, k10)) && (exists|k11: int| k10 <= k11 <= bytes.len() && #[trigger] T10::spec_encodes(m.10, bytes.subrange(k10, k11)) && (exists|k12: int| k11 <= k12 <= bytes.len() && #[trigger] T11::spec_encodes(m.11, bytes.subrange(k11, k12)) && (T12::spec_encodes(m.12, bytes.subrange(k12, bytes.len() as int)))))))));
        let k7 = choose|k7: int| k6 <= k7 <= bytes.len() && #[trigger] T6::spec_encodes(m.6, bytes.subrange(k6, k7)) && (exists|k8: int| k7 <= k8 <= bytes.len() && #[trigger] T7::spec_encodes(m.7, bytes.subrange(k7, k8)) && (exists|k9: int| k8 <= k9 <= bytes.len() && #[trigger] T8::spec_encodes(m.8, bytes.subrange(k8, k9)) && (exists|k10: int| k9 <= k10 <= bytes.len() && #[trigger] T9::spec_encodes(m.9, bytes.subrange(k9, k10)) && (exists|k11: int| k10 <= k11 <= bytes.len() && #[trigger] T10::spec_encodes(m.10, bytes.subrange(k10, k11)) && (exists|k12: int| k11 <= k12 <= bytes.len() && #[trigger] T11::spec_encodes(m.11, bytes.subrange(k11, k12)) && (T12::spec_encodes(m.12, bytes.subrange(k12, bytes.len() as int))))))));
        let k8 = choose|k8: int| k7 <= k8 <= bytes.len() && #[trigger] T7::spec_encodes(m.7, bytes.subrange(k7, k8)) && (exists|k9: int| k8 <= k9 <= bytes.len() && #[trigger] T8::spec_encodes(m.8, bytes.subrange(k8, k9)) && (exists|k10: int| k9 <= k10 <= bytes.len() && #[trigger] T9::spec_encodes(m.9, bytes.subrange(k9, k10)) && (exists|k11: int| k10 <= k11 <= bytes.len() && #[trigger] T10::spec_encodes(m.10, bytes.subrange(k10, k11)) && (exists|k12: int| k11 <= k12 <= bytes.len() && #[trigger] T11::spec_encodes(m.11, bytes.subrange(k11, k12)) && (T12::spec_encodes(m.12, bytes.subrange(k12, bytes.len() as int)))))));
        let k9 = choose|k9: int| k8 <= k9 <= bytes.len() && #[trigger] T8::spec_encodes(m.8, bytes.subrange(k8, k9)) && (exists|k10: int| k9 <= k10 <= bytes.len() && #[trigger] T9::spec_encodes(m.9, bytes.subrange(k9, k10)) && (exists|k11: int| k10 <= k11 <= bytes.len() && #[trigger] T10::spec_encodes(m.10, bytes.subrange(k10, k11)) && (exists|k12: int| k11 <= k12 <= bytes.len() && #[trigger] T11::spec_encodes(m.11, bytes.subrange(k11, k12)) && (T12::spec_encodes(m.12, bytes.subrange(k12, bytes.len() as int))))));
        let k10 = choose|k10: int| k9 <= k10 <= bytes.len() && #[trigger] T9::spec_encodes(m.9, bytes.subrange(k9, k10)) && (exists|k11: int| k10 <= k11 <= bytes.len() && #[trigger] T10::spec_encodes(m.10, bytes.subrange(k10, k11)) && (exists|k12: int| k11 <= k12 <= bytes.len() && #[trigger] T11::spec_encodes(m.11, bytes.subrange(k11, k12)) && (T12::spec_encodes(m.12, bytes.subrange(k12, bytes.len() as int)))));
        let k11 = choose|k11: int| k10 <= k11 <= bytes.len() && #[trigger] T10::spec_encodes(m.10, bytes.subrange(k10, k11)) && (exists|k12: int| k11 <= k12 <= bytes.len() && #[trigger] T11::spec_encodes(m.11, bytes.subrange(k11, k12)) && (T12::spec_encodes(m.12, bytes.subrange(k12, bytes.len() as int))));
        let k12 = choose|k12: int| k11 <= k12 <= bytes.len() && #[trigger] T11::spec_encodes(m.11, bytes.subrange(k11, k12)) && (T12::spec_encodes(m.12, bytes.subrange(k12, bytes.len() as int)));
        lemma_field_round_trip::<T0>(m.0, bytes, rest, 0, k1);
        lemma_field_round_trip::<T1>(m.1, bytes, rest, k1, k2);
        lemma_field_round_trip::<T2>(m.2, bytes, rest, k2, k3);
        lemma_field_round_trip::<T3>(m.3, bytes, rest, k3, k4);
        lemma_field_round_trip::<T4>(m.4, bytes, rest, k4, k5);
        lemma_field_round_trip::<T5>(m.5, bytes, rest, k5, k6);
        lemma_field_round_trip::<T6>(m.6, bytes, rest, k6, k7);
        lemma_field_round_trip::<T7>(m.7, bytes, rest, k7, k8);
        lemma_field_round_trip::<T8>(m.8, bytes, rest, k8, k9);
        lemma_field_round_trip::<T9>(m.9, bytes, rest, k9, k10);
        lemma_field_round_trip::<T10>(m.10, bytes, rest, k10, k11);
        lemma_field_round_trip::<T11>(m.11, bytes, rest, k11, k12);
        lemma_field_round_trip::<T12>(m.12, bytes, rest, k12, bytes.len() as int);
    }

    proof fn lemma_decode_bounded(bytes: Seq<u8>) {
    }
}

impl<T0: Serialize, T1: Serialize, T2: Serialize, T3: Serialize, T4: Serialize, T5: Serialize, T6: Serialize, T7: Serialize, T8: Serialize, T9: Serialize, T10: Serialize, T11: Serialize, T12: Serialize> Serialize for (T0, T1, T2, T3, T4, T5, T6, T7, T8, T9, T10, T11, T12) {
    #[verifier::rlimit(100)]
    #[verifier::spinoff_prover]
    fn serialize<W: WriteUninit>(&self, serializer: &mut Serializer<W>) -> (r: Result<()>) {
        let ghost w0 = serializer.written();
        self.0.serialize(serializer)?;
        let ghost w1 = serializer.written();
        self.1.serialize(serializer)?;
        let ghost w2 = serializer.written();
        self.2.serialize(serializer)?;
        let ghost w3 = serializer.written();
        self.3.serialize(serializer)?;
        let ghost w4 = serializer.written();
        self.4.serialize(serializer)?;
        let ghost w5 = serializer.written();
        self.5.serialize(serializer)?;
        let ghost w6 = serializer.written();
        self.6.serialize(serializer)?;
        let ghost w7 = serializer.written();
        self.7.serialize(serializer)?;
        let ghost w8 = serializer.written();
        self.8.serialize(serializer)?;
        let ghost w9 = serializer.written();
        self.9.serialize(serializer)?;
        let ghost w10 = serializer.written();
        self.10.serialize(serializer)?;
        let ghost w11 = serializer.written();
        self.11.serialize(serializer)?;
        let ghost w12 = serializer.written();
        self.12.serialize(serializer)?;
        let ghost w13 = serializer.written();
        proof {
            if T0::spec_faithful() && T1::spec_faithful() && T2::spec_faithful() && T3::spec_faithful() && T4::spec_faithful() && T5::spec_faithful() && T6::spec_faithful() && T7::spec_faithful() && T8::spec_faithful() && T9::spec_faithful() && T10::spec_faithful() && T11::spec_faithful() && T12::spec_faithful() {
                lemma_extends_trans(w0, w1, w2);
                lemma_extends_trans(w0, w2, w3);
                lemma_extends_trans(w0, w3, w4);
                lemma_extends_trans(w0, w4, w5);
                lemma_extends_trans(w0, w5, w6);
                lemma_extends_trans(w0, w6, w7);
                lemma_extends_trans(w0, w7, w8);
                lemma_extends_trans(w0, w8, w9);
                lemma_extends_trans(w0, w9, w10);
                lemma_extends_trans(w0, w10, w11);
                lemma_extends_trans(w0, w11, w12);
                lemma_extends_trans(w0, w12, w13);
                let all = appended(w0, w13);
                let m = self.model();
                let k1 = (w1.len() - w0.len()) as int;
                let k2 = (w2.len() - w0.len()) as int;
                let k3 = (w3.len() - w0.len()) as int;
                let k4 = (w4.len() - w0.len()) as int;
                let k5 = (w5.len() - w0.len()) as int;
                let k6 = (w6.len() - w0.len()) as int;
                let k7 = (w7.len() - w0.len()) as int;
                let k8 = (w8.len() - w0.len()) as int;
                let k9 = (w9.len() - w0.len()) as int;
                let k10 = (w10.len() - w0.len()) as int;
                let k11 = (w11.len() - w0.len()) as int;
                let k12 = (w12.len() - w0.len()) as int;
                assert(all.subrange(0, k1) =~= appended(w0, w1));
                assert(T0::spec_encodes(m.0, all.subrange(0, k1)));
                assert(all.subrange(k1, k2) =~= appended(w1, w2));
                assert(T1::spec_encodes(m.1, all.subrange(k1, k2)));
                assert(all.subrange(k2, k3) =~= appended(w2, w3));
                assert(T2::spec_encodes(m.2, all.subrange(k2, k3)));
                assert(all.subrange(k3, k4) =~= appended(w3, w4));
                assert(T3::spec_encodes(m.3, all.subrange(k3, k4)));
                assert(all.subrange(k4, k5) =~= appended(w4, w5));
                assert(T4::spec_encodes(m.4, all.subrange(k4, k5)));
                assert(all.subrange(k5, k6) =~= appended(w5, w6));
                assert(T5::spec_encodes(m.5, all.subrange(k5, k6)));
                assert(all.subrange(k6, k7) =~= appended(w6, w7));
                assert(T6::spec_encodes(m.6, all.subrange(k6, k7)));
                assert(all.subrange(k7, k8) =~= appended(w7, w8));
                assert(T7::spec_encodes(m.7, all.subrange(k7, k8)));
                assert(all.subrange(k8, k9) =~= appended(w8, w9));
                assert(T8::spec_encodes(m.8, all.subrange(k8, k9)));
                assert(all.subrange(k9, k10) =~= appended(w9, w10));
                assert(T9::spec_encodes(m.9, all.subrange(k9, k10)));
                assert(all.subrange(k10, k11) =~= appended(w10, w11));
                assert(T10::spec_encodes(m.10, all.subrange(k10, k11)));
                assert(all.subrange(k11, k12) =~= appended(w11, w12));
                assert(T11::spec_encodes(m.11, all.subrange(k11, k12)));
                assert(all.subrange(k12, all.len() as int) =~= appended(w12, w13));
                assert(T12::spec_encodes(m.12, all.subrange(k12, all.len() as int)));
            }
        }
        Ok(())
    }
}

impl<T0: Deserialize, T1: Deserialize, T2: Deserialize, T3: Deserialize, T4: Deserialize, T5: Deserialize, T6: Deserialize, T7: Deserialize, T8: Deserialize, T9: Deserialize, T10: Deserialize, T11: Deserialize, T12: Deserialize> Deserialize for (T0, T1, T2, T3, T4, T5, T6, T7, T8, T9, T10, T11, T12) {
    #[verifier::rlimit(100)]
    #[verifier::spinoff_prover]
    fn deserialize<R: ReadUninit>(deserializer: &mut Deserializer<R>) -> (r: Result<Self>) {
        let ghost start = deserializer.unread();
        let ghost u0 = deserializer.unread();
        proof { if T0::spec_faithful() && T1::spec_faithful() && T2::spec_faithful() && T3::spec_faithful() && T4::spec_faithful() && T5::spec_faithful() && T6::spec_faithful() && T7::spec_faithful() && T8::spec_faithful() && T9::spec_faithful() && T10::spec_faithful() && T11::spec_faithful() && T12::spec_faithful() { assert(u0 =~= start.subrange((start.len() - u0.len()) as int, start.len() as int)); } }
        let a0 = T0::deserialize(deserializer)?;
        proof { if T0::spec_faithful() && T1::spec_faithful() && T2::spec_faithful() && T3::spec_faithful() && T4::spec_faithful() && T5::spec_faithful() && T6::spec_faithful() && T7::spec_faithful() && T8::spec_faithful() && T9::spec_faithful() && T10::spec_faithful() && T11::spec_faithful() && T12::spec_faithful() { T0::lemma_decode_bounded(u0); } }
        let ghost u1 = deserializer.unread();
        proof { if T0::spec_faithful() && T1::spec_faithful() && T2::spec_faithful() && T3::spec_faithful() && T4::spec_faithful() && T5::spec_faithful() && T6::spec_faithful() && T7::spec_faithful() && T8::spec_faithful() && T9::spec_faithful() && T10::spec_faithful() && T11::spec_faithful() && T12::spec_faithful() { assert(u1 =~= start.subrange((start.len() - u1.len()) as int, start.len() as int)); } }
        let a1 = T1::deserialize(deserializer)?;
        proof { if T0::spec_faithful() && T1::spec_faithful() && T2::spec_faithful() && T3::spec_faithful() && T4::spec_faithful() && T5::spec_faithful() && T6::spec_faithful() && T7::spec_faithful() && T8::spec_faithful() && T9::spec_faithful() && T10::spec_faithful() && T11::spec_faithful() && T12::spec_faithful() { T1::lemma_decode_bounded(u1); } }
        let ghost u2 = deserializer.unread();
        proof { if T0::spec_faithful() && T1::spec_faithful() && T2::spec_faithful() && T3::spec_faithful() && T4::spec_faithful() && T5::spec_faithful() && T6::spec_faithful() && T7::spec_faithful() && T8::spec_faithful() && T9::spec_faithful() && T10::spec_faithful() && T11::spec_faithful() && T12::spec_faithful() { assert(u2 =~= start.subrange((start.len() - u2.len()) as int, start.len() as int)); } }
        let a2 = T2::deserialize(deserializer)?;
        proof { if T0::spec_faithful() && T1::spec_faithful() && T2::spec_faithful() && T3::spec_faithful() && T4::spec_faithful() && T5::spec_faithful() && T6::spec_faithful() && T7::spec_faithful() && T8::spec_faithful() && T9::spec_faithful() && T10::spec_faithful() && T11::spec_faithful() && T12::spec_faithful() { T2::lemma_decode_bounded(u2); } }
        let ghost u3 = deserializer.unread();
        proof { if T0::spec_faithful() && T1::spec_faithful() && T2::spec_faithful() && T3::spec_faithful() && T4::spec_faithful() && T5::spec_faithful() && T6::spec_faithful() && T7::spec_faithful() && T8::spec_faithful() && T9::spec_faithful() && T10::spec_faithful() && T11::spec_faithful() && T12::spec_faithful() { assert(u3 =~= start.subrange((start.len() - u3.len()) as int, start.len() as int)); } }
        let a3 = T3::deserialize(deserializer)?;
        proof { if T0::spec_faithful() && T1::spec_faithful() && T2::spec_faithful() && T3::spec_faithful() && T4::spec_faithful() && T5::spec_faithful() && T6::spec_faithful() && T7::spec_faithful() && T8::spec_faithful() && T9::spec_faithful() && T10::spec_faithful() && T11::spec_faithful() && T12::spec_faithful() { T3::lemma_decode_bounded(u3); } }
        let ghost u4 = deserializer.unread();
        proof { if T0::spec_faithful() && T1::spec_faithful() && T2::spec_faithful() && T3::spec_faithful() && T4::spec_faithful() && T5::spec_faithful() && T6::spec_faithful() && T7::spec_faithful() && T8::spec_faithful() && T9::spec_faithful() && T10::spec_faithful() && T11::spec_faithful() && T12::spec_faithful() { assert(u4 =~= start.subrange((start.len() - u4.len()) as int, start.len() as int)); } }
        let a4 = T4::deserialize(deserializer)?;
        proof { if T0::spec_faithful() && T1::spec_faithful() && T2::spec_faithful() && T3::spec_faithful() && T4::spec_faithful() && T5::spec_faithful() && T6::spec_faithful() && T7::spec_faithful() && T8::spec_faithful() && T9::spec_faithful() && T10::spec_faithful() && T11::spec_faithful() && T12::spec_faithful() { T4::lemma_decode_bounded(u4); } }
        let ghost u5 = deserializer.unread();
        proof { if T0::spec_faithful() && T1::spec_faithful() && T2::spec_faithful() && T3::spec_faithful() && T4::spec_faithful() && T5::spec_faithful() && T6::spec_faithful() && T7::spec_faithful() && T8::spec_faithful() && T9::spec_faithful() && T10::spec_faithful() && T11::spec_faithful() && T12::spec_faithful() { assert(u5 =~= start.subrange((start.len() - u5.len()) as int, start.len() as int)); } }
        let a5 = T5::deserialize(deserializer)?;
        proof { if T0::spec_faithful() && T1::spec_faithful() && T2::spec_faithful() && T3::spec_faithful() && T4::spec_faithful() && T5::spec_faithful() && T6::spec_faithful() && T7::spec_faithful() && T8::spec_faithful() && T9::spec_faithful() && T10::spec_faithful() && T11::spec_faithful() && T12::spec_faithful() { T5::lemma_decode_bounded(u5); } }
        let ghost u6 = deserializer.unread();
        proof { if T0::spec_faithful() && T1::spec_faithful() && T2::spec_faithful() && T3::spec_faithful() && T4::spec_faithful() && T5::spec_faithful() && T6::spec_faithful() && T7::spec_faithful() && T8::spec_faithful() && T9::spec_faithful() && T10::spec_faithful() && T11::spec_faithful() && T12::spec_faithful() { assert(u6 =~= start.subrange((start.len() - u6.len()) as int, start.len() as int)); } }
        let a6 = T6::deserialize(deserializer)?;
        proof { if T0::spec_faithful() && T1::spec_faithful() && T2::spec_faithful() && T3::spec_faithful() && T4::spec_faithful() && T5::spec_faithful() && T6::spec_faithful() && T7::spec_faithful() && T8::spec_faithful() && T9::spec_faithful() && T10::spec_faithful() && T11::spec_faithful() && T12::spec_faithful() { T6::lemma_decode_bounded(u6); } }
        let ghost u7 = deserializer.unread();
        proof { if T0::spec_faithful() && T1::spec_faithful() && T2::spec_faithful() && T3::spec_faithful() && T4::spec_faithful() && T5::spec_faithful() && T6::spec_faithful() && T7::spec_faithful() && T8::spec_faithful() && T9::spec_faithful() && T10::spec_faithful() && T11::spec_faithful() && T12::spec_faithful() { assert(u7 =~= start.subrange((start.len() - u7.len()) as int, start.len() as int)); } }
        let a7 = T7::deserialize(deserializer)?;
        proof { if T0::spec_faithful() && T1::spec_faithful() && T2::spec_faithful() && T3::spec_faithful() && T4::spec_faithful() && T5::spec_faithful() && T6::spec_faithful() && T7::spec_faithful() && T8::spec_faithful() && T9::spec_faithful() && T10::spec_faithful() && T11::spec_faithful() && T12::spec_faithful() { T7::lemma_decode_bounded(u7); } }
        let ghost u8 = deserializer.unread();
        proof { if T0::spec_faithful() && T1::spec_faithful() && T2::spec_faithful() && T3::spec_faithful() && T4::spec_faithful() && T5::spec_faithful() && T6::spec_faithful() && T7::spec_faithful() && T8::spec_faithful() && T9::spec_faithful() && T10::spec_faithful() && T11::spec_faithful() && T12::spec_faithful() { assert(u8 =~= start.subrange((start.len() - u8.len()) as int, start.len() as int)); } }
        let a8 = T8::deserialize(deserializer)?;
        proof { if T0::spec_faithful() && T1::spec_faithful() && T2::spec_faithful() && T3::spec_faithful() && T4::spec_faithful() && T5::spec_faithful() && T6::spec_faithful() && T7::spec_faithful() && T8::spec_faithful() && T9::spec_faithful() && T10::spec_faithful() && T11::spec_faithful() && T12::spec_faithful() { T8::lemma_decode_bounded(u8); } }
        let ghost u9 = deserializer.unread();
        proof { if T0::spec_faithful() && T1::spec_faithful() && T2::spec_faithful() && T3::spec_faithful() && T4::spec_faithful() && T5::spec_faithful() && T6::spec_faithful() && T7::spec_faithful() && T8::spec_faithful() && T9::spec_faithful() && T10::spec_faithful() && T11::spec_faithful() && T12::spec_faithful() { assert(u9 =~= start.subrange((start.len() - u9.len()) as int, start.len() as int)); } }
        let a9 = T9::deserialize(deserializer)?;
        proof { if T0::spec_faithful() && T1::spec_faithful() && T2::spec_faithful() && T3::spec_faithful() && T4::spec_faithful() && T5::spec_faithful() && T6::spec_faithful() && T7::spec_faithful() && T8::spec_faithful() && T9::spec_faithful() && T10::spec_faithful() && T11::spec_faithful() && T12::spec_faithful() { T9::lemma_decode_bounded(u9); } }
        let ghost u10 = deserializer.unread();
        proof { if T0::spec_faithful() && T1::spec_faithful() && T2::spec_faithful() && T3::spec_faithful() && T4::spec_faithful() && T5::spec_faithful() && T6::spec_faithful() && T7::spec_faithful() && T8::spec_faithful() && T9::spec_faithful() && T10::spec_faithful() && T11::spec_faithful() && T12::spec_faithful() { assert(u10 =~= start.subrange((start.len() - u10.len()) as int, start.len() as int)); } }
        let a10 = T10::deserialize(deserializer)?;
        proof { if T0::spec_faithful() && T1::spec_faithful() && T2::spec_faithful() && T3::spec_faithful() && T4::spec_faithful() && T5::spec_faithful() && T6::spec_faithful() && T7::spec_faithful() && T8::spec_faithful() && T9::spec_faithful() && T10::spec_faithful() && T11::spec_faithful() && T12::spec_faithful() { T10::lemma_decode_bounded(u10); } }
        let ghost u11 = deserializer.unread();
        proof { if T0::spec_faithful() && T1::spec_faithful() && T2::spec_faithful() && T3::spec_faithful() && T4::spec_faithful() && T5::spec_faithful() && T6::spec_faithful() && T7::spec_faithful() && T8::spec_faithful() && T9::spec_faithful() && T10::spec_faithful() && T11::spec_faithful() && T12::spec_faithful() { assert(u11 =~= start.subrange((start.len() - u11.len()) as int, start.len() as int)); } }
        let a11 = T11::deserialize(deserializer)?;
        proof { if T0::spec_faithful() && T1::spec_faithful() && T2::spec_faithful() && T3::spec_faithful() && T4::spec_faithful() && T5::spec_faithful() && T6::spec_faithful() && T7::spec_faithful() && T8::spec_faithful() && T9::spec_faithful() && T10::spec_faithful() && T11::spec_faithful() && T12::spec_faithful() { T11::lemma_decode_bounded(u11); } }
        let ghost u12 = deserializer.unread();
        proof { if T0::spec_faithful() && T1::spec_faithful() && T2::spec_faithful() && T3::spec_faithful() && T4::spec_faithful() && T5::spec_faithful() && T6::spec_faithful() && T7::spec_faithful() && T8::spec_faithful() && T9::spec_faithful() && T10::spec_faithful() && T11::spec_faithful() && T12::spec_faithful() { assert(u12 =~= start.subrange((start.len() - u12.len()) as int, start.len() as int)); } }
        let a12 = T12::deserialize(deserializer)?;
        proof { if T0::spec_faithful() && T1::spec_faithful() && T2::spec_faithful() && T3::spec_faithful() && T4::spec_faithful() && T5::spec_faithful() && T6::spec_faithful() && T7::spec_faithful() && T8::spec_faithful() && T9::spec_faithful() && T10::spec_faithful() && T11::spec_faithful() && T12::spec_faithful() { T12::lemma_decode_bounded(u12); } }
        proof { if T0::spec_faithful() && T1::spec_faithful() && T2::spec_faithful() && T3::spec_faithful() && T4::spec_faithful() && T5::spec_faithful() && T6::spec_faithful() && T7::spec_faithful() && T8::spec_faithful() && T9::spec_faithful() && T10::spec_faithful() && T11::spec_faithful() && T12::spec_faithful() { assert(deserializer.unread() =~= start.subrange((start.len() - deserializer.unread().len()) as int, start.len() as int)); } }
        Ok((a0, a1, a2, a3, a4, a5, a6, a7, a8, a9, a10, a11, a12))
    }

    #[verifier::rlimit(100)]
    #[verifier::spinoff_prover]
    fn deserialize_in_place<R: ReadUninit>(&mut self, deserializer: &mut Deserializer<R>) -> (r: Result<()>) {
        let ghost start = deserializer.unread();
        let ghost u0 = deserializer.unread();
        proof { if T0::spec_faithful() && T1::spec_faithful() && T2::spec_faithful() && T3::spec_faithful() && T4::spec_faithful() && T5::spec_faithful() && T6::spec_faithful() && T7::spec_faithful() && T8::spec_faithful() && T9::spec_faithful() && T10::spec_faithful() && T11::spec_faithful() && T12::spec_faithful() { assert(u0 =~= start.subrange((start.len() - u0.len()) as int, start.len() as int)); } }
        self.0.deserialize_in_place(deserializer)?;
        proof { if T0::spec_faithful() && T1::spec_faithful() && T2::spec_faithful() && T3::spec_faithful() && T4::spec_faithful() && T5::spec_faithful() && T6::spec_faithful() && T7::spec_faithful() && T8::spec_faithful() && T9::spec_faithful() && T10::spec_faithful() && T11::spec_faithful() && T12::spec_faithful() { T0::lemma_decode_bounded(u0); } }
        let ghost u1 = deserializer.unread();
        proof { if T0::spec_faithful() && T1::spec_faithful() && T2::spec_faithful() && T3::spec_faithful() && T4::spec_faithful() && T5::spec_faithful() && T6::spec_faithful() && T7::spec_faithful() && T8::spec_faithful() && T9::spec_faithful() && T10::spec_faithful() && T11::spec_faithful() && T12::spec_faithful() { assert(u1 =~= start.subrange((start.len() - u1.len()) as int, start.len() as int)); } }
        self.1.deserialize_in_place(deserializer)?;
        proof { if T0::spec_faithful() && T1::spec_faithful() && T2::spec_faithful() && T3::spec_faithful() && T4::spec_faithful() && T5::spec_faithful() && T6::spec_faithful() && T7::spec_faithful() && T8::spec_faithful() && T9::spec_faithful() && T10::spec_faithful() && T11::spec_faithful() && T12::spec_faithful() { T1::lemma_decode_bounded(u1); } }
        let ghost u2 = deserializer.unread();
        proof { if T0::spec_faithful() && T1::spec_faithful() && T2::spec_faithful() && T3::spec_faithful() && T4::spec_faithful() && T5::spec_faithful() && T6::spec_faithful() && T7::spec_faithful() && T8::spec_faithful() && T9::spec_faithful() && T10::spec_faithful() && T11::spec_faithful() && T12::spec_faithful() { assert(u2 =~= start.subrange((start.len() - u2.len()) as int, start.len() as int)); } }
        self.2.deserialize_in_place(deserializer)?;
        proof { if T0::spec_faithful() && T1::spec_faithful() && T2::spec_faithful() && T3::spec_faithful() && T4::spec_faithful() && T5::spec_faithful() && T6::spec_faithful() && T7::spec_faithful() && T8::spec_faithful() && T9::spec_faithful() && T10::spec_faithful() && T11::spec_faithful() && T12::spec_faithful() { T2::lemma_decode_bounded(u2); } }
        let ghost u3 = deserializer.unread();
        proof { if T0::spec_faithful() && T1::spec_faithful() && T2::spec_faithful() && T3::spec_faithful() && T4::spec_faithful() && T5::spec_faithful() && T6::spec_faithful() && T7::spec_faithful() && T8::spec_faithful() && T9::spec_faithful() && T10::spec_faithful() && T11::spec_faithful() && T12::spec_faithful() { assert(u3 =~= start.subrange((start.len() - u3.len()) as int, start.len() as int)); } }
        self.3.deserialize_in_place(deserializer)?;
        proof { if T0::spec_faithful() && T1::spec_faithful() && T2::spec_faithful() && T3::spec_faithful() && T4::spec_faithful() && T5::spec_faithful() && T6::spec_faithful() && T7::spec_faithful() && T8::spec_faithful() && T9::spec_faithful() && T10::spec_faithful() && T11::spec_faithful() && T12::spec_faithful() { T3::lemma_decode_bounded(u3); } }
        let ghost u4 = deserializer.unread();
        proof { if T0::spec_faithful() && T1::spec_faithful() && T2::spec_faithful() && T3::spec_faithful() && T4::spec_faithful() && T5::spec_faithful() && T6::spec_faithful() && T7::spec_faithful() && T8::spec_faithful() && T9::spec_faithful() && T10::spec_faithful() && T11::spec_faithful() && T12::spec_faithful() { assert(u4 =~= start.subrange((start.len() - u4.len()) as int, start.len() as int)); } }
        self.4.deserialize_in_place(deserializer)?;
        proof { if T0::spec_faithful() && T1::spec_faithful() && T2::spec_faithful() && T3::spec_faithful() && T4::spec_faithful() && T5::spec_faithful() && T6::spec_faithful() && T7::spec_faithful() && T8::spec_faithful() && T9::spec_faithful() && T10::spec_faithful() && T11::spec_faithful() && T12::spec_faithful() { T4::lemma_decode_bounded(u4); } }
        let ghost u5 = deserializer.unread();
        proof { if T0::spec_faithful() && T1::spec_faithful() && T2::spec_faithful() && T3::spec_faithful() && T4::spec_faithful() && T5::spec_faithful() && T6::spec_faithful() && T7::spec_faithful() && T8::spec_faithful() && T9::spec_faithful() && T10::spec_faithful() && T11::spec_faithful() && T12::spec_faithful() { assert(u5 =~= start.subrange((start.len() - u5.len()) as int, start.len() as int)); } }
        self.5.deserialize_in_place(deserializer)?;
        proof { if T0::spec_faithful() && T1::spec_faithful() && T2::spec_faithful() && T3::spec_faithful() && T4::spec_faithful() && T5::spec_faithful() && T6::spec_faithful() && T7::spec_faithful() && T8::spec_faithful() && T9::spec_faithful() && T10::spec_faithful() && T11::spec_faithful() && T12::spec_faithful() { T5::lemma_decode_bounded(u5); } }
        let ghost u6 = deserializer.unread();
        proof { if T0::spec_faithful() && T1::spec_faithful() && T2::spec_faithful() && T3::spec_faithful() && T4::spec_faithful() && T5::spec_faithful() && T6::spec_faithful() && T7::spec_faithful() && T8::spec_faithful() && T9::spec_faithful() && T10::spec_faithful() && T11::spec_faithful() && T12::spec_faithful() { assert(u6 =~= start.subrange((start.len() - u6.len()) as int, start.len() as int)); } }
        self.6.deserialize_in_place(deserializer)?;
        proof { if T0::spec_faithful() && T1::spec_faithful() && T2::spec_faithful() && T3::spec_faithful() && T4::spec_faithful() && T5::spec_faithful() && T6::spec_faithful() && T7::spec_faithful() && T8::spec_faithful() && T9::spec_faithful() && T10::spec_faithful() && T11::spec_faithful() && T12::spec_faithful() { T6::lemma_decode_bounded(u6); } }
        let ghost u7 = deserializer.unread();
        proof { if T0::spec_faithful() && T1::spec_faithful() && T2::spec_faithful() && T3::spec_faithful() && T4::spec_faithful() && T5::spec_faithful() && T6::spec_faithful() && T7::spec_faithful() && T8::spec_faithful() && T9::spec_faithful() && T10::spec_faithful() && T11::spec_faithful() && T12::spec_faithful() { assert(u7 =~= start.subrange((start.len() - u7.len()) as int, start.len() as int)); } }
        self.7.deserialize_in_place(deserializer)?;
        proof { if T0::spec_faithful() && T1::spec_faithful() && T2::spec_faithful() && T3::spec_faithful() && T4::spec_faithful() && T5::spec_faithful() && T6::spec_faithful() && T7::spec_faithful() && T8::spec_faithful() && T9::spec_faithful() && T10::spec_faithful() && T11::spec_faithful() && T12::spec_faithful() { T7::lemma_decode_bounded(u7); } }
        let ghost u8 = deserializer.unread();
        proof { if T0::spec_faithful() && T1::spec_faithful() && T2::spec_faithful() && T3::spec_faithful() && T4::spec_faithful() && T5::spec_faithful() && T6::spec_faithful() && T7::spec_faithful() && T8::spec_faithful() && T9::spec_faithful() && T10::spec_faithful() && T11::spec_faithful() && T12::spec_faithful() { assert(u8 =~= start.subrange((start.len() - u8.len()) as int, start.len() as int)); } }
        self.8.deserialize_in_place(deserializer)?;
        proof { if T0::spec_faithful() && T1::spec_faithful() && T2::spec_faithful() && T3::spec_faithful() && T4::spec_faithful() && T5::spec_faithful() && T6::spec_faithful() && T7::spec_faithful() && T8::spec_faithful() && T9::spec_faithful() && T10::spec_faithful() && T11::spec_faithful() && T12::spec_faithful() { T8::lemma_decode_bounded(u8); } }
        let ghost u9 = deserializer.unread();
        proof { if T0::spec_faithful() && T1::spec_faithful() && T2::spec_faithful() && T3::spec_faithful() && T4::spec_faithful() && T5::spec_faithful() && T6::spec_faithful() && T7::spec_faithful() && T8::spec_faithful() && T9::spec_faithful() && T10::spec_faithful() && T11::spec_faithful() && T12::spec_faithful() { assert(u9 =~= start.subrange((start.len() - u9.len()) as int, start.len() as int)); } }
        self.9.deserialize_in_place(deserializer)?;
        proof { if T0::spec_faithful() && T1::spec_faithful() && T2::spec_faithful() && T3::spec_faithful() && T4::spec_faithful() && T5::spec_faithful() && T6::spec_faithful() && T7::spec_faithful() && T8::spec_faithful() && T9::spec_faithful() && T10::spec_faithful() && T11::spec_faithful() && T12::spec_faithful() { T9::lemma_decode_bounded(u9); } }
        let ghost u10 = deserializer.unread();
        proof { if T0::spec_faithful() && T1::spec_faithful() && T2::spec_faithful() && T3::spec_faithful() && T4::spec_faithful() && T5::spec_faithful() && T6::spec_faithful() && T7::spec_faithful() && T8::spec_faithful() && T9::spec_faithful() && T10::spec_faithful() && T11::spec_faithful() && T12::spec_faithful() { assert(u10 =~= start.subrange((start.len() - u10.len()) as int, start.len() as int)); } }
        self.10.deserialize_in_place(deserializer)?;
        proof { if T0::spec_faithful() && T1::spec_faithful() && T2::spec_faithful() && T3::spec_faithful() && T4::spec_faithful() && T5::spec_faithful() && T6::spec_faithful() && T7::spec_faithful() && T8::spec_faithful() && T9::spec_faithful() && T10::spec_faithful() && T11::spec_faithful() && T12::spec_faithful() { T10::lemma_decode_bounded(u10); } }
        let ghost u11 = deserializer.unread();
        proof { if T0::spec_faithful() && T1::spec_faithful() && T2::spec_faithful() && T3::spec_faithful() && T4::spec_faithful() && T5::spec_faithful() && T6::spec_faithful() && T7::spec_faithful() && T8::spec_faithful() && T9::spec_faithful() && T10::spec_faithful() && T11::spec_faithful() && T12::spec_faithful() { assert(u11 =~= start.subrange((start.len() - u11.len()) as int, start.len() as int)); } }
        self.11.deserialize_in_place(deserializer)?;
        proof { if T0::spec_faithful() && T1::spec_faithful() && T2::spec_faithful() && T3::spec_faithful() && T4::spec_faithful() && T5::spec_faithful() && T6::spec_faithful() && T7::spec_faithful() && T8::spec_faithful() && T9::spec_faithful() && T10::spec_faithful() && T11::spec_faithful() && T12::spec_faithful() { T11::lemma_decode_bounded(u11); } }
        let ghost u12 = deserializer.unread();
        proof { if T0::spec_faithful() && T1::spec_faithful() && T2::spec_faithful() && T3::spec_faithful() && T4::spec_faithful() && T5::spec_faithful() && T6::spec_faithful() && T7::spec_faithful() && T8::spec_faithful() && T9::spec_faithful() && T10::spec_faithful() && T11::spec_faithful() && T12::spec_faithful() { assert(u12 =~= start.subrange((start.len() - u12.len()) as int, start.len() as int)); } }
        self.12.deserialize_in_place(deserializer)?;
        proof { if T0::spec_faithful() && T1::spec_faithful() && T2::spec_faithful() && T3::spec_faithful() && T4::spec_faithful() && T5::spec_faithful() && T6::spec_faithful() && T7::spec_faithful() && T8::spec_faithful() && T9::spec_faithful() && T10::spec_faithful() && T11::spec_faithful() && T12::spec_faithful() { T12::lemma_decode_bounded(u12); } }
        proof { if T0::spec_faithful() && T1::spec_faithful() && T2::spec_faithful() && T3::spec_faithful() && T4::spec_faithful() && T5::spec_faithful() && T6::spec_faithful() && T7::spec_faithful() && T8::spec_faithful() && T9::spec_faithful() && T10::spec_faithful() && T11::spec_faithful() && T12::spec_faithful() { assert(deserializer.unread() =~= start.subrange((start.len() - deserializer.unread().len()) as int, start.len() as int)); } }
        Ok(())
    }
}

impl<T0: WireFormat, T1: WireFormat, T2: WireFormat, T3: WireFormat, T4: WireFormat, T5: WireFormat, T6: WireFormat, T7: WireFormat, T8: WireFormat, T9: WireFormat, T10: WireFormat, T11: WireFormat, T12: WireFormat, T13: WireFormat> WireFormat for (T0, T1, T2, T3, T4, T5, T6, T7, T8, T9, T10, T11, T12, T13) {
    type Model = (T0::Model, T1::Model, T2::Model, T3::Model, T4::Model, T5::Model, T6::Model, T7::Model, T8::Model, T9::Model, T10::Model, T11::Model, T12::Model, T13::Model);

    open spec fn model(&self) -> (T0::Model, T1::Model, T2::Model, T3::Model, T4::Model, T5::Model, T6::Model, T7::Model, T8::Model, T9::Model, T10::Model, T11::Model, T12::Model, T13::Model) {
        (self.0.model(), self.1.model(), self.2.model(), self.3.model(), self.4.model(), self.5.model(), self.6.model(), self.7.model(), self.8.model(), self.9.model(), self.10.model(), self.11.model(), self.12.model(), self.13.model())
    }

    open spec fn spec_encodes(m: (T0::Model, T1::Model, T2::Model, T3::Model, T4::Model, T5::Model, T6::Model, T7::Model, T8::Model, T9::Model, T10::Model, T11::Model, T12::Model, T13::Model), bytes: Seq<u8>) -> bool {
        exists|k1: int| 0 <= k1 <= bytes.len() && #[trigger] T0::spec_encodes(m.0, bytes.subrange(0, k1)) && (exists|k2: int| k1 <= k2 <= bytes.len() && #[trigger] T1::spec_encodes(m.1, bytes.subrange(k1, k2)) && (exists|k3: int| k2 <= k3 <= bytes.len() && #[trigger] T2::spec_encodes(m.2, bytes.subrange(k2, k3)) && (exists|k4: int| k3 <= k4 <= bytes.len() && #[trigger] T3::spec_encodes(m.3, bytes.subrange(k3, k4)) && (exists|k5: int| k4 <= k5 <= bytes.len() && #[trigger] T4::spec_encodes(m.4, bytes.subrange(k4, k5)) && (exists|k6: int| k5 <= k6 <= bytes.len() && #[trigger] T5::spec_encodes(m.5, bytes.subrange(k5, k6)) && (exists|k7: int| k6 <= k7 <= bytes.len() && #[trigger] T6::spec_encodes(m.6, bytes.subrange(k6, k7)) && (exists|k8: int| k7 <= k8 <= bytes.len() && #[trigger] T7::spec_encodes(m.7, bytes.subrange(k7, k8)) && (exists|k9: int| k8 <= k9 <= bytes.len() && #[trigger] T8::spec_encodes(m.8, bytes.subrange(k8, k9)) && (exists|k10: int| k9 <= k10 <= bytes.len() && #[trigger] T9::spec_encodes(m.9, bytes.subrange(k9, k10)) && (exists|k11: int| k10 <= k11 <= bytes.len() && #[trigger] T10::spec_encodes(m.10, bytes.subrange(k10, k11)) && (exists|k12: int| k11 <= k12 <= bytes.len() && #[trigger] T11::spec_encodes(m.11, bytes.subrange(k11, k12)) && (exists|k13: int| k12 <= k13 <= bytes.len() && #[trigger] T12::spec_encodes(m.12, bytes.subrange(k12, k13)) && (T13::spec_encodes(m.13, bytes.subrange(k13, bytes.len() as int)))))))))))))))
    }

    open spec fn spec_encodable(m: (T0::Model, T1::Model, T2::Model, T3::Model, T4::Model, T5::Model, T6::Model, T7::Model, T8::Model, T9::Model, T10::Model, T11::Model, T12::Model, T13::Model)) -> bool {
        T0::spec_encodable(m.0) && T1::spec_encodable(m.1) && T2::spec_encodable(m.2) && T3::spec_encodable(m.3) && T4::spec_encodable(m.4) && T5::spec_encodable(m.5) && T6::spec_encodable(m.6) && T7::spec_encodable(m.7) && T8::spec_encodable(m.8) && T9::spec_encodable(m.9) && T10::spec_encodable(m.10) && T11::spec_encodable(m.11) && T12::spec_encodable(m.12) && T13::spec_encodable(m.13)
    }

    open spec fn spec_decode(bytes: Seq<u8>) -> Option<((T0::Model, T1::Model, T2::Model, T3::Model, T4::Model, T5::Model, T6::Model, T7::Model, T8::Model, T9::Model, T10::Model, T11::Model, T12::Model, T13::Model), nat)> {
        match T0::spec_decode(bytes.subrange((0) as int, bytes.len() as int)) { None => None, Some((a0, n0)) => if 0 + n0 > bytes.len() { None } else { match T1::spec_decode(bytes.subrange((0 + n0) as int, bytes.len() as int)) { None => None, Some((a1, n1)) => if 0 + n0 + n1 > bytes.len() { None } else { match T2::spec_decode(bytes.subrange((0 + n0 + n1) as int, bytes.len() as int)) { None => None, Some((a2, n2)) => if 0 + n0 + n1 + n2 > bytes.len() { None } else { match T3::spec_decode(bytes.subrange((0 + n0 + n1 + n2) as int, bytes.len() as int)) { None => None, Some((a3, n3)) => if 0 + n0 + n1 + n2 + n3 > bytes.len() { None } else { match T4::spec_decode(bytes.subrange((0 + n0 + n1 + n2 + n3) as int, bytes.len() as int)) { None => None, Some((a4, n4)) => if 0 + n0 + n1 + n2 + n3 + n4 > bytes.len() { None } else { match T5::spec_decode(bytes.subrange((0 + n0 + n1 + n2 + n3 + n4) as int, bytes.len() as int)) { None => None, Some((a5, n5)) => if 0 + n0 + n1 + n2 + n3 + n4 + n5 > bytes.len() { None } else { match T6::spec_decode(bytes.subrange((0 + n0 + n1 + n2 + n3 + n4 + n5) as int, bytes.len() as int)) { None => None, Some((a6, n6)) => if 0 + n0 + n1 + n2 + n3 + n4 + n5 + n6 > bytes.len() { None } else { match T7::spec_decode(bytes.subrange((0 + n0 + n1 + n2 + n3 + n4 + n5 + n6) as int, bytes.len() as int)) { None => None, Some((a7, n7)) => if 0 + n0 + n1 + n2 + n3 + n4 + n5 + n6 + n7 > bytes.len() { None } else { match T8::spec_decode(bytes.subrange((0 + n0 + n1 + n2 + n3 + n4 + n5 + n6 + n7) as int, bytes.len() as int)) { None => None, Some((a8, n8)) => if 0 + n0 + n1 + n2 + n3 + n4 + n5 + n6 + n7 + n8 > bytes.len() { None } else { match T9::spec_decode(bytes.subrange((0 + n0 + n1 + n2 + n3 + n4 + n5 + n6 + n7 + n8) as int, bytes.len() as int)) { None => None, Some((a9, n9)) => if 0 + n0 + n1 + n2 + n3 + n4 + n5 + n6 + n7 + n8 + n9 > bytes.len() { None } else { match T10::spec_decode(bytes.subrange((0 + n0 + n1 + n2 + n3 + n4 + n5 + n6 + n7 + n8 + n9) as int, bytes.len() as int)) { None => None, Some((a10, n10)) => if 0 + n0 + n1 + n2 + n3 + n4 + n5 + n6 + n7 + n8 + n9 + n10 > bytes.len() { None } else { match T11::spec_decode(bytes.subrange((0 + n0 + n1 + n2 + n3 + n4 + n5 + n6 + n7 + n8 + n9 + n10) as int, bytes.len() as int)) { None => None, Some((a11, n11)) => if 0 + n0 + n1 + n2 + n3 + n4 + n5 + n6 + n7 + n8 + n9 + n10 + n11 > bytes.len() { None } else { match T12::spec_decode(bytes.subrange((0 + n0 + n1 + n2 + n3 + n4 + n5 + n6 + n7 + n8 + n9 + n10 + n11) as int, bytes.len() as int)) { None => None, Some((a12, n12)) => if 0 + n0 + n1 + n2 + n3 + n4 + n5 + n6 + n7 + n8 + n9 + n10 + n11 + n12 > bytes.len() { None } else { match T13::spec_decode(bytes.subrange((0 + n0 + n1 + n2 + n3 + n4 + n5 + n6 + n7 + n8 + n9 + n10 + n11 + n12) as int, bytes.len() as int)) { None => None, Some((a13, n13)) => if 0 + n0 + n1 + n2 + n3 + n4 + n5 + n6 + n7 + n8 + n9 + n10 + n11 + n12 + n13 > bytes.len() { None } else { Some(((a0, a1, a2, a3, a4, a5, a6, a7, a8, a9, a10, a11, a12, a13), 0 + n0 + n1 + n2 + n3 + n4 + n5 + n6 + n7 + n8 + n9 + n10 + n11 + n12 + n13 as nat)) } } } } } } } } } } } } } } } } } } } } } } } } } } } }
    }

    open spec fn spec_faithful() -> bool {
        T0::spec_faithful() && T1::spec_faithful() && T2::spec_faithful() && T3::spec_faithful() && T4::spec_faithful() && T5::spec_faithful() && T6::spec_faithful() && T7::spec_faithful() && T8::spec_faithful() && T9::spec_faithful() && T10::spec_faithful() && T11::spec_faithful() && T12::spec_faithful() && T13::spec_faithful()
    }

    #[verifier::rlimit(100)]
    #[verifier::spinoff_prover]
    proof fn lemma_round_trip(m: (T0::Model, T1::Model, T2::Model, T3::Model, T4::Model, T5::Model, T6::Model, T7::Model, T8::Model, T9::Model, T10::Model, T11::Model, T12::Model, T13::Model), bytes: Seq<u8>, rest: Seq<u8>) {
        let k1 = choose|k1: int| 0 <= k1 <= bytes.len() && #[trigger] T0::spec_encodes(m.0, bytes.subrange(0, k1)) && (exists|k2: int| k1 <= k2 <= bytes.len() && #[trigger] T1::spec_encodes(m.1, bytes.subrange(k1, k2)) && (exists|k3: int| k2 <= k3 <= bytes.len() && #[trigger] T2::spec_encodes(m.2, bytes.subrange(k2, k3)) && (exists|k4: int| k3 <= k4 <= bytes.len() && #[trigger] T3::spec_encodes(m.3, bytes.subrange(k3, k4)) && (exists|k5: int| k4 <= k5 <= bytes.len() && #[trigger] T4::spec_encodes(m.4, bytes.subrange(k4, k5)) && (exists|k6: int| k5 <= k6 <= bytes.len() && #[trigger] T5::spec_encodes(m.5, bytes.subrange(k5, k6)) && (exists|k7: int| k6 <= k7 <= bytes.len() && #[trigger] T6::spec_encodes(m.6, bytes.subrange(k6, k7)) && (exists|k8: int| k7 <= k8 <= bytes.len() && #[trigger] T7::spec_encodes(m.7, bytes.subrange(k7, k8)) && (exists|k9: int| k8 <= k9 <= bytes.len() && #[trigger] T8::spec_encodes(m.8, bytes.subrange(k8, k9)) && (exists|k10: int| k9 <= k10 <= bytes.len() && #[trigger] T9::spec_encodes(m.9, bytes.subrange(k9, k10)) && (exists|k11: int| k10 <= k11 <= bytes.len() && #[trigger] T10::spec_encodes(m.10, bytes.subrange(k10, k11)) && (exists|k12: int| k11 <= k12 <= bytes.len() && #[trigger] T11::spec_encodes(m.11, bytes.subrange(k11, k12)) && (exists|k13: int| k12 <= k13 <= bytes.len() && #[trigger] T12::spec_encodes(m.12, bytes.subrange(k12, k13)) && (T13::spec_encodes(m.13, bytes.subrange(k13, bytes.len() as int)))))))))))))));
        let k2 = choose|k2: int| k1 <= k2 <= bytes.len() && #[trigger] T1::spec_encodes(m.1, bytes.subrange(k1, k2)) && (exists|k3: int| k2 <= k3 <= bytes.len() && #[trigger] T2::spec_encodes(m.2, bytes.subrange(k2, k3)) && (exists|k4: int| k3 <= k4 <= bytes.len() && #[trigger] T3::spec_encodes(m.3, bytes.subrange(k3, k4)) && (exists|k5: int| k4 <= k5 <= bytes.len() && #[trigger] T4::spec_encodes(m.4, bytes.subrange(k4, k5)) && (exists|k6: int| k5 <= k6 <= bytes.len() && #[trigger] T5::spec_encodes(m.5, bytes.subrange(k5, k6)) && (exists|k7: int| k6 <= k7 <= bytes.len() && #[trigger] T6::spec_encodes(m.6, bytes.subrange(k6, k7)) && (exists|k8: int| k7 <= k8 <= bytes.len() && #[trigger] T7::spec_encodes(m.7, bytes.subrange(k7, k8)) && (exists|k9: int| k8 <= k9 <= bytes.len() && #[trigger] T8::spec_encodes(m.8, bytes.subrange(k8, k9)) && (exists|k10: int| k9 <= k10 <= bytes.len() && #[trigger] T9::spec_encodes(m.9, bytes.subrange(k9, k10)) && (exists|k11: int| k10 <= k11 <= bytes.len() && #[trigger] T10::spec_encodes(m.10, bytes.subrange(k10, k11)) && (exists|k12: int| k11 <= k12 <= bytes.len() && #[trigger] T11::spec_encodes(m.11, bytes.subrange(k11, k12)) && (exists|k13: int| k12 <= k13 <= bytes.len() && #[trigger] T12::spec_encodes(m.12, bytes.subrange(k12, k13)) && (T13::spec_encodes(m.13, bytes.subrange(k13, bytes.len() as int))))))))))))));
        let k3 = choose|k3: int| k2 <= k3 <= bytes.len() && #[trigger] T2::spec_encodes(m.2, bytes.subrange(k2, k3)) && (exists|k4: int| k3 <= k4 <= bytes.len() && #[trigger] T3::spec_encodes(m.3, bytes.subrange(k3, k4)) && (exists|k5: int| k4 <= k5 <= bytes.len() && #[trigger] T4::spec_encodes(m.4, bytes.subrange(k4, k5)) && (exists|k6: int| k5 <= k6 <= bytes.len() && #[trigger] T5::spec_encodes(m.5, bytes.subrange(k5, k6)) && (exists|k7: int| k6 <= k7 <= bytes.len() && #[trigger] T6::spec_encodes(m.6, bytes.subrange(k6, k7)) && (exists|k8: int| k7 <= k8 <= bytes.len() && #[trigger] T7::spec_encodes(m.7, bytes.subrange(k7, k8)) && (exists|k9: int| k8 <= k9 <= bytes.len() && #[trigger] T8::spec_encodes(m.8, bytes.subrange(k8, k9)) && (exists|k10: int| k9 <= k10 <= bytes.len() && #[trigger] T9::spec_encodes(m.9, bytes.subrange(k9, k10)) && (exists|k11: int| k10 <= k11 <= bytes.len() && #[trigger] T10::spec_encodes(m.10, bytes.subrange(k10, k11)) && (exists|k12: int| k11 <= k12 <= bytes.len() && #[trigger] T11::spec_encodes(m.11, bytes.subrange(k11, k12)) && (exists|k13: int| k12 <= k13 <= bytes.len() && #[trigger] T12::spec_encodes(m.12, bytes.subrange(k12, k13)) && (T13::spec_encodes(m.13, bytes.subrange(k13, bytes.len() as int)))))))))))));
        let k4 = choose|k4: int| k3 <= k4 <= bytes.len() && #[trigger] T3::spec_encodes(m.3, bytes.subrange(k3, k4)) && (exists|k5: int| k4 <= k5 <= bytes.len() && #[trigger] T4::spec_encodes(m.4, bytes.subrange(k4, k5)) && (exists|k6: int| k5 <= k6 <= bytes.len() && #[trigger] T5::spec_encodes(m.5, bytes.subrange(k5, k6)) && (exists|k7: int| k6 <= k7 <= bytes.len() && #[trigger] T6::spec_encodes(m.6, bytes.subrange(k6, k7)) && (exists|k8: int| k7 <= k8 <= bytes.len() && #[trigger] T7::spec_encodes(m.7, bytes.subrange(k7, k8)) && (exists|k9: int| k8 <= k9 <= bytes.len() && #[trigger] T8::spec_encodes(m.8, bytes.subrange(k8, k9)) && (exists|k10: int| k9 <= k10 <= bytes.len() && #[trigger] T9::spec_encodes(m.9, bytes.subrange(k9, k10)) && (exists|k11: int| k10 <= k11 <= bytes.len() && #[trigger] T10::spec_encodes(m.10, bytes.subrange(k10, k11)) && (exists|k12: int| k11 <= k12 <= bytes.len() && #[trigger] T11::spec_encodes(m.11, bytes.subrange(k11, k12)) && (exists|k13: int| k12 <= k13 <= bytes.len() && #[trigger] T12::spec_encodes(m.12, bytes.subrange(k12, k13)) && (T13::spec_encodes(m.13, bytes.subrange(k13, bytes.len() as int))))))))))));
        let k5 = choose|k5: int| k4 <= k5 <= bytes.len() && #[trigger] T4::spec_encodes(m.4, bytes.subrange(k4, k5)) && (exists|k6: int| k5 <= k6 <= bytes.len() && #[trigger] T5::spec_encodes(m.5, bytes.subrange(k5, k6)) && (exists|k7: int| k6 <= k7 <= bytes.len() && #[trigger] T6::spec_encodes(m.6, bytes.subrange(k6, k7)) && (exists|k8: int| k7 <= k8 <= bytes.len() && #[trigger] T7::spec_encodes(m.7, bytes.subrange(k7, k8)) && (exists|k9: int| k8 <= k9 <= bytes.len() && #[trigger] T8::spec_encodes(m.8, bytes.subrange(k8, k9)) && (exists|k10: int| k9 <= k10 <= bytes.len() && #[trigger] T9::spec_encodes(m.9, bytes.subrange(k9, k10)) && (exists|k11: int| k10 <= k11 <= bytes.len() && #[trigger] T10::spec_encodes(m.10, bytes.subrange(k10, k11)) && (exists|k12: int| k11 <= k12 <= bytes.len() && #[trigger] T11::spec_encodes(m.11, bytes.subrange(k11, k12)) && (exists|k13: int| k12 <= k13 <= bytes.len() && #[trigger] T12::spec_encodes(m.12, bytes.subrange(k12, k13)) && (T13::spec_encodes(m.13, bytes.subrange(k13, bytes.len() as int)))))))))));
        let k6 = choose|k6: int| k5 <= k6 <= bytes.len() && #[trigger] T5::spec_encodes(m.5, bytes.subrange(k5, k6)) && (exists|k7: int| k6 <= k7 <= bytes.len() && #[trigger] T6::spec_encodes(m.6, bytes.subrange(k6, k7)) && (exists|k8: int| k7 <= k8 <= bytes.len() && #[trigger] T7::spec_encodes(m.7, bytes.subrange(k7, k8)) && (exists|k9: int| k8 <= k9 <= bytes.len() && #[trigger] T8::spec_encodes(m.8, bytes.subrange(k8, k9)) && (exists|k10: int| k9 <= k10 <= bytes.len() && #[trigger] T9::spec_encodes(m.9, bytes.subrange(k9, k10)) && (exists|k11: int| k10 <= k11 <= bytes.len() && #[trigger] T10::spec_encodes(m.10, bytes.subrange(k10, k11)) && (exists|k12: int| k11 <= k12 <= bytes.len() && #[trigger] T11::spec_encodes(m.11, bytes.subrange(k11, k12)) && (exists|k13: int| k12 <= k13 <= bytes.len() && #[trigger] T12::spec_encodes(m.12, bytes.subrange(k12, k13)) && (T13::spec_encodes(m.13, bytes.subrange(k13, bytes.len() as int))))))))));
        let k7 = choose|k7: int| k6 <= k7 <= bytes.len() && #[trigger] T6::spec_encodes(m.6, bytes.subrange(k6, k7)) && (exists|k8: int| k7 <= k8 <= bytes.len() && #[trigger] T7::spec_encodes(m.7, bytes.subrange(k7, k8)) && (exists|k9: int| k8 <= k9 <= bytes.len() && #[trigger] T8::spec_encodes(m.8, bytes.subrange(k8, k9)) && (exists|k10: int| k9 <= k10 <= bytes.len() && #[trigger] T9::spec_encodes(m.9, bytes.subrange(k9, k10)) && (exists|k11: int| k10 <= k11 <= bytes.len() && #[trigger] T10::spec_encodes(m.10, bytes.subrange(k10, k11)) && (exists|k12: int| k11 <= k12 <= bytes.len() && #[trigger] T11::spec_encodes(m.11, bytes.subrange(k11, k12)) && (exists|k13: int| k12 <= k13 <= bytes.len() && #[trigger] T12::spec_encodes(m.12, bytes.subrange(k12, k13)) && (T13::spec_encodes(m.13, bytes.subrange(k13, bytes.len() as int)))))))));
        let k8 = choose|k8: int| k7 <= k8 <= bytes.len() && #[trigger] T7::spec_encodes(m.7, bytes.subrange(k7, k8)) && (exists|k9: int| k8 <= k9 <= bytes.len() && #[trigger] T8::spec_encodes(m.8, bytes.subrange(k8, k9)) && (exists|k10: int| k9 <= k10 <= bytes.len() && #[trigger] T9::spec_encodes(m.9, bytes.subrange(k9, k10)) && (exists|k11: int| k10 <= k11 <= bytes.len() && #[trigger] T10::spec_encodes(m.10, bytes.subrange(k10, k11)) && (exists|k12: int| k11 <= k12 <= bytes.len() && #[trigger] T11::spec_encodes(m.11, bytes.subrange(k11, k12)) && (exists|k13: int| k12 <= k13 <= bytes.len() && #[trigger] T12::spec_encodes(m.12, bytes.subrange(k12, k13)) && (T13::spec_encodes(m.13, bytes.subrange(k13, bytes.len() as int))))))));
        let k9 = choose|k9: int| k8 <= k9 <= bytes.len() && #[trigger] T8::spec_encodes(m.8, bytes.subrange(k8, k9)) && (exists|k10: int| k9 <= k10 <= bytes.len() && #[trigger] T9::spec_encodes(m.9, bytes.subrange(k9, k10)) && (exists|k11: int| k10 <= k11 <= bytes.len() && #[trigger] T10::spec_encodes(m.10, bytes.subrange(k10, k11)) && (exists|k12: int| k11 <= k12 <= bytes.len() && #[trigger] T11::spec_encodes(m.11, bytes.subrange(k11, k12)) && (exists|k13: int| k12 <= k13 <= bytes.len() && #[trigger] T12::spec_encodes(m.12, bytes.subrange(k12, k13)) && (T13::spec_encodes(m.13, bytes.subrange(k13, bytes.len() as int)))))));
        let k10 = choose|k10: int| k9 <= k10 <= bytes.len() && #[trigger] T9::spec_encodes(m.9, bytes.subrange(k9, k10)) && (exists|k11: int| k10 <= k11 <= bytes.len() && #[trigger] T10::spec_encodes(m.10, bytes.subrange(k10, k11)) && (exists|k12: int| k11 <= k12 <= bytes.len() && #[trigger] T11::spec_encodes(m.11, bytes.subrange(k11, k12)) && (exists|k13: int| k12 <= k13 <= bytes.len() && #[trigger] T12::spec_encodes(m.12, bytes.subrange(k12, k13)) && (T13::spec_encodes(m.13, bytes.subrange(k13, bytes.len() as int))))));
        let k11 = choose|k11: int| k10 <= k11 <= bytes.len() && #[trigger] T10::spec_encodes(m.10, bytes.subrange(k10, k11)) && (exists|k12: int| k11 <= k12 <= bytes.len() && #[trigger] T11::spec_encodes(m.11, bytes.subrange(k11, k12)) && (exists|k13: int| k12 <= k13 <= bytes.len() && #[trigger] T12::spec_encodes(m.12, bytes.subrange(k12, k13)) && (T13::spec_encodes(m.13, bytes.subrange(k13, bytes.len() as int)))));
        let k12 = choose|k12: int| k11 <= k12 <= bytes.len() && #[trigger] T11::spec_encodes(m.11, bytes.subrange(k11, k12)) && (exists|k13: int| k12 <= k13 <= bytes.len() && #[trigger] T12::spec_encodes(m.12, bytes.subrange(k12, k13)) && (T13::spec_encodes(m.13, bytes.subrange(k13, bytes.len() as int))));
        let k13 = choose|k13: int| k12 <= k13 <= bytes.len() && #[trigger] T12::spec_encodes(m.12, bytes.subrange(k12, k13)) && (T13::spec_encodes(m.13, bytes.subrange(k13, bytes.len() as int)));
        lemma_field_round_trip::<T0>(m.0, bytes, rest, 0, k1);
        lemma_field_round_trip::<T1>(m.1, bytes, rest, k1, k2);
        lemma_field_round_trip::<T2>(m.2, bytes, rest, k2, k3);
        lemma_field_round_trip::<T3>(m.3, bytes, rest, k3, k4);
        lemma_field_round_trip::<T4>(m.4, bytes, rest, k4, k5);
        lemma_field_round_trip::<T5>(m.5, bytes, rest, k5, k6);
        lemma_field_round_trip::<T6>(m.6, bytes, rest, k6, k7);
        lemma_field_round_trip::<T7>(m.7, bytes, rest, k7, k8);
        lemma_field_round_trip::<T8>(m.8, bytes, rest, k8, k9);
        lemma_field_round_trip::<T9>(m.9, bytes, rest, k9, k10);
        lemma_field_round_trip::<T10>(m.10, bytes, rest, k10, k11);
        lemma_field_round_trip::<T11>(m.11, bytes, rest, k11, k12);
        lemma_field_round_trip::<T12>(m.12, bytes, rest, k12, k13);
        lemma_field_round_trip::<T13>(m.13, bytes, rest, k13, bytes.len() as int);
    }

    proof fn lemma_decode_bounded(bytes: Seq<u8>) {
    }
}

impl<T0: Serialize, T1: Serialize, T2: Serialize, T3: Serialize, T4: Serialize, T5: Serialize, T6: Serialize, T7: Serialize, T8: Serialize, T9: Serialize, T10: Serialize, T11: Serialize, T12: Serialize, T13: Serialize> Serialize for (T0, T1, T2, T3, T4, T5, T6, T7, T8, T9, T10, T11, T12, T13) {
    #[verifier::rlimit(100)]
    #[verifier::spinoff_prover]
    fn serialize<W: WriteUninit>(&self, serializer: &mut Serializer<W>) -> (r: Result<()>) {
        let ghost w0 = serializer.written();
        self.0.serialize(serializer)?;
        let ghost w1 = serializer.written();
        self.1.serialize(serializer)?;
        let ghost w2 = serializer.written();
        self.2.serialize(serializer)?;
        let ghost w3 = serializer.written();
        self.3.serialize(serializer)?;
        let ghost w4 = serializer.written();
        self.4.serialize(serializer)?;
        let ghost w5 = serializer.written();
        self.5.serialize(serializer)?;
        let ghost w6 = serializer.written();
        self.6.serialize(serializer)?;
        let ghost w7 = serializer.written();
        self.7.serialize(serializer)?;
        let ghost w8 = serializer.written();
        self.8.serialize(serializer)?;
        let ghost w9 = serializer.written();
        self.9.serialize(serializer)?;
        let ghost w10 = serializer.written();
        self.10.serialize(serializer)?;
        let ghost w11 = serializer.written();
        self.11.serialize(serializer)?;
        let ghost w12 = serializer.written();
        self.12.serialize(serializer)?;
        let ghost w13 = serializer.written();
        self.13.serialize(serializer)?;
        let ghost w14 = serializer.written();
        proof {
            if T0::spec_faithful() && T1::spec_faithful() && T2::spec_faithful() && T3::spec_faithful() && T4::spec_faithful() && T5::spec_faithful() && T6::spec_faithful() && T7::spec_faithful() && T8::spec_faithful() && T9::spec_faithful() && T10::spec_faithful() && T11::spec_faithful() && T12::spec_faithful() && T13::spec_faithful() {
                lemma_extends_trans(w0, w1, w2);
                lemma_extends_trans(w0, w2, w3);
                lemma_extends_trans(w0, w3, w4);
                lemma_extends_trans(w0, w4, w5);
                lemma_extends_trans(w0, w5, w6);
                lemma_extends_trans(w0, w6, w7);
                lemma_extends_trans(w0, w7, w8);
                lemma_extends_trans(w0, w8, w9);
                lemma_extends_trans(w0, w9, w10);
                lemma_extends_trans(w0, w10, w11);
                lemma_extends_trans(w0, w11, w12);
                lemma_extends_trans(w0, w12, w13);
                lemma_extends_trans(w0, w13, w14);
                let all = appended(w0, w14);
                let m = self.model();
                let k1 = (w1.len() - w0.len()) as int;
                let k2 = (w2.len() - w0.len()) as int;
                let k3 = (w3.len() - w0.len()) as int;
                let k4 = (w4.len() - w0.len()) as int;
                let k5 = (w5.len() - w0.len()) as int;
                let k6 = (w6.len() - w0.len()) as int;
                let k7 = (w7.len() - w0.len()) as int;
                let k8 = (w8.len() - w0.len()) as int;
                let k9 = (w9.len() - w0.len()) as int;
                let k10 = (w10.len() - w0.len()) as int;
                let k11 = (w11.len() - w0.len()) as int;
                let k12 = (w12.len() - w0.len()) as int;
                let k13 = (w13.len() - w0.len()) as int;
                assert(all.subrange(0, k1) =~= appended(w0, w1));
                assert(T0::spec_encodes(m.0, all.subrange(0, k1)));
                assert(all.subrange(k1, k2) =~= appended(w1, w2));
                assert(T1::spec_encodes(m.1, all.subrange(k1, k2)));
                assert(all.subrange(k2, k3) =~= appended(w2, w3));
                assert(T2::spec_encodes(m.2, all.subrange(k2, k3)));
                assert(all.subrange(k3, k4) =~= appended(w3, w4));
                assert(T3::spec_encodes(m.3, all.subrange(k3, k4)));
                assert(all.subrange(k4, k5) =~= appended(w4, w5));
                assert(T4::spec_encodes(m.4, all.subrange(k4, k5)));
                assert(all.subrange(k5, k6) =~= appended(w5, w6));
                assert(T5::spec_encodes(m.5, all.subrange(k5, k6)));
                assert(all.subrange(k6, k7) =~= appended(w6, w7));
                assert(T6::spec_encodes(m.6, all.subrange(k6, k7)));
                assert(all.subrange(k7, k8) =~= appended(w7, w8));
                assert(T7::spec_encodes(m.7, all.subrange(k7, k8)));
                assert(all.subrange(k8, k9) =~= appended(w8, w9));
                assert(T8::spec_encodes(m.8, all.subrange(k8, k9)));
                assert(all.subrange(k9, k10) =~= appended(w9, w10));
                assert(T9::spec_encodes(m.9, all.subrange(k9, k10)));
                assert(all.subrange(k10, k11) =~= appended(w10, w11));
                assert(T10::spec_encodes(m.10, all.subrange(k10, k11)));
                assert(all.subrange(k11, k12) =~= appended(w11, w12));
                assert(T11::spec_encodes(m.11, all.subrange(k11, k12)));
                assert(all.subrange(k12, k13) =~= appended(w12, w13));
                assert(T12::spec_encodes(m.12, all.subrange(k12, k13)));
                assert(all.subrange(k13, all.len() as int) =~= appended(w13, w14));
                assert(T13::spec_encodes(m.13, all.subrange(k13, all.len() as int)));
            }
        }
        Ok(())
    }
}

impl<T0: Deserialize, T1: Deserialize, T2: Deserialize, T3: Deserialize, T4: Deserialize, T5: Deserialize, T6: Deserialize, T7: Deserialize, T8: Deserialize, T9: Deserialize, T10: Deserialize, T11: Deserialize, T12: Deserialize, T13: Deserialize> Deserialize for (T0, T1, T2, T3, T4, T5, T6, T7, T8, T9, T10, T11, T12, T13) {
    #[verifier::rlimit(100)]
    #[verifier::spinoff_prover]
    fn deserialize<R: ReadUninit>(deserializer: &mut Deserializer<R>) -> (r: Result<Self>) {
        let ghost start = deserializer.unread();
        let ghost u0 = deserializer.unread();
        proof { if T0::spec_faithful() && T1::spec_faithful() && T2::spec_faithful() && T3::spec_faithful() && T4::spec_faithful() && T5::spec_faithful() && T6::spec_faithful() && T7::spec_faithful() && T8::spec_faithful() && T9::spec_faithful() && T10::spec_faithful() && T11::spec_faithful() && T12::spec_faithful() && T13::spec_faithful() { assert(u0 =~= start.subrange((start.len() - u0.len()) as int, start.len() as int)); } }
        let a0 = T0::deserialize(deserializer)?;
        proof { if T0::spec_faithful() && T1::spec_faithful() && T2::spec_faithful() && T3::spec_faithful() && T4::spec_faithful() && T5::spec_faithful() && T6::spec_faithful() && T7::spec_faithful() && T8::spec_faithful() && T9::spec_faithful() && T10::spec_faithful() && T11::spec_faithful() && T12::spec_faithful() && T13::spec_faithful() { T0::lemma_decode_bounded(u0); } }
        let ghost u1 = deserializer.unread();
        proof { if T0::spec_faithful() && T1::spec_faithful() && T2::spec_faithful() && T3::spec_faithful() && T4::spec_faithful() && T5::spec_faithful() && T6::spec_faithful() && T7::spec_faithful() && T8::spec_faithful() && T9::spec_faithful() && T10::spec_faithful() && T11::spec_faithful() && T12::spec_faithful() && T13::spec_faithful() { assert(u1 =~= start.subrange((start.len() - u1.len()) as int, start.len() as int)); } }
        let a1 = T1::deserialize(deserializer)?;
        proof { if T0::spec_faithful() && T1::spec_faithful() && T2::spec_faithful() && T3::spec_faithful() && T4::spec_faithful() && T5::spec_faithful() && T6::spec_faithful() && T7::spec_faithful() && T8::spec_faithful() && T9::spec_faithful() && T10::spec_faithful() && T11::spec_faithful() && T12::spec_faithful() && T13::spec_faithful() { T1::lemma_decode_bounded(u1); } }
        let ghost u2 = deserializer.unread();
        proof { if T0::spec_faithful() && T1::spec_faithful() && T2::spec_faithful() && T3::spec_faithful() && T4::spec_faithful() && T5::spec_faithful() && T6::spec_faithful() && T7::spec_faithful() && T8::spec_faithful() && T9::spec_faithful() && T10::spec_faithful() && T11::spec_faithful() && T12::spec_faithful() && T13::spec_faithful() { assert(u2 =~= start.subrange((start.len() - u2.len()) as int, start.len() as int)); } }
        let a2 = T2::deserialize(deserializer)?;
        proof { if T0::spec_faithful() && T1::spec_faithful() && T2::spec_faithful() && T3::spec_faithful() && T4::spec_faithful() && T5::spec_faithful() && T6::spec_faithful() && T7::spec_faithful() && T8::spec_faithful() && T9::spec_faithful() && T10::spec_faithful() && T11::spec_faithful() && T12::spec_faithful() && T13::spec_faithful() { T2::lemma_decode_bounded(u2); } }
        let ghost u3 = deserializer.unread();
        proof { if T0::spec_faithful() && T1::spec_faithful() && T2::spec_faithful() && T3::spec_faithful() && T4::spec_faithful() && T5::spec_faithful() && T6::spec_faithful() && T7::spec_faithful() && T8::spec_faithful() && T9::spec_faithful() && T10::spec_faithful() && T11::spec_faithful() && T12::spec_faithful() && T13::spec_faithful() { assert(u3 =~= start.subrange((start.len() - u3.len()) as int, start.len() as int)); } }
        let a3 = T3::deserialize(deserializer)?;
        proof { if T0::spec_faithful() && T1::spec_faithful() && T2::spec_faithful() && T3::spec_faithful() && T4::spec_faithful() && T5::spec_faithful() && T6::spec_faithful() && T7::spec_faithful() && T8::spec_faithful() && T9::spec_faithful() && T10::spec_faithful() && T11::spec_faithful() && T12::spec_faithful() && T13::spec_faithful() { T3::lemma_decode_bounded(u3); } }
        let ghost u4 = deserializer.unread();
        proof { if T0::spec_faithful() && T1::spec_faithful() && T2::spec_faithful() && T3::spec_faithful() && T4::spec_faithful() && T5::spec_faithful() && T6::spec_faithful() && T7::spec_faithful() && T8::spec_faithful() && T9::spec_faithful() && T10::spec_faithful() && T11::spec_faithful() && T12::spec_faithful() && T13::spec_faithful() { assert(u4 =~= start.subrange((start.len() - u4.len()) as int, start.len() as int)); } }
        let a4 = T4::deserialize(deserializer)?;
        proof { if T0::spec_faithful() && T1::spec_faithful() && T2::spec_faithful() && T3::spec_faithful() && T4::spec_faithful() && T5::spec_faithful() && T6::spec_faithful() && T7::spec_faithful() && T8::spec_faithful() && T9::spec_faithful() && T10::spec_faithful() && T11::spec_faithful() && T12::spec_faithful() && T13::spec_faithful() { T4::lemma_decode_bounded(u4); } }
        let ghost u5 = deserializer.unread();
        proof { if T0::spec_faithful() && T1::spec_faithful() && T2::spec_faithful() && T3::spec_faithful() && T4::spec_faithful() && T5::spec_faithful() && T6::spec_faithful() && T7::spec_faithful() && T8::spec_faithful() && T9::spec_faithful() && T10::spec_faithful() && T11::spec_faithful() && T12::spec_faithful() && T13::spec_faithful() { assert(u5 =~= start.subrange((start.len() - u5.len()) as int, start.len() as int)); } }
        let a5 = T5::deserialize(deserializer)?;
        proof { if T0::spec_faithful() && T1::spec_faithful() && T2::spec_faithful() && T3::spec_faithful() && T4::spec_faithful() && T5::spec_faithful() && T6::spec_faithful() && T7::spec_faithful() && T8::spec_faithful() && T9::spec_faithful() && T10::spec_faithful() && T11::spec_faithful() && T12::spec_faithful() && T13::spec_faithful() { T5::lemma_decode_bounded(u5); } }
        let ghost u6 = deserializer.unread();
        proof { if T0::spec_faithful() && T1::spec_faithful() && T2::spec_faithful() && T3::spec_faithful() && T4::spec_faithful() && T5::spec_faithful() && T6::spec_faithful() && T7::spec_faithful() && T8::spec_faithful() && T9::spec_faithful() && T10::spec_faithful() && T11::spec_faithful() && T12::spec_faithful() && T13::spec_faithful() { assert(u6 =~= start.subrange((start.len() - u6.len()) as int, start.len() as int)); } }
        let a6 = T6::deserialize(deserializer)?;
        proof { if T0::spec_faithful() && T1::spec_faithful() && T2::spec_faithful() && T3::spec_faithful() && T4::spec_faithful() && T5::spec_faithful() && T6::spec_faithful() && T7::spec_faithful() && T8::spec_faithful() && T9::spec_faithful() && T10::spec_faithful() && T11::spec_faithful() && T12::spec_faithful() && T13::spec_faithful() { T6::lemma_decode_bounded(u6); } }
        let ghost u7 = deserializer.unread();
        proof { if T0::spec_faithful() && T1::spec_faithful() && T2::spec_faithful() && T3::spec_faithful() && T4::spec_faithful() && T5::spec_faithful() && T6::spec_faithful() && T7::spec_faithful() && T8::spec_faithful() && T9::spec_faithful() && T10::spec_faithful() && T11::spec_faithful() && T12::spec_faithful() && T13::spec_faithful() { assert(u7 =~= start.subrange((start.len() - u7.len()) as int, start.len() as int)); } }
        let a7 = T7::deserialize(deserializer)?;
        proof { if T0::spec_faithful() && T1::spec_faithful() && T2::spec_faithful() && T3::spec_faithful() && T4::spec_faithful() && T5::spec_faithful() && T6::spec_faithful() && T7::spec_faithful() && T8::spec_faithful() && T9::spec_faithful() && T10::spec_faithful() && T11::spec_faithful() && T12::spec_faithful() && T13::spec_faithful() { T7::lemma_decode_bounded(u7); } }
        let ghost u8 = deserializer.unread();
        proof { if T0::spec_faithful() && T1::spec_faithful() && T2::spec_faithful() && T3::spec_faithful() && T4::spec_faithful() && T5::spec_faithful() && T6::spec_faithful() && T7::spec_faithful() && T8::spec_faithful() && T9::spec_faithful() && T10::spec_faithful() && T11::spec_faithful() && T12::spec_faithful() && T13::spec_faithful() { assert(u8 =~= start.subrange((start.len() - u8.len()) as int, start.len() as int)); } }
        let a8 = T8::deserialize(deserializer)?;
        proof { if T0::spec_faithful() && T1::spec_faithful() && T2::spec_faithful() && T3::spec_faithful() && T4::spec_faithful() && T5::spec_faithful() && T6::spec_faithful() && T7::spec_faithful() && T8::spec_faithful() && T9::spec_faithful() && T10::spec_faithful() && T11::spec_faithful() && T12::spec_faithful() && T13::spec_faithful() { T8::lemma_decode_bounded(u8); } }
        let ghost u9 = deserializer.unread();
        proof { if T0::spec_faithful() && T1::spec_faithful() && T2::spec_faithful() && T3::spec_faithful() && T4::spec_faithful() && T5::spec_faithful() && T6::spec_faithful() && T7::spec_faithful() && T8::spec_faithful() && T9::spec_faithful() && T10::spec_faithful() && T11::spec_faithful() && T12::spec_faithful() && T13::spec_faithful() { assert(u9 =~= start.subrange((start.len() - u9.len()) as int, start.len() as int)); } }
        let a9 = T9::deserialize(deserializer)?;
        proof { if T0::spec_faithful() && T1::spec_faithful() && T2::spec_faithful() && T3::spec_faithful() && T4::spec_faithful() && T5::spec_faithful() && T6::spec_faithful() && T7::spec_faithful() && T8::spec_faithful() && T9::spec_faithful() && T10::spec_faithful() && T11::spec_faithful() && T12::spec_faithful() && T13::spec_faithful() { T9::lemma_decode_bounded(u9); } }
        let ghost u10 = deserializer.unread();
        proof { if T0::spec_faithful() && T1::spec_faithful() && T2::spec_faithful() && T3::spec_faithful() && T4::spec_faithful() && T5::spec_faithful() && T6::spec_faithful() && T7::spec_faithful() && T8::spec_faithful() && T9::spec_faithful() && T10::spec_faithful() && T11::spec_faithful() && T12::spec_faithful() && T13::spec_faithful() { assert(u10 =~= start.subrange((start.len() - u10.len()) as int, start.len() as int)); } }
        let a10 = T10::deserialize(deserializer)?;
        proof { if T0::spec_faithful() && T1::spec_faithful() && T2::spec_faithful() && T3::spec_faithful() && T4::spec_faithful() && T5::spec_faithful() && T6::spec_faithful() && T7::spec_faithful() && T8::spec_faithful() && T9::spec_faithful() && T10::spec_faithful() && T11::spec_faithful() && T12::spec_faithful() && T13::spec_faithful() { T10::lemma_decode_bounded(u10); } }
        let ghost u11 = deserializer.unread();
        proof { if T0::spec_faithful() && T1::spec_faithful() && T2::spec_faithful() && T3::spec_faithful() && T4::spec_faithful() && T5::spec_faithful() && T6::spec_faithful() && T7::spec_faithful() && T8::spec_faithful() && T9::spec_faithful() && T10::spec_faithful() && T11::spec_faithful() && T12::spec_faithful() && T13::spec_faithful() { assert(u11 =~= start.subrange((start.len() - u11.len()) as int, start.len() as int)); } }
        let a11 = T11::deserialize(deserializer)?;
        proof { if T0::spec_faithful() && T1::spec_faithful() && T2::spec_faithful() && T3::spec_faithful() && T4::spec_faithful() && T5::spec_faithful() && T6::spec_faithful() && T7::spec_faithful() && T8::spec_faithful() && T9::spec_faithful() && T10::spec_faithful() && T11::spec_faithful() && T12::spec_faithful() && T13::spec_faithful() { T11::lemma_decode_bounded(u11); } }
        let ghost u12 = deserializer.unread();
        proof { if T0::spec_faithful() && T1::spec_faithful() && T2::spec_faithful() && T3::spec_faithful() && T4::spec_faithful() && T5::spec_faithful() && T6::spec_faithful() && T7::spec_faithful() && T8::spec_faithful() && T9::spec_faithful() && T10::spec_faithful() && T11::spec_faithful() && T12::spec_faithful() && T13::spec_faithful() { assert(u12 =~= start.subrange((start.len() - u12.len()) as int, start.len() as int)); } }
        let a12 = T12::deserialize(deserializer)?;
        proof { if T0::spec_faithful() && T1::spec_faithful() && T2::spec_faithful() && T3::spec_faithful() && T4::spec_faithful() && T5::spec_faithful() && T6::spec_faithful() && T7::spec_faithful() && T8::spec_faithful() && T9::spec_faithful() && T10::spec_faithful() && T11::spec_faithful() && T12::spec_faithful() && T13::spec_faithful() { T12::lemma_decode_bounded(u12); } }
        let ghost u13 = deserializer.unread();
        proof { if T0::spec_faithful() && T1::spec_faithful() && T2::spec_faithful() && T3::spec_faithful() && T4::spec_faithful() && T5::spec_faithful() && T6::spec_faithful() && T7::spec_faithful() && T8::spec_faithful() && T9::spec_faithful() && T10::spec_faithful() && T11::spec_faithful() && T12::spec_faithful() && T13::spec_faithful() { assert(u13 =~= start.subrange((start.len() - u13.len()) as int, start.len() as int)); } }
        let a13 = T13::deserialize(deserializer)?;
        proof { if T0::spec_faithful() && T1::spec_faithful() && T2::spec_faithful() && T3::spec_faithful() && T4::spec_faithful() && T5::spec_faithful() && T6::spec_faithful() && T7::spec_faithful() && T8::spec_faithful() && T9::spec_faithful() && T10::spec_faithful() && T11::spec_faithful() && T12::spec_faithful() && T13::spec_faithful() { T13::lemma_decode_bounded(u13); } }
        proof { if T0::spec_faithful() && T1::spec_faithful() && T2::spec_faithful() && T3::spec_faithful() && T4::spec_faithful() && T5::spec_faithful() && T6::spec_faithful() && T7::spec_faithful() && T8::spec_faithful() && T9::spec_faithful() && T10::spec_faithful() && T11::spec_faithful() && T12::spec_faithful() && T13::spec_faithful() { assert(deserializer.unread() =~= start.subrange((start.len() - deserializer.unread().len()) as int, start.len() as int)); } }
        Ok((a0, a1, a2, a3, a4, a5, a6, a7, a8, a9, a10, a11, a12, a13))
    }

    #[verifier::rlimit(100)]
    #[verifier::spinoff_prover]
    fn deserialize_in_place<R: ReadUninit>(&mut self, deserializer: &mut Deserializer<R>) -> (r: Result<()>) {
        let ghost start = deserializer.unread();
        let ghost u0 = deserializer.unread();
        proof { if T0::spec_faithful() && T1::spec_faithful() && T2::spec_faithful() && T3::spec_faithful() && T4::spec_faithful() && T5::spec_faithful() && T6::spec_faithful() && T7::spec_faithful() && T8::spec_faithful() && T9::spec_faithful() && T10::spec_faithful() && T11::spec_faithful() && T12::spec_faithful() && T13::spec_faithful() { assert(u0 =~= start.subrange((start.len() - u0.len()) as int, start.len() as int)); } }
        self.0.deserialize_in_place(deserializer)?;
        proof { if T0::spec_faithful() && T1::spec_faithful() && T2::spec_faithful() && T3::spec_faithful() && T4::spec_faithful() && T5::spec_faithful() && T6::spec_faithful() && T7::spec_faithful() && T8::spec_faithful() && T9::spec_faithful() && T10::spec_faithful() && T11::spec_faithful() && T12::spec_faithful() && T13::spec_faithful() { T0::lemma_decode_bounded(u0); } }
        let ghost u1 = deserializer.unread();
        proof { if T0::spec_faithful() && T1::spec_faithful() && T2::spec_faithful() && T3::spec_faithful() && T4::spec_faithful() && T5::spec_faithful() && T6::spec_faithful() && T7::spec_faithful() && T8::spec_faithful() && T9::spec_faithful() && T10::spec_faithful() && T11::spec_faithful() && T12::spec_faithful() && T13::spec_faithful() { assert(u1 =~= start.subrange((start.len() - u1.len()) as int, start.len() as int)); } }
        self.1.deserialize_in_place(deserializer)?;
        proof { if T0::spec_faithful() && T1::spec_faithful() && T2::spec_faithful() && T3::spec_faithful() && T4::spec_faithful() && T5::spec_faithful() && T6::spec_faithful() && T7::spec_faithful() && T8::spec_faithful() && T9::spec_faithful() && T10::spec_faithful() && T11::spec_faithful() && T12::spec_faithful() && T13::spec_faithful() { T1::lemma_decode_bounded(u1); } }
        let ghost u2 = deserializer.unread();
        proof { if T0::spec_faithful() && T1::spec_faithful() && T2::spec_faithful() && T3::spec_faithful() && T4::spec_faithful() && T5::spec_faithful() && T6::spec_faithful() && T7::spec_faithful() && T8::spec_faithful() && T9::spec_faithful() && T10::spec_faithful() && T11::spec_faithful() && T12::spec_faithful() && T13::spec_faithful() { assert(u2 =~= start.subrange((start.len() - u2.len()) as int, start.len() as int)); } }
        self.2.deserialize_in_place(deserializer)?;
        proof { if T0::spec_faithful() && T1::spec_faithful() && T2::spec_faithful() && T3::spec_faithful() && T4::spec_faithful() && T5::spec_faithful() && T6::spec_faithful() && T7::spec_faithful() && T8::spec_faithful() && T9::spec_faithful() && T10::spec_faithful() && T11::spec_faithful() && T12::spec_faithful() && T13::spec_faithful() { T2::lemma_decode_bounded(u2); } }
        let ghost u3 = deserializer.unread();
        proof { if T0::spec_faithful() && T1::spec_faithful() && T2::spec_faithful() && T3::spec_faithful() && T4::spec_faithful() && T5::spec_faithful() && T6::spec_faithful() && T7::spec_faithful() && T8::spec_faithful() && T9::spec_faithful() && T10::spec_faithful() && T11::spec_faithful() && T12::spec_faithful() && T13::spec_faithful() { assert(u3 =~= start.subrange((start.len() - u3.len()) as int, start.len() as int)); } }
        self.3.deserialize_in_place(deserializer)?;
        proof { if T0::spec_faithful() && T1::spec_faithful() && T2::spec_faithful() && T3::spec_faithful() && T4::spec_faithful() && T5::spec_faithful() && T6::spec_faithful() && T7::spec_faithful() && T8::spec_faithful() && T9::spec_faithful() && T10::spec_faithful() && T11::spec_faithful() && T12::spec_faithful() && T13::spec_faithful() { T3::lemma_decode_bounded(u3); } }
        let ghost u4 = deserializer.unread();
        proof { if T0::spec_faithful() && T1::spec_faithful() && T2::spec_faithful() && T3::spec_faithful() && T4::spec_faithful() && T5::spec_faithful() && T6::spec_faithful() && T7::spec_faithful() && T8::spec_faithful() && T9::spec_faithful() && T10::spec_faithful() && T11::spec_faithful() && T12::spec_faithful() && T13::spec_faithful() { assert(u4 =~= start.subrange((start.len() - u4.len()) as int, start.len() as int)); } }
        self.4.deserialize_in_place(deserializer)?;
        proof { if T0::spec_faithful() && T1::spec_faithful() && T2::spec_faithful() && T3::spec_faithful() && T4::spec_faithful() && T5::spec_faithful() && T6::spec_faithful() && T7::spec_faithful() && T8::spec_faithful() && T9::spec_faithful() && T10::spec_faithful() && T11::spec_faithful() && T12::spec_faithful() && T13::spec_faithful() { T4::lemma_decode_bounded(u4); } }
        let ghost u5 = deserializer.unread();
        proof { if T0::spec_faithful() && T1::spec_faithful() && T2::spec_faithful() && T3::spec_faithful() && T4::spec_faithful() && T5::spec_faithful() && T6::spec_faithful() && T7::spec_faithful() && T8::spec_faithful() && T9::spec_faithful() && T10::spec_faithful() && T11::spec_faithful() && T12::spec_faithful() && T13::spec_faithful() { assert(u5 =~= start.subrange((start.len() - u5.len()) as int, start.len() as int)); } }
        self.5.deserialize_in_place(deserializer)?;
        proof { if T0::spec_faithful() && T1::spec_faithful() && T2::spec_faithful() && T3::spec_faithful() && T4::spec_faithful() && T5::spec_faithful() && T6::spec_faithful() && T7::spec_faithful() && T8::spec_faithful() && T9::spec_faithful() && T10::spec_faithful() && T11::spec_faithful() && T12::spec_faithful() && T13::spec_faithful() { T5::lemma_decode_bounded(u5); } }
        let ghost u6 = deserializer.unread();
        proof { if T0::spec_faithful() && T1::spec_faithful() && T2::spec_faithful() && T3::spec_faithful() && T4::spec_faithful() && T5::spec_faithful() && T6::spec_faithful() && T7::spec_faithful() && T8::spec_faithful() && T9::spec_faithful() && T10::spec_faithful() && T11::spec_faithful() && T12::spec_faithful() && T13::spec_faithful() { assert(u6 =~= start.subrange((start.len() - u6.len()) as int, start.len() as int)); } }
        self.6.deserialize_in_place(deserializer)?;
        proof { if T0::spec_faithful() && T1::spec_faithful() && T2::spec_faithful() && T3::spec_faithful() && T4::spec_faithful() && T5::spec_faithful() && T6::spec_faithful() && T7::spec_faithful() && T8::spec_faithful() && T9::spec_faithful() && T10::spec_faithful() && T11::spec_faithful() && T12::spec_faithful() && T13::spec_faithful() { T6::lemma_decode_bounded(u6); } }
        let ghost u7 = deserializer.unread();
        proof { if T0::spec_faithful() && T1::spec_faithful() && T2::spec_faithful() && T3::spec_faithful() && T4::spec_faithful() && T5::spec_faithful() && T6::spec_faithful() && T7::spec_faithful() && T8::spec_faithful() && T9::spec_faithful() && T10::spec_faithful() && T11::spec_faithful() && T12::spec_faithful() && T13::spec_faithful() { assert(u7 =~= start.subrange((start.len() - u7.len()) as int, start.len() as int)); } }
        self.7.deserialize_in_place(deserializer)?;
        proof { if T0::spec_faithful() && T1::spec_faithful() && T2::spec_faithful() && T3::spec_faithful() && T4::spec_faithful() && T5::spec_faithful() && T6::spec_faithful() && T7::spec_faithful() && T8::spec_faithful() && T9::spec_faithful() && T10::spec_faithful() && T11::spec_faithful() && T12::spec_faithful() && T13::spec_faithful() { T7::lemma_decode_bounded(u7); } }
        let ghost u8 = deserializer.unread();
        proof { if T0::spec_faithful() && T1::spec_faithful() && T2::spec_faithful() && T3::spec_faithful() && T4::spec_faithful() && T5::spec_faithful() && T6::spec_faithful() && T7::spec_faithful() && T8::spec_faithful() && T9::spec_faithful() && T10::spec_faithful() && T11::spec_faithful() && T12::spec_faithful() && T13::spec_faithful() { assert(u8 =~= start.subrange((start.len() - u8.len()) as int, start.len() as int)); } }
        self.8.deserialize_in_place(deserializer)?;
        proof { if T0::spec_faithful() && T1::spec_faithful() && T2::spec_faithful() && T3::spec_faithful() && T4::spec_faithful() && T5::spec_faithful() && T6::spec_faithful() && T7::spec_faithful() && T8::spec_faithful() && T9::spec_faithful() && T10::spec_faithful() && T11::spec_faithful() && T12::spec_faithful() && T13::spec_faithful() { T8::lemma_decode_bounded(u8); } }
        let ghost u9 = deserializer.unread();
        proof { if T0::spec_faithful() && T1::spec_faithful() && T2::spec_faithful() && T3::spec_faithful() && T4::spec_faithful() && T5::spec_faithful() && T6::spec_faithful() && T7::spec_faithful() && T8::spec_faithful() && T9::spec_faithful() && T10::spec_faithful() && T11::spec_faithful() && T12::spec_faithful() && T13::spec_faithful() { assert(u9 =~= start.subrange((start.len() - u9.len()) as int, start.len() as int)); } }
        self.9.deserialize_in_place(deserializer)?;
        proof { if T0::spec_faithful() && T1::spec_faithful() && T2::spec_faithful() && T3::spec_faithful() && T4::spec_faithful() && T5::spec_faithful() && T6::spec_faithful() && T7::spec_faithful() && T8::spec_faithful() && T9::spec_faithful() && T10::spec_faithful() && T11::spec_faithful() && T12::spec_faithful() && T13::spec_faithful() { T9::lemma_decode_bounded(u9); } }
        let ghost u10 = deserializer.unread();
        proof { if T0::spec_faithful() && T1::spec_faithful() && T2::spec_faithful() && T3::spec_faithful() && T4::spec_faithful() && T5::spec_faithful() && T6::spec_faithful() && T7::spec_faithful() && T8::spec_faithful() && T9::spec_faithful() && T10::spec_faithful() && T11::spec_faithful() && T12::spec_faithful() && T13::spec_faithful() { assert(u10 =~= start.subrange((start.len() - u10.len()) as int, start.len() as int)); } }
        self.10.deserialize_in_place(deserializer)?;
        proof { if T0::spec_faithful() && T1::spec_faithful() && T2::spec_faithful() && T3::spec_faithful() && T4::spec_faithful() && T5::spec_faithful() && T6::spec_faithful() && T7::spec_faithful() && T8::spec_faithful() && T9::spec_faithful() && T10::spec_faithful() && T11::spec_faithful() && T12::spec_faithful() && T13::spec_faithful() { T10::lemma_decode_bounded(u10); } }
        let ghost u11 = deserializer.unread();
        proof { if T0::spec_faithful() && T1::spec_faithful() && T2::spec_faithful() && T3::spec_faithful() && T4::spec_faithful() && T5::spec_faithful() && T6::spec_faithful() && T7::spec_faithful() && T8::spec_faithful() && T9::spec_faithful() && T10::spec_faithful() && T11::spec_faithful() && T12::spec_faithful() && T13::spec_faithful() { assert(u11 =~= start.subrange((start.len() - u11.len()) as int, start.len() as int)); } }
        self.11.deserialize_in_place(deserializer)?;
        proof { if T0::spec_faithful() && T1::spec_faithful() && T2::spec_faithful() && T3::spec_faithful() && T4::spec_faithful() && T5::spec_faithful() && T6::spec_faithful() && T7::spec_faithful() && T8::spec_faithful() && T9::spec_faithful() && T10::spec_faithful() && T11::spec_faithful() && T12::spec_faithful() && T13::spec_faithful() { T11::lemma_decode_bounded(u11); } }
        let ghost u12 = deserializer.unread();
        proof { if T0::spec_faithful() && T1::spec_faithful() && T2::spec_faithful() && T3::spec_faithful() && T4::spec_faithful() && T5::spec_faithful() && T6::spec_faithful() && T7::spec_faithful() && T8::spec_faithful() && T9::spec_faithful() && T10::spec_faithful() && T11::spec_faithful() && T12::spec_faithful() && T13::spec_faithful() { assert(u12 =~= start.subrange((start.len() - u12.len()) as int, start.len() as int)); } }
        self.12.deserialize_in_place(deserializer)?;
        proof { if T0::spec_faithful() && T1::spec_faithful() && T2::spec_faithful() && T3::spec_faithful() && T4::spec_faithful() && T5::spec_faithful() && T6::spec_faithful() && T7::spec_faithful() && T8::spec_faithful() && T9::spec_faithful() && T10::spec_faithful() && T11::spec_faithful() && T12::spec_faithful() && T13::spec_faithful() { T12::lemma_decode_bounded(u12); } }
        let ghost u13 = deserializer.unread();
        proof { if T0::spec_faithful() && T1::spec_faithful() && T2::spec_faithful() && T3::spec_faithful() && T4::spec_faithful() && T5::spec_faithful() && T6::spec_faithful() && T7::spec_faithful() && T8::spec_faithful() && T9::spec_faithful() && T10::spec_faithful() && T11::spec_faithful() && T12::spec_faithful() && T13::spec_faithful() { assert(u13 =~= start.subrange((start.len() - u13.len()) as int, start.len() as int)); } }
        self.13.deserialize_in_place(deserializer)?;
        proof { if T0::spec_faithful() && T1::spec_faithful() && T2::spec_faithful() && T3::spec_faithful() && T4::spec_faithful() && T5::spec_faithful() && T6::spec_faithful() && T7::spec_faithful() && T8::spec_faithful() && T9::spec_faithful() && T10::spec_faithful() && T11::spec_faithful() && T12::spec_faithful() && T13::spec_faithful() { T13::lemma_decode_bounded(u13); } }
        proof { if T0::spec_faithful() && T1::spec_faithful() && T2::spec_faithful() && T3::spec_faithful() && T4::spec_faithful() && T5::spec_faithful() && T6::spec_faithful() && T7::spec_faithful() && T8::spec_faithful() && T9::spec_faithful() && T10::spec_faithful() && T11::spec_faithful() && T12::spec_faithful() && T13::spec_faithful() { assert(deserializer.unread() =~= start.subrange((start.len() - deserializer.unread().len()) as int, start.len() as int)); } }
        Ok(())
    }
}

impl<T0: WireFormat, T1: WireFormat, T2: WireFormat, T3: WireFormat, T4: WireFormat, T5: WireFormat, T6: WireFormat, T7: WireFormat, T8: WireFormat, T9: WireFormat, T10: WireFormat, T11: WireFormat, T12: WireFormat, T13: WireFormat, T14: WireFormat> WireFormat for (T0, T1, T2, T3, T4, T5, T6, T7, T8, T9, T10, T11, T12, T13, T14) {
    type Model = (T0::Model, T1::Model, T2::Model, T3::Model, T4::Model, T5::Model, T6::Model, T7::Model, T8::Model, T9::Model, T10::Model, T11::Model, T12::Model, T13::Model, T14::Model);

    open spec fn model(&self) -> (T0::Model, T1::Model, T2::Model, T3::Model, T4::Model, T5::Model, T6::Model, T7::Model, T8::Model, T9::Model, T10::Model, T11::Model, T12::Model, T13::Model, T14::Model) {
        (self.0.model(), self.1.model(), self.2.model(), self.3.model(), self.4.model(), self.5.model(), self.6.model(), self.7.model(), self.8.model(), self.9.model(), self.10.model(), self.11.model(), self.12.model(), self.13.model(), self.14.model())
    }

    open spec fn spec_encodes(m: (T0::Model, T1::Model, T2::Model, T3::Model, T4::Model, T5::Model, T6::Model, T7::Model, T8::Model, T9::Model, T10::Model, T11::Model, T12::Model, T13::Model, T14::Model), bytes: Seq<u8>) -> bool {
        exists|k1: int| 0 <= k1 <= bytes.len() && #[trigger] T0::spec_encodes(m.0, bytes.subrange(0, k1)) && (exists|k2: int| k1 <= k2 <= bytes.len() && #[trigger] T1::spec_encodes(m.1, bytes.subrange(k1, k2)) && (exists|k3: int| k2 <= k3 <= bytes.len() && #[trigger] T2::spec_encodes(m.2, bytes.subrange(k2, k3)) && (exists|k4: int| k3 <= k4 <= bytes.len() && #[trigger] T3::spec_encodes(m.3, bytes.subrange(k3, k4)) && (exists|k5: int| k4 <= k5 <= bytes.len() && #[trigger] T4::spec_encodes(m.4, bytes.subrange(k4, k5)) && (exists|k6: int| k5 <= k6 <= bytes.len() && #[trigger] T5::spec_encodes(m.5, bytes.subrange(k5, k6)) && (exists|k7: int| k6 <= k7 <= bytes.len() && #[trigger] T6::spec_encodes(m.6, bytes.subrange(k6, k7)) && (exists|k8: int| k7 <= k8 <= bytes.len() && #[trigger] T7::spec_encodes(m.7, bytes.subrange(k7, k8)) && (exists|k9: int| k8 <= k9 <= bytes.len() && #[trigger] T8::spec_encodes(m.8, bytes.subrange(k8, k9)) && (exists|k10: int| k9 <= k10 <= bytes.len() && #[trigger] T9::spec_encodes(m.9, bytes.subrange(k9, k10)) && (exists|k11: int| k10 <= k11 <= bytes.len() && #[trigger] T10::spec_encodes(m.10, bytes.subrange(k10, k11)) && (exists|k12: int| k11 <= k12 <= bytes.len() && #[trigger] T11::spec_encodes(m.11, bytes.subrange(k11, k12)) && (exists|k13: int| k12 <= k13 <= bytes.len() && #[trigger] T12::spec_encodes(m.12, bytes.subrange(k12, k13)) && (exists|k14: int| k13 <= k14 <= bytes.len() && #[trigger] T13::spec_encodes(m.13, bytes.subrange(k13, k14)) && (T14::spec_encodes(m.14, bytes.subrange(k14, bytes.len() as int))))))))))))))))
    }

    open spec fn spec_encodable(m: (T0::Model, T1::Model, T2::Model, T3::Model, T4::Model, T5::Model, T6::Model, T7::Model, T8::Model, T9::Model, T10::Model, T11::Model, T12::Model, T13::Model, T14::Model)) -> bool {
        T0::spec_encodable(m.0) && T1::spec_encodable(m.1) && T2::spec_encodable(m.2) && T3::spec_encodable(m.3) && T4::spec_encodable(m.4) && T5::spec_encodable(m.5) && T6::spec_encodable(m.6) && T7::spec_encodable(m.7) && T8::spec_encodable(m.8) && T9::spec_encodable(m.9) && T10::spec_encodable(m.10) && T11::spec_encodable(m.11) && T12::spec_encodable(m.12) && T13::spec_encodable(m.13) && T14::spec_encodable(m.14)
    }

    open spec fn spec_decode(bytes: Seq<u8>) -> Option<((T0::Model, T1::Model, T2::Model, T3::Model, T4::Model, T5::Model, T6::Model, T7::Model, T8::Model, T9::Model, T10::Model, T11::Model, T12::Model, T13::Model, T14::Model), nat)> {
        match T0::spec_decode(bytes.subrange((0) as int, bytes.len() as int)) { None => None, Some((a0, n0)) => if 0 + n0 > bytes.len() { None } else { match T1::spec_decode(bytes.subrange((0 + n0) as int, bytes.len() as int)) { None => None, Some((a1, n1)) => if 0 + n0 + n1 > bytes.len() { None } else { match T2::spec_decode(bytes.subrange((0 + n0 + n1) as int, bytes.len() as int)) { None => None, Some((a2, n2)) => if 0 + n0 + n1 + n2 > bytes.len() { None } else { match T3::spec_decode(bytes.subrange((0 + n0 + n1 + n2) as int, bytes.len() as int)) { None => None, Some((a3, n3)) => if 0 + n0 + n1 + n2 + n3 > bytes.len() { None } else { match T4::spec_decode(bytes.subrange((0 + n0 + n1 + n2 + n3) as int, bytes.len() as int)) { None => None, Some((a4, n4)) => if 0 + n0 + n1 + n2 + n3 + n4 > bytes.len() { None } else { match T5::spec_decode(bytes.subrange((0 + n0 + n1 + n2 + n3 + n4) as int, bytes.len() as int)) { None => None, Some((a5, n5)) => if 0 + n0 + n1 + n2 + n3 + n4 + n5 > bytes.len() { None } else { match T6::spec_decode(bytes.subrange((0 + n0 + n1 + n2 + n3 + n4 + n5) as int, bytes.len() as int)) { None => None, Some((a6, n6)) => if 0 + n0 + n1 + n2 + n3 + n4 + n5 + n6 > bytes.len() { None } else { match T7::spec_decode(bytes.subrange((0 + n0 + n1 + n2 + n3 + n4 + n5 + n6) as int, bytes.len() as int)) { None => None, Some((a7, n7)) => if 0 + n0 + n1 + n2 + n3 + n4 + n5 + n6 + n7 > bytes.len() { None } else { match T8::spec_decode(bytes.subrange((0 + n0 + n1 + n2 + n3 + n4 + n5 + n6 + n7) as int, bytes.len() as int)) { None => None, Some((a8, n8)) => if 0 + n0 + n1 + n2 + n3 + n4 + n5 + n6 + n7 + n8 > bytes.len() { None } else { match T9::spec_decode(bytes.subrange((0 + n0 + n1 + n2 + n3 + n4 + n5 + n6 + n7 + n8) as int, bytes.len() as int)) { None => None, Some((a9, n9)) => if 0 + n0 + n1 + n2 + n3 + n4 + n5 + n6 + n7 + n8 + n9 > bytes.len() { None } else { match T10::spec_decode(bytes.subrange((0 + n0 + n1 + n2 + n3 + n4 + n5 + n6 + n7 + n8 + n9) as int, bytes.len() as int)) { None => None, Some((a10, n10)) => if 0 + n0 + n1 + n2 + n3 + n4 + n5 + n6 + n7 + n8 + n9 + n10 > bytes.len() { None } else { match T11::spec_decode(bytes.subrange((0 + n0 + n1 + n2 + n3 + n4 + n5 + n6 + n7 + n8 + n9 + n10) as int, bytes.len() as int)) { None => None, Some((a11, n11)) => if 0 + n0 + n1 + n2 + n3 + n4 + n5 + n6 + n7 + n8 + n9 + n10 + n11 > bytes.len() { None } else { match T12::spec_decode(bytes.subrange((0 + n0 + n1 + n2 + n3 + n4 + n5 + n6 + n7 + n8 + n9 + n10 + n11) as int, bytes.len() as int)) { None => None, Some((a12, n12)) => if 0 + n0 + n1 + n2 + n3 + n4 + n5 + n6 + n7 + n8 + n9 + n10 + n11 + n12 > bytes.len() { None } else { match T13::spec_decode(bytes.subrange((0 + n0 + n1 + n2 + n3 + n4 + n5 + n6 + n7 + n8 + n9 + n10 + n11 + n12) as int, bytes.len() as int)) { None => None, Some((a13, n13)) => if 0 + n0 + n1 + n2 + n3 + n4 + n5 + n6 + n7 + n8 + n9 + n10 + n11 + n12 + n13 > bytes.len() { None } else { match T14::spec_decode(bytes.subrange((0 + n0 + n1 + n2 + n3 + n4 + n5 + n6 + n7 + n8 + n9 + n10 + n11 + n12 + n13) as int, bytes.len() as int)) { None => None, Some((a14, n14)) => if 0 + n0 + n1 + n2 + n3 + n4 + n5 + n6 + n7 + n8 + n9 + n10 + n11 + n12 + n13 + n14 > bytes.len() { None } else { Some(((a0, a1, a2, a3, a4, a5, a6, a7, a8, a9, a10, a11, a12, a13, a14), 0 + n0 + n1 + n2 + n3 + n4 + n5 + n6 + n7 + n8 + n9 + n10 + n11 + n12 + n13 + n14 as nat)) } } } } } } } } } } } } } } } } } } } } } } } } } } } } } }
    }

    open spec fn spec_faithful() -> bool {
        T0::spec_faithful() && T1::spec_faithful() && T2::spec_faithful() && T3::spec_faithful() && T4::spec_faithful() && T5::spec_faithful() && T6::spec_faithful() && T7::spec_faithful() && T8::spec_faithful() && T9::spec_faithful() && T10::spec_faithful() && T11::spec_faithful() && T12::spec_faithful() && T13::spec_faithful() && T14::spec_faithful()
    }

    #[verifier::rlimit(100)]
    #[verifier::spinoff_prover]
    proof fn lemma_round_trip(m: (T0::Model, T1::Model, T2::Model, T3::Model, T4::Model, T5::Model, T6::Model, T7::Model, T8::Model, T9::Model, T10::Model, T11::Model, T12::Model, T13::Model, T14::Model), bytes: Seq<u8>, rest: Seq<u8>) {
        let k1 = choose|k1: int| 0 <= k1 <= bytes.len() && #[trigger] T0::spec_encodes(m.0, bytes.subrange(0, k1)) && (exists|k2: int| k1 <= k2 <= bytes.len() && #[trigger] T1::spec_encodes(m.1, bytes.subrange(k1, k2)) && (exists|k3: int| k2 <= k3 <= bytes.len() && #[trigger] T2::spec_encodes(m.2, bytes.subrange(k2, k3)) && (exists|k4: int| k3 <= k4 <= bytes.len() && #[trigger] T3::spec_encodes(m.3, bytes.subrange(k3, k4)) && (exists|k5: int| k4 <= k5 <= bytes.len() && #[trigger] T4::spec_encodes(m.4, bytes.subrange(k4, k5)) && (exists|k6: int| k5 <= k6 <= bytes.len() && #[trigger] T5::spec_encodes(m.5, bytes.subrange(k5, k6)) && (exists|k7: int| k6 <= k7 <= bytes.len() && #[trigger] T6::spec_encodes(m.6, bytes.subrange(k6, k7)) && (exists|k8: int| k7 <= k8 <= bytes.len() && #[trigger] T7::spec_encodes(m.7, bytes.subrange(k7, k8)) && (exists|k9: int| k8 <= k9 <= bytes.len() && #[trigger] T8::spec_encodes(m.8, bytes.subrange(k8, k9)) && (exists|k10: int| k9 <= k10 <= bytes.len() && #[trigger] T9::spec_encodes(m.9, bytes.subrange(k9, k10)) && (exists|k11: int| k10 <= k11 <= bytes.len() && #[trigger] T10::spec_encodes(m.10, bytes.subrange(k10, k11)) && (exists|k12: int| k11 <= k12 <= bytes.len() && #[trigger] T11::spec_encodes(m.11, bytes.subrange(k11, k12)) && (exists|k13: int| k12 <= k13 <= bytes.len() && #[trigger] T12::spec_encodes(m.12, bytes.subrange(k12, k13)) && (exists|k14: int| k13 <= k14 <= bytes.len() && #[trigger] T13::spec_encodes(m.13, bytes.subrange(k13, k14)) && (T14::spec_encodes(m.14, bytes.subrange(k14, bytes.len() as int))))))))))))))));
        let k2 = choose|k2: int| k1 <= k2 <= bytes.len() && #[trigger] T1::spec_encodes(m.1, bytes.subrange(k1, k2)) && (exists|k3: int| k2 <= k3 <= bytes.len() && #[trigger] T2::spec_encodes(m.2, bytes.subrange(k2, k3)) && (exists|k4: int| k3 <= k4 <= bytes.len() && #[trigger] T3::spec_encodes(m.3, bytes.subrange(k3, k4)) && (exists|k5: int| k4 <= k5 <= bytes.len() && #[trigger] T4::spec_encodes(m.4, bytes.subrange(k4, k5)) && (exists|k6: int| k5 <= k6 <= bytes.len() && #[trigger] T5::spec_encodes(m.5, bytes.subrange(k5, k6)) && (exists|k7: int| k6 <= k7 <= bytes.len() && #[trigger] T6::spec_encodes(m.6, bytes.subrange(k6, k7)) && (exists|k8: int| k7 <= k8 <= bytes.len() && #[trigger] T7::spec_encodes(m.7, bytes.subrange(k7, k8)) && (exists|k9: int| k8 <= k9 <= bytes.len() && #[trigger] T8::spec_encodes(m.8, bytes.subrange(k8, k9)) && (exists|k10: int| k9 <= k10 <= bytes.len() && #[trigger] T9::spec_encodes(m.9, bytes.subrange(k9, k10)) && (exists|k11: int| k10 <= k11 <= bytes.len() && #[trigger] T10::spec_encodes(m.10, bytes.subrange(k10, k11)) && (exists|k12: int| k11 <= k12 <= bytes.len() && #[trigger] T11::spec_encodes(m.11, bytes.subrange(k11, k12)) && (exists|k13: int| k12 <= k13 <= bytes.len() && #[trigger] T12::spec_encodes(m.12, bytes.subrange(k12, k13)) && (exists|k14: int| k13 <= k14 <= bytes.len() && #[trigger] T13::spec_encodes(m.13, bytes.subrange(k13, k14)) && (T14::spec_encodes(m.14, bytes.subrange(k14, bytes.len() as int)))))))))))))));
        let k3 = choose|k3: int| k2 <= k3 <= bytes.len() && #[trigger] T2::spec_encodes(m.2, bytes.subrange(k2, k3)) && (exists|k4: int| k3 <= k4 <= bytes.len() && #[trigger] T3::spec_encodes(m.3, bytes.subrange(k3, k4)) && (exists|k5: int| k4 <= k5 <= bytes.len() && #[trigger] T4::spec_encodes(m.4, bytes.subrange(k4, k5)) && (exists|k6: int| k5 <= k6 <= bytes.len() && #[trigger] T5::spec_encodes(m.5, bytes.subrange(k5, k6)) && (exists|k7: int| k6 <= k7 <= bytes.len() && #[trigger] T6::spec_encodes(m.6, bytes.subrange(k6, k7)) && (exists|k8: int| k7 <= k8 <= bytes.len() && #[trigger] T7::spec_encodes(m.7, bytes.subrange(k7, k8)) && (exists|k9: int| k8 <= k9 <= bytes.len() && #[trigger] T8::spec_encodes(m.8, bytes.subrange(k8, k9)) && (exists|k10: int| k9 <= k10 <= bytes.len() && #[trigger] T9::spec_encodes(m.9, bytes.subrange(k9, k10)) && (exists|k11: int| k10 <= k11 <= bytes.len() && #[trigger] T10::spec_encodes(m.10, bytes.subrange(k10, k11)) && (exists|k12: int| k11 <= k12 <= bytes.len() && #[trigger] T11::spec_encodes(m.11, bytes.subrange(k11, k12)) && (exists|k13: int| k12 <= k13 <= bytes.len() && #[trigger] T12::spec_encodes(m.12, bytes.subrange(k12, k13)) && (exists|k14: int| k13 <= k14 <= bytes.len() && #[trigger] T13::spec_encodes(m.13, bytes.subrange(k13, k14)) && (T14::spec_encodes(m.14, bytes.subrange(k14, bytes.len() as int))))))))))))));
        let k4 = choose|k4: int| k3 <= k4 <= bytes.len() && #[trigger] T3::spec_encodes(m.3, bytes.subrange(k3, k4)) && (exists|k5: int| k4 <= k5 <= bytes.len() && #[trigger] T4::spec_encodes(m.4, bytes.subrange(k4, k5)) && (exists|k6: int| k5 <= k6 <= bytes.len() && #[trigger] T5::spec_encodes(m.5, bytes.subrange(k5, k6)) && (exists|k7: int| k6 <= k7 <= bytes.len() && #[trigger] T6::spec_encodes(m.6, bytes.subrange(k6, k7)) && (exists|k8: int| k7 <= k8 <= bytes.len() && #[trigger] T7::spec_encodes(m.7, bytes.subrange(k7, k8)) && (exists|k9: int| k8 <= k9 <= bytes.len() && #[trigger] T8::spec_encodes(m.8, bytes.subrange(k8, k9)) && (exists|k10: int| k9 <= k10 <= bytes.len() && #[trigger] T9::spec_encodes(m.9, bytes.subrange(k9, k10)) && (exists|k11: int| k10 <= k11 <= bytes.len() && #[trigger] T10::spec_encodes(m.10, bytes.subrange(k10, k11)) && (exists|k12: int| k11 <= k12 <= bytes.len() && #[trigger] T11::spec_encodes(m.11, bytes.subrange(k11, k12)) && (exists|k13: int| k12 <= k13 <= bytes.len() && #[trigger] T12::spec_encodes(m.12, bytes.subrange(k12, k13)) && (exists|k14: int| k13 <= k14 <= bytes.len() && #[trigger] T13::spec_encodes(m.13, bytes.subrange(k13, k14)) && (T14::spec_encodes(m.14, bytes.subrange(k14, bytes.len() as int)))))))))))));
        let k5 = choose|k5: int| k4 <= k5 <= bytes.len() && #[trigger] T4::spec_encodes(m.4, bytes.subrange(k4, k5)) && (exists|k6: int| k5 <= k6 <= bytes.len() && #[trigger] T5::spec_encodes(m.5, bytes.subrange(k5, k6)) && (exists|k7: int| k6 <= k7 <= bytes.len() && #[trigger] T6::spec_encodes(m.6, bytes.subrange(k6, k7)) && (exists|k8: int| k7 <= k8 <= bytes.len() && #[trigger] T7::spec_encodes(m.7, bytes.subrange(k7, k8)) && (exists|k9: int| k8 <= k9 <= bytes.len() && #[trigger] T8::spec_encodes(m.8, bytes.subrange(k8, k9)) && (exists|k10: int| k9 <= k10 <= bytes.len() && #[trigger] T9::spec_encodes(m.9, bytes.subrange(k9, k10)) && (exists|k11: int| k10 <= k11 <= bytes.len() && #[trigger] T10::spec_encodes(m.10, bytes.subrange(k10, k11)) && (exists|k12: int| k11 <= k12 <= bytes.len() && #[trigger] T11::spec_encodes(m.11, bytes.subrange(k11, k12)) && (exists|k13: int| k12 <= k13 <= bytes.len() && #[trigger] T12::spec_encodes(m.12, bytes.subrange(k12, k13)) && (exists|k14: int| k13 <= k14 <= bytes.len() && #[trigger] T13::spec_encodes(m.13, bytes.subrange(k13, k14)) && (T14::spec_encodes(m.14, bytes.subrange(k14, bytes.len() as int))))))))))));
        let k6 = choose|k6: int| k5 <= k6 <= bytes.len() && #[trigger] T5::spec_encodes(m.5, bytes.subrange(k5, k6)) && (exists|k7: int| k6 <= k7 <= bytes.len() && #[trigger] T6::spec_encodes(m.6, bytes.subrange(k6, k7)) && (exists|k8: int| k7 <= k8 <= bytes.len() && #[trigger] T7::spec_encodes(m.7, bytes.subrange(k7, k8)) && (exists|k9: int| k8 <= k9 <= bytes.len() && #[trigger] T8::spec_encodes(m.8, bytes.subrange(k8, k9)) && (exists|k10: int| k9 <= k10 <= bytes.len() && #[trigger] T9::spec_encodes(m.9, bytes.subrange(k9, k10)) && (exists|k11: int| k10 <= k11 <= bytes.len() && #[trigger] T10::spec_encodes(m.10, bytes.subrange(k10, k11)) && (exists|k12: int| k11 <= k12 <= bytes.len() && #[trigger] T11::spec_encodes(m.11, bytes.subrange(k11, k12)) && (exists|k13: int| k12 <= k13 <= bytes.len() && #[trigger] T12::spec_encodes(m.12, bytes.subrange(k12, k13)) && (exists|k14: int| k13 <= k14 <= bytes.len() && #[trigger] T13::spec_encodes(m.13, bytes.subrange(k13, k14)) && (T14::spec_encodes(m.14, bytes.subrange(k14, bytes.len() as int)))))))))));
        let k7 = choose|k7: int| k6 <= k7 <= bytes.len() && #[trigger] T6::spec_encodes(m.6, bytes.subrange(k6, k7)) && (exists|k8: int| k7 <= k8 <= bytes.len() && #[trigger] T7::spec_encodes(m.7, bytes.subrange(k7, k8)) && (exists|k9: int| k8 <= k9 <= bytes.len() && #[trigger] T8::spec_encodes(m.8, bytes.subrange(k8, k9)) && (exists|k10: int| k9 <= k10 <= bytes.len() && #[trigger] T9::spec_encodes(m.9, bytes.subrange(k9, k10)) && (exists|k11: int| k10 <= k11 <= bytes.len() && #[trigger] T10::spec_encodes(m.10, bytes.subrange(k10, k11)) && (exists|k12: int| k11 <= k12 <= bytes.len() && #[trigger] T11::spec_encodes(m.11, bytes.subrange(k11, k12)) && (exists|k13: int| k12 <= k13 <= bytes.len() && #[trigger] T12::spec_encodes(m.12, bytes.subrange(k12, k13)) && (exists|k14: int| k13 <= k14 <= bytes.len() && #[trigger] T13::spec_encodes(m.13, bytes.subrange(k13, k14)) && (T14::spec_encodes(m.14, bytes.subrange(k14, bytes.len() as int))))))))));
        let k8 = choose|k8: int| k7 <= k8 <= bytes.len() && #[trigger] T7::spec_encodes(m.7, bytes.subrange(k7, k8)) && (exists|k9: int| k8 <= k9 <= bytes.len() && #[trigger] T8::spec_encodes(m.8, bytes.subrange(k8, k9)) && (exists|k10: int| k9 <= k10 <= bytes.len() && #[trigger] T9::spec_encodes(m.9, bytes.subrange(k9, k10)) && (exists|k11: int| k10 <= k11 <= bytes.len() && #[trigger] T10::spec_encodes(m.10, bytes.subrange(k10, k11)) && (exists|k12: int| k11 <= k12 <= bytes.len() && #[trigger] T11::spec_encodes(m.11, bytes.subrange(k11, k12)) && (exists|k13: int| k12 <= k13 <= bytes.len() && #[trigger] T12::spec_encodes(m.12, bytes.subrange(k12, k13)) && (exists|k14: int| k13 <= k14 <= bytes.len() && #[trigger] T13::spec_encodes(m.13, bytes.subrange(k13, k14)) && (T14::spec_encodes(m.14, bytes.subrange(k14, bytes.len() as int)))))))));
        let k9 = choose|k9: int| k8 <= k9 <= bytes.len() && #[trigger] T8::spec_encodes(m.8, bytes.subrange(k8, k9)) && (exists|k10: int| k9 <= k10 <= bytes.len() && #[trigger] T9::spec_encodes(m.9, bytes.subrange(k9, k10)) && (exists|k11: int| k10 <= k11 <= bytes.len() && #[trigger] T10::spec_encodes(m.10, bytes.subrange(k10, k11)) && (exists|k12: int| k11 <= k12 <= bytes.len() && #[trigger] T11::spec_encodes(m.11, bytes.subrange(k11, k12)) && (exists|k13: int| k12 <= k13 <= bytes.len() && #[trigger] T12::spec_encodes(m.12, bytes.subrange(k12, k13)) && (exists|k14: int| k13 <= k14 <= bytes.len() && #[trigger] T13::spec_encodes(m.13, bytes.subrange(k13, k14)) && (T14::spec_encodes(m.14, bytes.subrange(k14, bytes.len() as int))))))));
        let k10 = choose|k10: int| k9 <= k10 <= bytes.len() && #[trigger] T9::spec_encodes(m.9, bytes.subrange(k9, k10)) && (exists|k11: int| k10 <= k11 <= bytes.len() && #[trigger] T10::spec_encodes(m.10, bytes.subrange(k10, k11)) && (exists|k12: int| k11 <= k12 <= bytes.len() && #[trigger] T11::spec_encodes(m.11, bytes.subrange(k11, k12)) && (exists|k13: int| k12 <= k13 <= bytes.len() && #[trigger] T12::spec_encodes(m.12, bytes.subrange(k12, k13)) && (exists|k14: int| k13 <= k14 <= bytes.len() && #[trigger] T13::spec_encodes(m.13, bytes.subrange(k13, k14)) && (T14::spec_encodes(m.14, bytes.subrange(k14, bytes.len() as int)))))));
        let k11 = choose|k11: int| k10 <= k11 <= bytes.len() && #[trigger] T10::spec_encodes(m.10, bytes.subrange(k10, k11)) && (exists|k12: int| k11 <= k12 <= bytes.len() && #[trigger] T11::spec_encodes(m.11, bytes.subrange(k11, k12)) && (exists|k13: int| k12 <= k13 <= bytes.len() && #[trigger] T12::spec_encodes(m.12, bytes.subrange(k12, k13)) && (exists|k14: int| k13 <= k14 <= bytes.len() && #[trigger] T13::spec_encodes(m.13, bytes.subrange(k13, k14)) && (T14::spec_encodes(m.14, bytes.subrange(k14, bytes.len() as int))))));
        let k12 = choose|k12: int| k11 <= k12 <= bytes.len() && #[trigger] T11::spec_encodes(m.11, bytes.subrange(k11, k12)) && (exists|k13: int| k12 <= k13 <= bytes.len() && #[trigger] T12::spec_encodes(m.12, bytes.subrange(k12, k13)) && (exists|k14: int| k13 <= k14 <= bytes.len() && #[trigger] T13::spec_encodes(m.13, bytes.subrange(k13, k14)) && (T14::spec_encodes(m.14, bytes.subrange(k14, bytes.len() as int)))));
        let k13 = choose|k13: int| k12 <= k13 <= bytes.len() && #[trigger] T12::spec_encodes(m.12, bytes.subrange(k12, k13)) && (exists|k14: int| k13 <= k14 <= bytes.len() && #[trigger] T13::spec_encodes(m.13, bytes.subrange(k13, k14)) && (T14::spec_encodes(m.14, bytes.subrange(k14, bytes.len() as int))));
        let k14 = choose|k14: int| k13 <= k14 <= bytes.len() && #[trigger] T13::spec_encodes(m.13, bytes.subrange(k13, k14)) && (T14::spec_encodes(m.14, bytes.subrange(k14, bytes.len() as int)));
        lemma_field_round_trip::<T0>(m.0, bytes, rest, 0, k1);
        lemma_field_round_trip::<T1>(m.1, bytes, rest, k1, k2);
        lemma_field_round_trip::<T2>(m.2, bytes, rest, k2, k3);
        lemma_field_round_trip::<T3>(m.3, bytes, rest, k3, k4);
        lemma_field_round_trip::<T4>(m.4, bytes, rest, k4, k5);
        lemma_field_round_trip::<T5>(m.5, bytes, rest, k5, k6);
        lemma_field_round_trip::<T6>(m.6, bytes, rest, k6, k7);
        lemma_field_round_trip::<T7>(m.7, bytes, rest, k7, k8);
        lemma_field_round_trip::<T8>(m.8, bytes, rest, k8, k9);
        lemma_field_round_trip::<T9>(m.9, bytes, rest, k9, k10);
        lemma_field_round_trip::<T10>(m.10, bytes, rest, k10, k11);
        lemma_field_round_trip::<T11>(m.11, bytes, rest, k11, k12);
        lemma_field_round_trip::<T12>(m.12, bytes, rest, k12, k13);
        lemma_field_round_trip::<T13>(m.13, bytes, rest, k13, k14);
        lemma_field_round_trip::<T14>(m.14, bytes, rest, k14, bytes.len() as int);
    }

    proof fn lemma_decode_bounded(bytes: Seq<u8>) {
    }
}

impl<T0: Serialize, T1: Serialize, T2: Serialize, T3: Serialize, T4: Serialize, T5: Serialize, T6: Serialize, T7: Serialize, T8: Serialize, T9: Serialize, T10: Serialize, T11: Serialize, T12: Serialize, T13: Serialize, T14: Serialize> Serialize for (T0, T1, T2, T3, T4, T5, T6, T7, T8, T9, T10, T11, T12, T13, T14) {
    #[verifier::rlimit(100)]
    #[verifier::spinoff_prover]
    fn serialize<W: WriteUninit>(&self, serializer: &mut Serializer<W>) -> (r: Result<()>) {
        let ghost w0 = serializer.written();
        self.0.serialize(serializer)?;
        let ghost w1 = serializer.written();
        self.1.serialize(serializer)?;
        let ghost w2 = serializer.written();
        self.2.serialize(serializer)?;
        let ghost w3 = serializer.written();
        self.3.serialize(serializer)?;
        let ghost w4 = serializer.written();
        self.4.serialize(serializer)?;
        let ghost w5 = serializer.written();
        self.5.serialize(serializer)?;
        let ghost w6 = serializer.written();
        self.6.serialize(serializer)?;
        let ghost w7 = serializer.written();
        self.7.serialize(serializer)?;
        let ghost w8 = serializer.written();
        self.8.serialize(serializer)?;
        let ghost w9 = serializer.written();
        self.9.serialize(serializer)?;
        let ghost w10 = serializer.written();
        self.10.serialize(serializer)?;
        let ghost w11 = serializer.written();
        self.11.serialize(serializer)?;
        let ghost w12 = serializer.written();
        self.12.serialize(serializer)?;
        let ghost w13 = serializer.written();
        self.13.serialize(serializer)?;
        let ghost w14 = serializer.written();
        self.14.serialize(serializer)?;
        let ghost w15 = serializer.written();
        proof {
            if T0::spec_faithful() && T1::spec_faithful() && T2::spec_faithful() && T3::spec_faithful() && T4::spec_faithful() && T5::spec_faithful() && T6::spec_faithful() && T7::spec_faithful() && T8::spec_faithful() && T9::spec_faithful() && T10::spec_faithful() && T11::spec_faithful() && T12::spec_faithful() && T13::spec_faithful() && T14::spec_faithful() {
                lemma_extends_trans(w0, w1, w2);
                lemma_extends_trans(w0, w2, w3);
                lemma_extends_trans(w0, w3, w4);
                lemma_extends_trans(w0, w4, w5);
                lemma_extends_trans(w0, w5, w6);
                lemma_extends_trans(w0, w6, w7);
                lemma_extends_trans(w0, w7, w8);
                lemma_extends_trans(w0, w8, w9);
                lemma_extends_trans(w0, w9, w10);
                lemma_extends_trans(w0, w10, w11);
                lemma_extends_trans(w0, w11, w12);
                lemma_extends_trans(w0, w12, w13);
                lemma_extends_trans(w0, w13, w14);
                lemma_extends_trans(w0, w14, w15);
                let all = appended(w0, w15);
                let m = self.model();
                let k1 = (w1.len() - w0.len()) as int;
                let k2 = (w2.len() - w0.len()) as int;
                let k3 = (w3.len() - w0.len()) as int;
                let k4 = (w4.len() - w0.len()) as int;
                let k5 = (w5.len() - w0.len()) as int;
                let k6 = (w6.len() - w0.len()) as int;
                let k7 = (w7.len() - w0.len()) as int;
                let k8 = (w8.len() - w0.len()) as int;
                let k9 = (w9.len() - w0.len()) as int;
                let k10 = (w10.len() - w0.len()) as int;
                let k11 = (w11.len() - w0.len()) as int;
                let k12 = (w12.len() - w0.len()) as int;
                let k13 = (w13.len() - w0.len()) as int;
                let k14 = (w14.len() - w0.len()) as int;
                assert(all.subrange(0, k1) =~= appended(w0, w1));
                assert(T0::spec_encodes(m.0, all.subrange(0, k1)));
                assert(all.subrange(k1, k2) =~= appended(w1, w2));
                assert(T1::spec_encodes(m.1, all.subrange(k1, k2)));
                assert(all.subrange(k2, k3) =~= appended(w2, w3));
                assert(T2::spec_encodes(m.2, all.subrange(k2, k3)));
                assert(all.subrange(k3, k4) =~= appended(w3, w4));
                assert(T3::spec_encodes(m.3, all.subrange(k3, k4)));
                assert(all.subrange(k4, k5) =~= appended(w4, w5));
                assert(T4::spec_encodes(m.4, all.subrange(k4, k5)));
                assert(all.subrange(k5, k6) =~= appended(w5, w6));
                assert(T5::spec_encodes(m.5, all.subrange(k5, k6)));
                assert(all.subrange(k6, k7) =~= appended(w6, w7));
                assert(T6::spec_encodes(m.6, all.subrange(k6, k7)));
                assert(all.subrange(k7, k8) =~= appended(w7, w8));
                assert(T7::spec_encodes(m.7, all.subrange(k7, k8)));
                assert(all.subrange(k8, k9) =~= appended(w8, w9));
                assert(T8::spec_encodes(m.8, all.subrange(k8, k9)));
                assert(all.subrange(k9, k10) =~= appended(w9, w10));
                assert(T9::spec_encodes(m.9, all.subrange(k9, k10)));
                assert(all.subrange(k10, k11) =~= appended(w10, w11));
                assert(T10::spec_encodes(m.10, all.subrange(k10, k11)));
                assert(all.subrange(k11, k12) =~= appended(w11, w12));
                assert(T11::spec_encodes(m.11, all.subrange(k11, k12)));
                assert(all.subrange(k12, k13) =~= appended(w12, w13));
                assert(T12::spec_encodes(m.12, all.subrange(k12, k13)));
                assert(all.subrange(k13, k14) =~= appended(w13, w14));
                assert(T13::spec_encodes(m.13, all.subrange(k13, k14)));
                assert(all.subrange(k14, all.len() as int) =~= appended(w14, w15));
                assert(T14::spec_encodes(m.14, all.subrange(k14, all.len() as int)));
            }
        }
        Ok(())
    }
}

impl<T0: Deserialize, T1: Deserialize, T2: Deserialize, T3: Deserialize, T4: Deserialize, T5: Deserialize, T6: Deserialize, T7: Deserialize, T8: Deserialize, T9: Deserialize, T10: Deserialize, T11: Deserialize, T12: Deserialize, T13: Deserialize, T14: Deserialize> Deserialize for (T0, T1, T2, T3, T4, T5, T6, T7, T8, T9, T10, T11, T12, T13, T14) {
    #[verifier::rlimit(100)]
    #[verifier::spinoff_prover]
    fn deserialize<R: ReadUninit>(deserializer: &mut Deserializer<R>) -> (r: Result<Self>) {
        let ghost start = deserializer.unread();
        let ghost u0 = deserializer.unread();
        proof { if T0::spec_faithful() && T1::spec_faithful() && T2::spec_faithful() && T3::spec_faithful() && T4::spec_faithful() && T5::spec_faithful() && T6::spec_faithful() && T7::spec_faithful() && T8::spec_faithful() && T9::spec_faithful() && T10::spec_faithful() && T11::spec_faithful() && T12::spec_faithful() && T13::spec_faithful() && T14::spec_faithful() { assert(u0 =~= start.subrange((start.len() - u0.len()) as int, start.len() as int)); } }
        let a0 = T0::deserialize(deserializer)?;
        proof { if T0::spec_faithful() && T1::spec_faithful() && T2::spec_faithful() && T3::spec_faithful() && T4::spec_faithful() && T5::spec_faithful() && T6::spec_faithful() && T7::spec_faithful() && T8::spec_faithful() && T9::spec_faithful() && T10::spec_faithful() && T11::spec_faithful() && T12::spec_faithful() && T13::spec_faithful() && T14::spec_faithful() { T0::lemma_decode_bounded(u0); } }
        let ghost u1 = deserializer.unread();
        proof { if T0::spec_faithful() && T1::spec_faithful() && T2::spec_faithful() && T3::spec_faithful() && T4::spec_faithful() && T5::spec_faithful() && T6::spec_faithful() && T7::spec_faithful() && T8::spec_faithful() && T9::spec_faithful() && T10::spec_faithful() && T11::spec_faithful() && T12::spec_faithful() && T13::spec_faithful() && T14::spec_faithful() { assert(u1 =~= start.subrange((start.len() - u1.len()) as int, start.len() as int)); } }
        let a1 = T1::deserialize(deserializer)?;
        proof { if T0::spec_faithful() && T1::spec_faithful() && T2::spec_faithful() && T3::spec_faithful() && T4::spec_faithful() && T5::spec_faithful() && T6::spec_faithful() && T7::spec_faithful() && T8::spec_faithful() && T9::spec_faithful() && T10::spec_faithful() && T11::spec_faithful() && T12::spec_faithful() && T13::spec_faithful() && T14::spec_faithful() { T1::lemma_decode_bounded(u1); } }
        let ghost u2 = deserializer.unread();
        proof { if T0::spec_faithful() && T1::spec_faithful() && T2::spec_faithful() && T3::spec_faithful() && T4::spec_faithful() && T5::spec_faithful() && T6::spec_faithful() && T7::spec_faithful() && T8::spec_faithful() && T9::spec_faithful() && T10::spec_faithful() && T11::spec_faithful() && T12::spec_faithful() && T13::spec_faithful() && T14::spec_faithful() { assert(u2 =~= start.subrange((start.len() - u2.len()) as int, start.len() as int)); } }
        let a2 = T2::deserialize(deserializer)?;
        proof { if T0::spec_faithful() && T1::spec_faithful() && T2::spec_faithful() && T3::spec_faithful() && T4::spec_faithful() && T5::spec_faithful() && T6::spec_faithful() && T7::spec_faithful() && T8::spec_faithful() && T9::spec_faithful() && T10::spec_faithful() && T11::spec_faithful() && T12::spec_faithful() && T13::spec_faithful() && T14::spec_faithful() { T2::lemma_decode_bounded(u2); } }
        let ghost u3 = deserializer.unread();
        proof { if T0::spec_faithful() && T1::spec_faithful() && T2::spec_faithful() && T3::spec_faithful() && T4::spec_faithful() && T5::spec_faithful() && T6::spec_faithful() && T7::spec_faithful() && T8::spec_faithful() && T9::spec_faithful() && T10::spec_faithful() && T11::spec_faithful() && T12::spec_faithful() && T13::spec_faithful() && T14::spec_faithful() { assert(u3 =~= start.subrange((start.len() - u3.len()) as int, start.len() as int)); } }
        let a3 = T3::deserialize(deserializer)?;
        proof { if T0::spec_faithful() && T1::spec_faithful() && T2::spec_faithful() && T3::spec_faithful() && T4::spec_faithful() && T5::spec_faithful() && T6::spec_faithful() && T7::spec_faithful() && T8::spec_faithful() && T9::spec_faithful() && T10::spec_faithful() && T11::spec_faithful() && T12::spec_faithful() && T13::spec_faithful() && T14::spec_faithful() { T3::lemma_decode_bounded(u3); } }
        let ghost u4 = deserializer.unread();
        proof { if T0::spec_faithful() && T1::spec_faithful() && T2::spec_faithful() && T3::spec_faithful() && T4::spec_faithful() && T5::spec_faithful() && T6::spec_faithful() && T7::spec_faithful() && T8::spec_faithful() && T9::spec_faithful() && T10::spec_faithful() && T11::spec_faithful() && T12::spec_faithful() && T13::spec_faithful() && T14::spec_faithful() { assert(u4 =~= start.subrange((start.len() - u4.len()) as int, start.len() as int)); } }
        let a4 = T4::deserialize(deserializer)?;
        proof { if T0::spec_faithful() && T1::spec_faithful() && T2::spec_faithful() && T3::spec_faithful() && T4::spec_faithful() && T5::spec_faithful() && T6::spec_faithful() && T7::spec_faithful() && T8::spec_faithful() && T9::spec_faithful() && T10::spec_faithful() && T11::spec_faithful() && T12::spec_faithful() && T13::spec_faithful() && T14::spec_faithful() { T4::lemma_decode_bounded(u4); } }
        let ghost u5 = deserializer.unread();
        proof { if T0::spec_faithful() && T1::spec_faithful() && T2::spec_faithful() && T3::spec_faithful() && T4::spec_faithful() && T5::spec_faithful() && T6::spec_faithful() && T7::spec_faithful() && T8::spec_faithful() && T9::spec_faithful() && T10::spec_faithful() && T11::spec_faithful() && T12::spec_faithful() && T13::spec_faithful() && T14::spec_faithful() { assert(u5 =~= start.subrange((start.len() - u5.len()) as int, start.len() as int)); } }
        let a5 = T5::deserialize(deserializer)?;
        proof { if T0::spec_faithful() && T1::spec_faithful() && T2::spec_faithful() && T3::spec_faithful() && T4::spec_faithful() && T5::spec_faithful() && T6::spec_faithful() && T7::spec_faithful() && T8::spec_faithful() && T9::spec_faithful() && T10::spec_faithful() && T11::spec_faithful() && T12::spec_faithful() && T13::spec_faithful() && T14::spec_faithful() { T5::lemma_decode_bounded(u5); } }
        let ghost u6 = deserializer.unread();
        proof { if T0::spec_faithful() && T1::spec_faithful() && T2::spec_faithful() && T3::spec_faithful() && T4::spec_faithful() && T5::spec_faithful() && T6::spec_faithful() && T7::spec_faithful() && T8::spec_faithful() && T9::spec_faithful() && T10::spec_faithful() && T11::spec_faithful() && T12::spec_faithful() && T13::spec_faithful() && T14::spec_faithful() { assert(u6 =~= start.subrange((start.len() - u6.len()) as int, start.len() as int)); } }
        let a6 = T6::deserialize(deserializer)?;
        proof { if T0::spec_faithful() && T1::spec_faithful() && T2::spec_faithful() && T3::spec_faithful() && T4::spec_faithful() && T5::spec_faithful() && T6::spec_faithful() && T7::spec_faithful() && T8::spec_faithful() && T9::spec_faithful() && T10::spec_faithful() && T11::spec_faithful() && T12::spec_faithful() && T13::spec_faithful() && T14::spec_faithful() { T6::lemma_decode_bounded(u6); } }
        let ghost u7 = deserializer.unread();
        proof { if T0::spec_faithful() && T1::spec_faithful() && T2::spec_faithful() && T3::spec_faithful() && T4::spec_faithful() && T5::spec_faithful() && T6::spec_faithful() && T7::spec_faithful() && T8::spec_faithful() && T9::spec_faithful() && T10::spec_faithful() && T11::spec_faithful() && T12::spec_faithful() && T13::spec_faithful() && T14::spec_faithful() { assert(u7 =~= start.subrange((start.len() - u7.len()) as int, start.len() as int)); } }
        let a7 = T7::deserialize(deserializer)?;
        proof { if T0::spec_faithful() && T1::spec_faithful() && T2::spec_faithful() && T3::spec_faithful() && T4::spec_faithful() && T5::spec_faithful() && T6::spec_faithful() && T7::spec_faithful() && T8::spec_faithful() && T9::spec_faithful() && T10::spec_faithful() && T11::spec_faithful() && T12::spec_faithful() && T13::spec_faithful() && T14::spec_faithful() { T7::lemma_decode_bounded(u7); } }
        let ghost u8 = deserializer.unread();
        proof { if T0::spec_faithful() && T1::spec_faithful() && T2::spec_faithful() && T3::spec_faithful() && T4::spec_faithful() && T5::spec_faithful() && T6::spec_faithful() && T7::spec_faithful() && T8::spec_faithful() && T9::spec_faithful() && T10::spec_faithful() && T11::spec_faithful() && T12::spec_faithful() && T13::spec_faithful() && T14::spec_faithful() { assert(u8 =~= start.subrange((start.len() - u8.len()) as int, start.len() as int)); } }
        let a8 = T8::deserialize(deserializer)?;
        proof { if T0::spec_faithful() && T1::spec_faithful() && T2::spec_faithful() && T3::spec_faithful() && T4::spec_faithful() && T5::spec_faithful() && T6::spec_faithful() && T7::spec_faithful() && T8::spec_faithful() && T9::spec_faithful() && T10::spec_faithful() && T11::spec_faithful() && T12::spec_faithful() && T13::spec_faithful() && T14::spec_faithful() { T8::lemma_decode_bounded(u8); } }
        let ghost u9 = deserializer.unread();
        proof { if T0::spec_faithful() && T1::spec_faithful() && T2::spec_faithful() && T3::spec_faithful() && T4::spec_faithful() && T5::spec_faithful() && T6::spec_faithful() && T7::spec_faithful() && T8::spec_faithful() && T9::spec_faithful() && T10::spec_faithful() && T11::spec_faithful() && T12::spec_faithful() && T13::spec_faithful() && T14::spec_faithful() { assert(u9 =~= start.subrange((start.len() - u9.len()) as int, start.len() as int)); } }
        let a9 = T9::deserialize(deserializer)?;
        proof { if T0::spec_faithful() && T1::spec_faithful() && T2::spec_faithful() && T3::spec_faithful() && T4::spec_faithful() && T5::spec_faithful() && T6::spec_faithful() && T7::spec_faithful() && T8::spec_faithful() && T9::spec_faithful() && T10::spec_faithful() && T11::spec_faithful() && T12::spec_faithful() && T13::spec_faithful() && T14::spec_faithful() { T9::lemma_decode_bounded(u9); } }
        let ghost u10 = deserializer.unread();
        proof { if T0::spec_faithful() && T1::spec_faithful() && T2::spec_faithful() && T3::spec_faithful() && T4::spec_faithful() && T5::spec_faithful() && T6::spec_faithful() && T7::spec_faithful() && T8::spec_faithful() && T9::spec_faithful() && T10::spec_faithful() && T11::spec_faithful() && T12::spec_faithful() && T13::spec_faithful() && T14::spec_faithful() { assert(u10 =~= start.subrange((start.len() - u10.len()) as int, start.len() as int)); } }
        let a10 = T10::deserialize(deserializer)?;
        proof { if T0::spec_faithful() && T1::spec_faithful() && T2::spec_faithful() && T3::spec_faithful() && T4::spec_faithful() && T5::spec_faithful() && T6::spec_faithful() && T7::spec_faithful() && T8::spec_faithful() && T9::spec_faithful() && T10::spec_faithful() && T11::spec_faithful() && T12::spec_faithful() && T13::spec_faithful() && T14::spec_faithful() { T10::lemma_decode_bounded(u10); } }
        let ghost u11 = deserializer.unread();
        proof { if T0::spec_faithful() && T1::spec_faithful() && T2::spec_faithful() && T3::spec_faithful() && T4::spec_faithful() && T5::spec_faithful() && T6::spec_faithful() && T7::spec_faithful() && T8::spec_faithful() && T9::spec_faithful() && T10::spec_faithful() && T11::spec_faithful() && T12::spec_faithful() && T13::spec_faithful() && T14::spec_faithful() { assert(u11 =~= start.subrange((start.len() - u11.len()) as int, start.len() as int)); } }
        let a11 = T11::deserialize(deserializer)?;
        proof { if T0::spec_faithful() && T1::spec_faithful() && T2::spec_faithful() && T3::spec_faithful() && T4::spec_faithful() && T5::spec_faithful() && T6::spec_faithful() && T7::spec_faithful() && T8::spec_faithful() && T9::spec_faithful() && T10::spec_faithful() && T11::spec_faithful() && T12::spec_faithful() && T13::spec_faithful() && T14::spec_faithful() { T11::lemma_decode_bounded(u11); } }
        let ghost u12 = deserializer.unread();
        proof { if T0::spec_faithful() && T1::spec_faithful() && T2::spec_faithful() && T3::spec_faithful() && T4::spec_faithful() && T5::spec_faithful() && T6::spec_faithful() && T7::spec_faithful() && T8::spec_faithful() && T9::spec_faithful() && T10::spec_faithful() && T11::spec_faithful() && T12::spec_faithful() && T13::spec_faithful() && T14::spec_faithful() { assert(u12 =~= start.subrange((start.len() - u12.len()) as int, start.len() as int)); } }
        let a12 = T12::deserialize(deserializer)?;
        proof { if T0::spec_faithful() && T1::spec_faithful() && T2::spec_faithful() && T3::spec_faithful() && T4::spec_faithful() && T5::spec_faithful() && T6::spec_faithful() && T7::spec_faithful() && T8::spec_faithful() && T9::spec_faithful() && T10::spec_faithful() && T11::spec_faithful() && T12::spec_faithful() && T13::spec_faithful() && T14::spec_faithful() { T12::lemma_decode_bounded(u12); } }
        let ghost u13 = deserializer.unread();
        proof { if T0::spec_faithful() && T1::spec_faithful() && T2::spec_faithful() && T3::spec_faithful() && T4::spec_faithful() && T5::spec_faithful() && T6::spec_faithful() && T7::spec_faithful() && T8::spec_faithful() && T9::spec_faithful() && T10::spec_faithful() && T11::spec_faithful() && T12::spec_faithful() && T13::spec_faithful() && T14::spec_faithful() { assert(u13 =~= start.subrange((start.len() - u13.len()) as int, start.len() as int)); } }
        let a13 = T13::deserialize(deserializer)?;
        proof { if T0::spec_faithful() && T1::spec_faithful() && T2::spec_faithful() && T3::spec_faithful() && T4::spec_faithful() && T5::spec_faithful() && T6::spec_faithful() && T7::spec_faithful() && T8::spec_faithful() && T9::spec_faithful() && T10::spec_faithful() && T11::spec_faithful() && T12::spec_faithful() && T13::spec_faithful() && T14::spec_faithful() { T13::lemma_decode_bounded(u13); } }
        let ghost u14 = deserializer.unread();
        proof { if T0::spec_faithful() && T1::spec_faithful() && T2::spec_faithful() && T3::spec_faithful() && T4::spec_faithful() && T5::spec_faithful() && T6::spec_faithful() && T7::spec_faithful() && T8::spec_faithful() && T9::spec_faithful() && T10::spec_faithful() && T11::spec_faithful() && T12::spec_faithful() && T13::spec_faithful() && T14::spec_faithful() { assert(u14 =~= start.subrange((start.len() - u14.len()) as int, start.len() as int)); } }
        let a14 = T14::deserialize(deserializer)?;
        proof { if T0::spec_faithful() && T1::spec_faithful() && T2::spec_faithful() && T3::spec_faithful() && T4::spec_faithful() && T5::spec_faithful() && T6::spec_faithful() && T7::spec_faithful() && T8::spec_faithful() && T9::spec_faithful() && T10::spec_faithful() && T11::spec_faithful() && T12::spec_faithful() && T13::spec_faithful() && T14::spec_faithful() { T14::lemma_decode_bounded(u14); } }
        proof { if T0::spec_faithful() && T1::spec_faithful() && T2::spec_faithful() && T3::spec_faithful() && T4::spec_faithful() && T5::spec_faithful() && T6::spec_faithful() && T7::spec_faithful() && T8::spec_faithful() && T9::spec_faithful() && T10::spec_faithful() && T11::spec_faithful() && T12::spec_faithful() && T13::spec_faithful() && T14::spec_faithful() { assert(deserializer.unread() =~= start.subrange((start.len() - deserializer.unread().len()) as int, start.len() as int)); } }
        Ok((a0, a1, a2, a3, a4, a5, a6, a7, a8, a9, a10, a11, a12, a13, a14))
    }

    #[verifier::rlimit(100)]
    #[verifier::spinoff_prover]
    fn deserialize_in_place<R: ReadUninit>(&mut self, deserializer: &mut Deserializer<R>) -> (r: Result<()>) {
        let ghost start = deserializer.unread();
        let ghost u0 = deserializer.unread();
        proof { if T0::spec_faithful() && T1::spec_faithful() && T2::spec_faithful() && T3::spec_faithful() && T4::spec_faithful() && T5::spec_faithful() && T6::spec_faithful() && T7::spec_faithful() && T8::spec_faithful() && T9::spec_faithful() && T10::spec_faithful() && T11::spec_faithful() && T12::spec_faithful() && T13::spec_faithful() && T14::spec_faithful() { assert(u0 =~= start.subrange((start.len() - u0.len()) as int, start.len() as int)); } }
        self.0.deserialize_in_place(deserializer)?;
        proof { if T0::spec_faithful() && T1::spec_faithful() && T2::spec_faithful() && T3::spec_faithful() && T4::spec_faithful() && T5::spec_faithful() && T6::spec_faithful() && T7::spec_faithful() && T8::spec_faithful() && T9::spec_faithful() && T10::spec_faithful() && T11::spec_faithful() && T12::spec_faithful() && T13::spec_faithful() && T14::spec_faithful() { T0::lemma_decode_bounded(u0); } }
        let ghost u1 = deserializer.unread();
        proof { if T0::spec_faithful() && T1::spec_faithful() && T2::spec_faithful() && T3::spec_faithful() && T4::spec_faithful() && T5::spec_faithful() && T6::spec_faithful() && T7::spec_faithful() && T8::spec_faithful() && T9::spec_faithful() && T10::spec_faithful() && T11::spec_faithful() && T12::spec_faithful() && T13::spec_faithful() && T14::spec_faithful() { assert(u1 =~= start.subrange((start.len() - u1.len()) as int, start.len() as int)); } }
        self.1.deserialize_in_place(deserializer)?;
        proof { if T0::spec_faithful() && T1::spec_faithful() && T2::spec_faithful() && T3::spec_faithful() && T4::spec_faithful() && T5::spec_faithful() && T6::spec_faithful() && T7::spec_faithful() && T8::spec_faithful() && T9::spec_faithful() && T10::spec_faithful() && T11::spec_faithful() && T12::spec_faithful() && T13::spec_faithful() && T14::spec_faithful() { T1::lemma_decode_bounded(u1); } }
        let ghost u2 = deserializer.unread();
        proof { if T0::spec_faithful() && T1::spec_faithful() && T2::spec_faithful() && T3::spec_faithful() && T4::spec_faithful() && T5::spec_faithful() && T6::spec_faithful() && T7::spec_faithful() && T8::spec_faithful() && T9::spec_faithful() && T10::spec_faithful() && T11::spec_faithful() && T12::spec_faithful() && T13::spec_faithful() && T14::spec_faithful() { assert(u2 =~= start.subrange((start.len() - u2.len()) as int, start.len() as int)); } }
        self.2.deserialize_in_place(deserializer)?;
        proof { if T0::spec_faithful() && T1::spec_faithful() && T2::spec_faithful() && T3::spec_faithful() && T4::spec_faithful() && T5::spec_faithful() && T6::spec_faithful() && T7::spec_faithful() && T8::spec_faithful() && T9::spec_faithful() && T10::spec_faithful() && T11::spec_faithful() && T12::spec_faithful() && T13::spec_faithful() && T14::spec_faithful() { T2::lemma_decode_bounded(u2); } }
        let ghost u3 = deserializer.unread();
        proof { if T0::spec_faithful() && T1::spec_faithful() && T2::spec_faithful() && T3::spec_faithful() && T4::spec_faithful() && T5::spec_faithful() && T6::spec_faithful() && T7::spec_faithful() && T8::spec_faithful() && T9::spec_faithful() && T10::spec_faithful() && T11::spec_faithful() && T12::spec_faithful() && T13::spec_faithful() && T14::spec_faithful() { assert(u3 =~= start.subrange((start.len() - u3.len()) as int, start.len() as int)); } }
        self.3.deserialize_in_place(deserializer)?;
        proof { if T0::spec_faithful() && T1::spec_faithful() && T2::spec_faithful() && T3::spec_faithful() && T4::spec_faithful() && T5::spec_faithful() && T6::spec_faithful() && T7::spec_faithful() && T8::spec_faithful() && T9::spec_faithful() && T10::spec_faithful() && T11::spec_faithful() && T12::spec_faithful() && T13::spec_faithful() && T14::spec_faithful() { T3::lemma_decode_bounded(u3); } }
        let ghost u4 = deserializer.unread();
        proof { if T0::spec_faithful() && T1::spec_faithful() && T2::spec_faithful() && T3::spec_faithful() && T4::spec_faithful() && T5::spec_faithful() && T6::spec_faithful() && T7::spec_faithful() && T8::spec_faithful() && T9::spec_faithful() && T10::spec_faithful() && T11::spec_faithful() && T12::spec_faithful() && T13::spec_faithful() && T14::spec_faithful() { assert(u4 =~= start.subrange((start.len() - u4.len()) as int, start.len() as int)); } }
        self.4.deserialize_in_place(deserializer)?;
        proof { if T0::spec_faithful() && T1::spec_faithful() && T2::spec_faithful() && T3::spec_faithful() && T4::spec_faithful() && T5::spec_faithful() && T6::spec_faithful() && T7::spec_faithful() && T8::spec_faithful() && T9::spec_faithful() && T10::spec_faithful() && T11::spec_faithful() && T12::spec_faithful() && T13::spec_faithful() && T14::spec_faithful() { T4::lemma_decode_bounded(u4); } }
        let ghost u5 = deserializer.unread();
        proof { if T0::spec_faithful() && T1::spec_faithful() && T2::spec_faithful() && T3::spec_faithful() && T4::spec_faithful() && T5::spec_faithful() && T6::spec_faithful() && T7::spec_faithful() && T8::spec_faithful() && T9::spec_faithful() && T10::spec_faithful() && T11::spec_faithful() && T12::spec_faithful() && T13::spec_faithful() && T14::spec_faithful() { assert(u5 =~= start.subrange((start.len() - u5.len()) as int, start.len() as int)); } }
        self.5.deserialize_in_place(deserializer)?;
        proof { if T0::spec_faithful() && T1::spec_faithful() && T2::spec_faithful() && T3::spec_faithful() && T4::spec_faithful() && T5::spec_faithful() && T6::spec_faithful() && T7::spec_faithful() && T8::spec_faithful() && T9::spec_faithful() && T10::spec_faithful() && T11::spec_faithful() && T12::spec_faithful() && T13::spec_faithful() && T14::spec_faithful() { T5::lemma_decode_bounded(u5); } }
        let ghost u6 = deserializer.unread();
        proof { if T0::spec_faithful() && T1::spec_faithful() && T2::spec_faithful() && T3::spec_faithful() && T4::spec_faithful() && T5::spec_faithful() && T6::spec_faithful() && T7::spec_faithful() && T8::spec_faithful() && T9::spec_faithful() && T10::spec_faithful() && T11::spec_faithful() && T12::spec_faithful() && T13::spec_faithful() && T14::spec_faithful() { assert(u6 =~= start.subrange((start.len() - u6.len()) as int, start.len() as int)); } }
        self.6.deserialize_in_place(deserializer)?;
        proof { if T0::spec_faithful() && T1::spec_faithful() && T2::spec_faithful() && T3::spec_faithful() && T4::spec_faithful() && T5::spec_faithful() && T6::spec_faithful() && T7::spec_faithful() && T8::spec_faithful() && T9::spec_faithful() && T10::spec_faithful() && T11::spec_faithful() && T12::spec_faithful() && T13::spec_faithful() && T14::spec_faithful() { T6::lemma_decode_bounded(u6); } }
        let ghost u7 = deserializer.unread();
        proof { if T0::spec_faithful() && T1::spec_faithful() && T2::spec_faithful() && T3::spec_faithful() && T4::spec_faithful() && T5::spec_faithful() && T6::spec_faithful() && T7::spec_faithful() && T8::spec_faithful() && T9::spec_faithful() && T10::spec_faithful() && T11::spec_faithful() && T12::spec_faithful() && T13::spec_faithful() && T14::spec_faithful() { assert(u7 =~= start.subrange((start.len() - u7.len()) as int, start.len() as int)); } }
        self.7.deserialize_in_place(deserializer)?;
        proof { if T0::spec_faithful() && T1::spec_faithful() && T2::spec_faithful() && T3::spec_faithful() && T4::spec_faithful() && T5::spec_faithful() && T6::spec_faithful() && T7::spec_faithful() && T8::spec_faithful() && T9::spec_faithful() && T10::spec_faithful() && T11::spec_faithful() && T12::spec_faithful() && T13::spec_faithful() && T14::spec_faithful() { T7::lemma_decode_bounded(u7); } }
        let ghost u8 = deserializer.unread();
        proof { if T0::spec_faithful() && T1::spec_faithful() && T2::spec_faithful() && T3::spec_faithful() && T4::spec_faithful() && T5::spec_faithful() && T6::spec_faithful() && T7::spec_faithful() && T8::spec_faithful() && T9::spec_faithful() && T10::spec_faithful() && T11::spec_faithful() && T12::spec_faithful() && T13::spec_faithful() && T14::spec_faithful() { assert(u8 =~= start.subrange((start.len() - u8.len()) as int, start.len() as int)); } }
        self.8.deserialize_in_place(deserializer)?;
        proof { if T0::spec_faithful() && T1::spec_faithful() && T2::spec_faithful() && T3::spec_faithful() && T4::spec_faithful() && T5::spec_faithful() && T6::spec_faithful() && T7::spec_faithful() && T8::spec_faithful() && T9::spec_faithful() && T10::spec_faithful() && T11::spec_faithful() && T12::spec_faithful() && T13::spec_faithful() && T14::spec_faithful() { T8::lemma_decode_bounded(u8); } }
        let ghost u9 = deserializer.unread();
        proof { if T0::spec_faithful() && T1::spec_faithful() && T2::spec_faithful() && T3::spec_faithful() && T4::spec_faithful() && T5::spec_faithful() && T6::spec_faithful() && T7::spec_faithful() && T8::spec_faithful() && T9::spec_faithful() && T10::spec_faithful() && T11::spec_faithful() && T12::spec_faithful() && T13::spec_faithful() && T14::spec_faithful() { assert(u9 =~= start.subrange((start.len() - u9.len()) as int, start.len() as int)); } }
        self.9.deserialize_in_place(deserializer)?;
        proof { if T0::spec_faithful() && T1::spec_faithful() && T2::spec_faithful() && T3::spec_faithful() && T4::spec_faithful() && T5::spec_faithful() && T6::spec_faithful() && T7::spec_faithful() && T8::spec_faithful() && T9::spec_faithful() && T10::spec_faithful() && T11::spec_faithful() && T12::spec_faithful() && T13::spec_faithful() && T14::spec_faithful() { T9::lemma_decode_bounded(u9); } }
        let ghost u10 = deserializer.unread();
        proof { if T0::spec_faithful() && T1::spec_faithful() && T2::spec_faithful() && T3::spec_faithful() && T4::spec_faithful() && T5::spec_faithful() && T6::spec_faithful() && T7::spec_faithful() && T8::spec_faithful() && T9::spec_faithful() && T10::spec_faithful() && T11::spec_faithful() && T12::spec_faithful() && T13::spec_faithful() && T14::spec_faithful() { assert(u10 =~= start.subrange((start.len() - u10.len()) as int, start.len() as int)); } }
        self.10.deserialize_in_place(deserializer)?;
        proof { if T0::spec_faithful() && T1::spec_faithful() && T2::spec_faithful() && T3::spec_faithful() && T4::spec_faithful() && T5::spec_faithful() && T6::spec_faithful() && T7::spec_faithful() && T8::spec_faithful() && T9::spec_faithful() && T10::spec_faithful() && T11::spec_faithful() && T12::spec_faithful() && T13::spec_faithful() && T14::spec_faithful() { T10::lemma_decode_bounded(u10); } }
        let ghost u11 = deserializer.unread();
        proof { if T0::spec_faithful() && T1::spec_faithful() && T2::spec_faithful() && T3::spec_faithful() && T4::spec_faithful() && T5::spec_faithful() && T6::spec_faithful() && T7::spec_faithful() && T8::spec_faithful() && T9::spec_faithful() && T10::spec_faithful() && T11::spec_faithful() && T12::spec_faithful() && T13::spec_faithful() && T14::spec_faithful() { assert(u11 =~= start.subrange((start.len() - u11.len()) as int, start.len() as int)); } }
        self.11.deserialize_in_place(deserializer)?;
        proof { if T0::spec_faithful() && T1::spec_faithful() && T2::spec_faithful() && T3::spec_faithful() && T4::spec_faithful() && T5::spec_faithful() && T6::spec_faithful() && T7::spec_faithful() && T8::spec_faithful() && T9::spec_faithful() && T10::spec_faithful() && T11::spec_faithful() && T12::spec_faithful() && T13::spec_faithful() && T14::spec_faithful() { T11::lemma_decode_bounded(u11); } }
        let ghost u12 = deserializer.unread();
        proof { if T0::spec_faithful() && T1::spec_faithful() && T2::spec_faithful() && T3::spec_faithful() && T4::spec_faithful() && T5::spec_faithful() && T6::spec_faithful() && T7::spec_faithful() && T8::spec_faithful() && T9::spec_faithful() && T10::spec_faithful() && T11::spec_faithful() && T12::spec_faithful() && T13::spec_faithful() && T14::spec_faithful() { assert(u12 =~= start.subrange((start.len() - u12.len()) as int, start.len() as int)); } }
        self.12.deserialize_in_place(deserializer)?;
        proof { if T0::spec_faithful() && T1::spec_faithful() && T2::spec_faithful() && T3::spec_faithful() && T4::spec_faithful() && T5::spec_faithful() && T6::spec_faithful() && T7::spec_faithful() && T8::spec_faithful() && T9::spec_faithful() && T10::spec_faithful() && T11::spec_faithful() && T12::spec_faithful() && T13::spec_faithful() && T14::spec_faithful() { T12::lemma_decode_bounded(u12); } }
        let ghost u13 = deserializer.unread();
        proof { if T0::spec_faithful() && T1::spec_faithful() && T2::spec_faithful() && T3::spec_faithful() && T4::spec_faithful() && T5::spec_faithful() && T6::spec_faithful() && T7::spec_faithful() && T8::spec_faithful() && T9::spec_faithful() && T10::spec_faithful() && T11::spec_faithful() && T12::spec_faithful() && T13::spec_faithful() && T14::spec_faithful() { assert(u13 =~= start.subrange((start.len() - u13.len()) as int, start.len() as int)); } }
        self.13.deserialize_in_place(deserializer)?;
        proof { if T0::spec_faithful() && T1::spec_faithful() && T2::spec_faithful() && T3::spec_faithful() && T4::spec_faithful() && T5::spec_faithful() && T6::spec_faithful() && T7::spec_faithful() && T8::spec_faithful() && T9::spec_faithful() && T10::spec_faithful() && T11::spec_faithful() && T12::spec_faithful() && T13::spec_faithful() && T14::spec_faithful() { T13::lemma_decode_bounded(u13); } }
        let ghost u14 = deserializer.unread();
        proof { if T0::spec_faithful() && T1::spec_faithful() && T2::spec_faithful() && T3::spec_faithful() && T4::spec_faithful() && T5::spec_faithful() && T6::spec_faithful() && T7::spec_faithful() && T8::spec_faithful() && T9::spec_faithful() && T10::spec_faithful() && T11::spec_faithful() && T12::spec_faithful() && T13::spec_faithful() && T14::spec_faithful() { assert(u14 =~= start.subrange((start.len() - u14.len()) as int, start.len() as int)); } }
        self.14.deserialize_in_place(deserializer)?;
        proof { if T0::spec_faithful() && T1::spec_faithful() && T2::spec_faithful() && T3::spec_faithful() && T4::spec_faithful() && T5::spec_faithful() && T6::spec_faithful() && T7::spec_faithful() && T8::spec_faithful() && T9::spec_faithful() && T10::spec_faithful() && T11::spec_faithful() && T12::spec_faithful() && T13::spec_faithful() && T14::spec_faithful() { T14::lemma_decode_bounded(u14); } }
        proof { if T0::spec_faithful() && T1::spec_faithful() && T2::spec_faithful() && T3::spec_faithful() && T4::spec_faithful() && T5::spec_faithful() && T6::spec_faithful() && T7::spec_faithful() && T8::spec_faithful() && T9::spec_faithful() && T10::spec_faithful() && T11::spec_faithful() && T12::spec_faithful() && T13::spec_faithful() && T14::spec_faithful() { assert(deserializer.unread() =~= start.subrange((start.len() - deserializer.unread().len()) as int, start.len() as int)); } }
        Ok(())
    }
}

impl<T0: WireFormat, T1: WireFormat, T2: WireFormat, T3: WireFormat, T4: WireFormat, T5: WireFormat, T6: WireFormat, T7: WireFormat, T8: WireFormat, T9: WireFormat, T10: WireFormat, T11: WireFormat, T12: WireFormat, T13: WireFormat, T14: WireFormat, T15: WireFormat> WireFormat for (T0, T1, T2, T3, T4, T5, T6, T7, T8, T9, T10, T11, T12, T13, T14, T15) {
    type Model = (T0::Model, T1::Model, T2::Model, T3::Model, T4::Model, T5::Model, T6::Model, T7::Model, T8::Model, T9::Model, T10::Model, T11::Model, T12::Model, T13::Model, T14::Model, T15::Model);

    open spec fn model(&self) -> (T0::Model, T1::Model, T2::Model, T3::Model, T4::Model, T5::Model, T6::Model, T7::Model, T8::Model, T9::Model, T10::Model, T11::Model, T12::Model, T13::Model, T14::Model, T15::Model) {
        (self.0.model(), self.1.model(), self.2.model(), self.3.model(), self.4.model(), self.5.model(), self.6.model(), self.7.model(), self.8.model(), self.9.model(), self.10.model(), self.11.model(), self.12.model(), self.13.model(), self.14.model(), self.15.model())
    }

    open spec fn spec_encodes(m: (T0::Model, T1::Model, T2::Model, T3::Model, T4::Model, T5::Model, T6::Model, T7::Model, T8::Model, T9::Model, T10::Model, T11::Model, T12::Model, T13::Model, T14::Model, T15::Model), bytes: Seq<u8>) -> bool {
        exists|k1: int| 0 <= k1 <= bytes.len() && #[trigger] T0::spec_encodes(m.0, bytes.subrange(0, k1)) && (exists|k2: int| k1 <= k2 <= bytes.len() && #[trigger] T1::spec_encodes(m.1, bytes.subrange(k1, k2)) && (exists|k3: int| k2 <= k3 <= bytes.len() && #[trigger] T2::spec_encodes(m.2, bytes.subrange(k2, k3)) && (exists|k4: int| k3 <= k4 <= bytes.len() && #[trigger] T3::spec_encodes(m.3, bytes.subrange(k3, k4)) && (exists|k5: int| k4 <= k5 <= bytes.len() && #[trigger] T4::spec_encodes(m.4, bytes.subrange(k4, k5)) && (exists|k6: int| k5 <= k6 <= bytes.len() && #[trigger] T5::spec_encodes(m.5, bytes.subrange(k5, k6)) && (exists|k7: int| k6 <= k7 <= bytes.len() && #[trigger] T6::spec_encodes(m.6, bytes.subrange(k6, k7)) && (exists|k8: int| k7 <= k8 <= bytes.len() && #[trigger] T7::spec_encodes(m.7, bytes.subrange(k7, k8)) && (exists|k9: int| k8 <= k9 <= bytes.len() && #[trigger] T8::spec_encodes(m.8, bytes.subrange(k8, k9)) && (exists|k10: int| k9 <= k10 <= bytes.len() && #[trigger] T9::spec_encodes(m.9, bytes.subrange(k9, k10)) && (exists|k11: int| k10 <= k11 <= bytes.len() && #[trigger] T10::spec_encodes(m.10, bytes.subrange(k10, k11)) && (exists|k12: int| k11 <= k12 <= bytes.len() && #[trigger] T11::spec_encodes(m.11, bytes.subrange(k11, k12)) && (exists|k13: int| k12 <= k13 <= bytes.len() && #[trigger] T12::spec_encodes(m.12, bytes.subrange(k12, k13)) && (exists|k14: int| k13 <= k14 <= bytes.len() && #[trigger] T13::spec_encodes(m.13, bytes.subrange(k13, k14)) && (exists|k15: int| k14 <= k15 <= bytes.len() && #[trigger] T14::spec_encodes(m.14, bytes.subrange(k14, k15)) && (T15::spec_encodes(m.15, bytes.subrange(k15, bytes.len() as int)))))))))))))))))
    }

    open spec fn spec_encodable(m: (T0::Model, T1::Model, T2::Model, T3::Model, T4::Model, T5::Model, T6::Model, T7::Model, T8::Model, T9::Model, T10::Model, T11::Model, T12::Model, T13::Model, T14::Model, T15::Model)) -> bool {
        T0::spec_encodable(m.0) && T1::spec_encodable(m.1) && T2::spec_encodable(m.2) && T3::spec_encodable(m.3) && T4::spec_encodable(m.4) && T5::spec_encodable(m.5) && T6::spec_encodable(m.6) && T7::spec_encodable(m.7) && T8::spec_encodable(m.8) && T9::spec_encodable(m.9) && T10::spec_encodable(m.10) && T11::spec_encodable(m.11) && T12::spec_encodable(m.12) && T13::spec_encodable(m.13) && T14::spec_encodable(m.14) && T15::spec_encodable(m.15)
    }

    open spec fn spec_decode(bytes: Seq<u8>) -> Option<((T0::Model, T1::Model, T2::Model, T3::Model, T4::Model, T5::Model, T6::Model, T7::Model, T8::Model, T9::Model, T10::Model, T11::Model, T12::Model, T13::Model, T14::Model, T15::Model), nat)> {
        match T0::spec_decode(bytes.subrange((0) as int, bytes.len() as int)) { None => None, Some((a0, n0)) => if 0 + n0 > bytes.len() { None } else { match T1::spec_decode(bytes.subrange((0 + n0) as int, bytes.len() as int)) { None => None, Some((a1, n1)) => if 0 + n0 + n1 > bytes.len() { None } else { match T2::spec_decode(bytes.subrange((0 + n0 + n1) as int, bytes.len() as int)) { None => None, Some((a2, n2)) => if 0 + n0 + n1 + n2 > bytes.len() { None } else { match T3::spec_decode(bytes.subrange((0 + n0 + n1 + n2) as int, bytes.len() as int)) { None => None, Some((a3, n3)) => if 0 + n0 + n1 + n2 + n3 > bytes.len() { None } else { match T4::spec_decode(bytes.subrange((0 + n0 + n1 + n2 + n3) as int, bytes.len() as int)) { None => None, Some((a4, n4)) => if 0 + n0 + n1 + n2 + n3 + n4 > bytes.len() { None } else { match T5::spec_decode(bytes.subrange((0 + n0 + n1 + n2 + n3 + n4) as int, bytes.len() as int)) { None => None, Some((a5, n5)) => if 0 + n0 + n1 + n2 + n3 + n4 + n5 > bytes.len() { None } else { match T6::spec_decode(bytes.subrange((0 + n0 + n1 + n2 + n3 + n4 + n5) as int, bytes.len() as int)) { None => None, Some((a6, n6)) => if 0 + n0 + n1 + n2 + n3 + n4 + n5 + n6 > bytes.len() { None } else { match T7::spec_decode(bytes.subrange((0 + n0 + n1 + n2 + n3 + n4 + n5 + n6) as int, bytes.len() as int)) { None => None, Some((a7, n7)) => if 0 + n0 + n1 + n2 + n3 + n4 + n5 + n6 + n7 > bytes.len() { None } else { match T8::spec_decode(bytes.subrange((0 + n0 + n1 + n2 + n3 + n4 + n5 + n6 + n7) as int, bytes.len() as int)) { None => None, Some((a8, n8)) => if 0 + n0 + n1 + n2 + n3 + n4 + n5 + n6 + n7 + n8 > bytes.len() { None } else { match T9::spec_decode(bytes.subrange((0 + n0 + n1 + n2 + n3 + n4 + n5 + n6 + n7 + n8) as int, bytes.len() as int)) { None => None, Some((a9, n9)) => if 0 + n0 + n1 + n2 + n3 + n4 + n5 + n6 + n7 + n8 + n9 > bytes.len() { None } else { match T10::spec_decode(bytes.subrange((0 + n0 + n1 + n2 + n3 + n4 + n5 + n6 + n7 + n8 + n9) as int, bytes.len() as int)) { None => None, Some((a10, n10)) => if 0 + n0 + n1 + n2 + n3 + n4 + n5 + n6 + n7 + n8 + n9 + n10 > bytes.len() { None } else { match T11::spec_decode(bytes.subrange((0 + n0 + n1 + n2 + n3 + n4 + n5 + n6 + n7 + n8 + n9 + n10) as int, bytes.len() as int)) { None => None, Some((a11, n11)) => if 0 + n0 + n1 + n2 + n3 + n4 + n5 + n6 + n7 + n8 + n9 + n10 + n11 > bytes.len() { None } else { match T12::spec_decode(bytes.subrange((0 + n0 + n1 + n2 + n3 + n4 + n5 + n6 + n7 + n8 + n9 + n10 + n11) as int, bytes.len() as int)) { None => None, Some((a12, n12)) => if 0 + n0 + n1 + n2 + n3 + n4 + n5 + n6 + n7 + n8 + n9 + n10 + n11 + n12 > bytes.len() { None } else { match T13::spec_decode(bytes.subrange((0 + n0 + n1 + n2 + n3 + n4 + n5 + n6 + n7 + n8 + n9 + n10 + n11 + n12) as int, bytes.len() as int)) { None => None, Some((a13, n13)) => if 0 + n0 + n1 + n2 + n3 + n4 + n5 + n6 + n7 + n8 + n9 + n10 + n11 + n12 + n13 > bytes.len() { None } else { match T14::spec_decode(bytes.subrange((0 + n0 + n1 + n2 + n3 + n4 + n5 + n6 + n7 + n8 + n9 + n10 + n11 + n12 + n13) as int, bytes.len() as int)) { None => None, Some((a14, n14)) => if 0 + n0 + n1 + n2 + n3 + n4 + n5 + n6 + n7 + n8 + n9 + n10 + n11 + n12 + n13 + n14 > bytes.len() { None } else { match T15::spec_decode(bytes.subrange((0 + n0 + n1 + n2 + n3 + n4 + n5 + n6 + n7 + n8 + n9 + n10 + n11 + n12 + n13 + n14) as int, bytes.len() as int)) { None => None, Some((a15, n15)) => if 0 + n0 + n1 + n2 + n3 + n4 + n5 + n6 + n7 + n8 + n9 + n10 + n11 + n12 + n13 + n14 + n15 > bytes.len() { None } else { Some(((a0, a1, a2, a3, a4, a5, a6, a7, a8, a9, a10, a11, a12, a13, a14, a15), 0 + n0 + n1 + n2 + n3 + n4 + n5 + n6 + n7 + n8 + n9 + n10 + n11 + n12 + n13 + n14 + n15 as nat)) } } } } } } } } } } } } } } } } } } } } } } } } } } } } } } } }
    }

    open spec fn spec_faithful() -> bool {
        T0::spec_faithful() && T1::spec_faithful() && T2::spec_faithful() && T3::spec_faithful() && T4::spec_faithful() && T5::spec_faithful() && T6::spec_faithful() && T7::spec_faithful() && T8::spec_faithful() && T9::spec_faithful() && T10::spec_faithful() && T11::spec_faithful() && T12::spec_faithful() && T13::spec_faithful() && T14::spec_faithful() && T15::spec_faithful()
    }

    #[verifier::rlimit(100)]
    #[verifier::spinoff_prover]
    proof fn lemma_round_trip(m: (T0::Model, T1::Model, T2::Model, T3::Model, T4::Model, T5::Model, T6::Model, T7::Model, T8::Model, T9::Model, T10::Model, T11::Model, T12::Model, T13::Model, T14::Model, T15::Model), bytes: Seq<u8>, rest: Seq<u8>) {
        let k1 = choose|k1: int| 0 <= k1 <= bytes.len() && #[trigger] T0::spec_encodes(m.0, bytes.subrange(0, k1)) && (exists|k2: int| k1 <= k2 <= bytes.len() && #[trigger] T1::spec_encodes(m.1, bytes.subrange(k1, k2)) && (exists|k3: int| k2 <= k3 <= bytes.len() && #[trigger] T2::spec_encodes(m.2, bytes.subrange(k2, k3)) && (exists|k4: int| k3 <= k4 <= bytes.len() && #[trigger] T3::spec_encodes(m.3, bytes.subrange(k3, k4)) && (exists|k5: int| k4 <= k5 <= bytes.len() && #[trigger] T4::spec_encodes(m.4, bytes.subrange(k4, k5)) && (exists|k6: int| k5 <= k6 <= bytes.len() && #[trigger] T5::spec_encodes(m.5, bytes.subrange(k5, k6)) && (exists|k7: int| k6 <= k7 <= bytes.len() && #[trigger] T6::spec_encodes(m.6, bytes.subrange(k6, k7)) && (exists|k8: int| k7 <= k8 <= bytes.len() && #[trigger] T7::spec_encodes(m.7, bytes.subrange(k7, k8)) && (exists|k9: int| k8 <= k9 <= bytes.len() && #[trigger] T8::spec_encodes(m.8, bytes.subrange(k8, k9)) && (exists|k10: int| k9 <= k10 <= bytes.len() && #[trigger] T9::spec_encodes(m.9, bytes.subrange(k9, k10)) && (exists|k11: int| k10 <= k11 <= bytes.len() && #[trigger] T10::spec_encodes(m.10, bytes.subrange(k10, k11)) && (exists|k12: int| k11 <= k12 <= bytes.len() && #[trigger] T11::spec_encodes(m.11, bytes.subrange(k11, k12)) && (exists|k13: int| k12 <= k13 <= bytes.len() && #[trigger] T12::spec_encodes(m.12, bytes.subrange(k12, k13)) && (exists|k14: int| k13 <= k14 <= bytes.len() && #[trigger] T13::spec_encodes(m.13, bytes.subrange(k13, k14)) && (exists|k15: int| k14 <= k15 <= bytes.len() && #[trigger] T14::spec_encodes(m.14, bytes.subrange(k14, k15)) && (T15::spec_encodes(m.15, bytes.subrange(k15, bytes.len() as int)))))))))))))))));
        let k2 = choose|k2: int| k1 <= k2 <= bytes.len() && #[trigger] T1::spec_encodes(m.1, bytes.subrange(k1, k2)) && (exists|k3: int| k2 <= k3 <= bytes.len() && #[trigger] T2::spec_encodes(m.2, bytes.subrange(k2, k3)) && (exists|k4: int| k3 <= k4 <= bytes.len() && #[trigger] T3::spec_encodes(m.3, bytes.subrange(k3, k4)) && (exists|k5: int| k4 <= k5 <= bytes.len() && #[trigger] T4::spec_encodes(m.4, bytes.subrange(k4, k5)) && (exists|k6: int| k5 <= k6 <= bytes.len() && #[trigger] T5::spec_encodes(m.5, bytes.subrange(k5, k6)) && (exists|k7: int| k6 <= k7 <= bytes.len() && #[trigger] T6::spec_encodes(m.6, bytes.subrange(k6, k7)) && (exists|k8: int| k7 <= k8 <= bytes.len() && #[trigger] T7::spec_encodes(m.7, bytes.subrange(k7, k8)) && (exists|k9: int| k8 <= k9 <= bytes.len() && #[trigger] T8::spec_encodes(m.8, bytes.subrange(k8, k9)) && (exists|k10: int| k9 <= k10 <= bytes.len() && #[trigger] T9::spec_encodes(m.9, bytes.subrange(k9, k10)) && (exists|k11: int| k10 <= k11 <= bytes.len() && #[trigger] T10::spec_encodes(m.10, bytes.subrange(k10, k11)) && (exists|k12: int| k11 <= k12 <= bytes.len() && #[trigger] T11::spec_encodes(m.11, bytes.subrange(k11, k12)) && (exists|k13: int| k12 <= k13 <= bytes.len() && #[trigger] T12::spec_encodes(m.12, bytes.subrange(k12, k13)) && (exists|k14: int| k13 <= k14 <= bytes.len() && #[trigger] T13::spec_encodes(m.13, bytes.subrange(k13, k14)) && (exists|k15: int| k14 <= k15 <= bytes.len() && #[trigger] T14::spec_encodes(m.14, bytes.subrange(k14, k15)) && (T15::spec_encodes(m.15, bytes.subrange(k15, bytes.len() as int))))))))))))))));
        let k3 = choose|k3: int| k2 <= k3 <= bytes.len() && #[trigger] T2::spec_encodes(m.2, bytes.subrange(k2, k3)) && (exists|k4: int| k3 <= k4 <= bytes.len() && #[trigger] T3::spec_encodes(m.3, bytes.subrange(k3, k4)) && (exists|k5: int| k4 <= k5 <= bytes.len() && #[trigger] T4::spec_encodes(m.4, bytes.subrange(k4, k5)) && (exists|k6: int| k5 <= k6 <= bytes.len() && #[trigger] T5::spec_encodes(m.5, bytes.subrange(k5, k6)) && (exists|k7: int| k6 <= k7 <= bytes.len() && #[trigger] T6::spec_encodes(m.6, bytes.subrange(k6, k7)) && (exists|k8: int| k7 <= k8 <= bytes.len() && #[trigger] T7::spec_encodes(m.7, bytes.subrange(k7, k8)) && (exists|k9: int| k8 <= k9 <= bytes.len() && #[trigger] T8::spec_encodes(m.8, bytes.subrange(k8, k9)) && (exists|k10: int| k9 <= k10 <= bytes.len() && #[trigger] T9::spec_encodes(m.9, bytes.subrange(k9, k10)) && (exists|k11: int| k10 <= k11 <= bytes.len() && #[trigger] T10::spec_encodes(m.10, bytes.subrange(k10, k11)) && (exists|k12: int| k11 <= k12 <= bytes.len() && #[trigger] T11::spec_encodes(m.11, bytes.subrange(k11, k12)) && (exists|k13: int| k12 <= k13 <= bytes.len() && #[trigger] T12::spec_encodes(m.12, bytes.subrange(k12, k13)) && (exists|k14: int| k13 <= k14 <= bytes.len() && #[trigger] T13::spec_encodes(m.13, bytes.subrange(k13, k14)) && (exists|k15: int| k14 <= k15 <= bytes.len() && #[trigger] T14::spec_encodes(m.14, bytes.subrange(k14, k15)) && (T15::spec_encodes(m.15, bytes.subrange(k15, bytes.len() as int)))))))))))))));
        let k4 = choose|k4: int| k3 <= k4 <= bytes.len() && #[trigger] T3::spec_encodes(m.3, bytes.subrange(k3, k4)) && (exists|k5: int| k4 <= k5 <= bytes.len() && #[trigger] T4::spec_encodes(m.4, bytes.subrange(k4, k5)) && (exists|k6: int| k5 <= k6 <= bytes.len() && #[trigger] T5::spec_encodes(m.5, bytes.subrange(k5, k6)) && (exists|k7: int| k6 <= k7 <= bytes.len() && #[trigger] T6::spec_encodes(m.6, bytes.subrange(k6, k7)) && (exists|k8: int| k7 <= k8 <= bytes.len() && #[trigger] T7::spec_encodes(m.7, bytes.subrange(k7, k8)) && (exists|k9: int| k8 <= k9 <= bytes.len() && #[trigger] T8::spec_encodes(m.8, bytes.subrange(k8, k9)) && (exists|k10: int| k9 <= k10 <= bytes.len() && #[trigger] T9::spec_encodes(m.9, bytes.subrange(k9, k10)) && (exists|k11: int| k10 <= k11 <= bytes.len() && #[trigger] T10::spec_encodes(m.10, bytes.subrange(k10, k11)) && (exists|k12: int| k11 <= k12 <= bytes.len() && #[trigger] T11::spec_encodes(m.11, bytes.subrange(k11, k12)) && (exists|k13: int| k12 <= k13 <= bytes.len() && #[trigger] T12::spec_encodes(m.12, bytes.subrange(k12, k13)) && (exists|k14: int| k13 <= k14 <= bytes.len() && #[trigger] T13::spec_encodes(m.13, bytes.subrange(k13, k14)) && (exists|k15: int| k14 <= k15 <= bytes.len() && #[trigger] T14::spec_encodes(m.14, bytes.subrange(k14, k15)) && (T15::spec_encodes(m.15, bytes.subrange(k15, bytes.len() as int))))))))))))));
        let k5 = choose|k5: int| k4 <= k5 <= bytes.len() && #[trigger] T4::spec_encodes(m.4, bytes.subrange(k4, k5)) && (exists|k6: int| k5 <= k6 <= bytes.len() && #[trigger] T5::spec_encodes(m.5, bytes.subrange(k5, k6)) && (exists|k7: int| k6 <= k7 <= bytes.len() && #[trigger] T6::spec_encodes(m.6, bytes.subrange(k6, k7)) && (exists|k8: int| k7 <= k8 <= bytes.len() && #[trigger] T7::spec_encodes(m.7, bytes.subrange(k7, k8)) && (exists|k9: int| k8 <= k9 <= bytes.len() && #[trigger] T8::spec_encodes(m.8, bytes.subrange(k8, k9)) && (exists|k10: int| k9 <= k10 <= bytes.len() && #[trigger] T9::spec_encodes(m.9, bytes.subrange(k9, k10)) && (exists|k11: int| k10 <= k11 <= bytes.len() && #[trigger] T10::spec_encodes(m.10, bytes.subrange(k10, k11)) && (exists|k12: int| k11 <= k12 <= bytes.len() && #[trigger] T11::spec_encodes(m.11, bytes.subrange(k11, k12)) && (exists|k13: int| k12 <= k13 <= bytes.len() && #[trigger] T12::spec_encodes(m.12, bytes.subrange(k12, k13)) && (exists|k14: int| k13 <= k14 <= bytes.len() && #[trigger] T13::spec_encodes(m.13, bytes.subrange(k13, k14)) && (exists|k15: int| k14 <= k15 <= bytes.len() && #[trigger] T14::spec_encodes(m.14, bytes.subrange(k14, k15)) && (T15::spec_encodes(m.15, bytes.subrange(k15, bytes.len() as int)))))))))))));
        let k6 = choose|k6: int| k5 <= k6 <= bytes.len() && #[trigger] T5::spec_encodes(m.5, bytes.subrange(k5, k6)) && (exists|k7: int| k6 <= k7 <= bytes.len() && #[trigger] T6::spec_encodes(m.6, bytes.subrange(k6, k7)) && (exists|k8: int| k7 <= k8 <= bytes.len() && #[trigger] T7::spec_encodes(m.7, bytes.subrange(k7, k8)) && (exists|k9: int| k8 <= k9 <= bytes.len() && #[trigger] T8::spec_encodes(m.8, bytes.subrange(k8, k9)) && (exists|k10: int| k9 <= k10 <= bytes.len() && #[trigger] T9::spec_encodes(m.9, bytes.subrange(k9, k10)) && (exists|k11: int| k10 <= k11 <= bytes.len() && #[trigger] T10::spec_encodes(m.10, bytes.subrange(k10, k11)) && (exists|k12: int| k11 <= k12 <= bytes.len() && #[trigger] T11::spec_encodes(m.11, bytes.subrange(k11, k12)) && (exists|k13: int| k12 <= k13 <= bytes.len() && #[trigger] T12::spec_encodes(m.12, bytes.subrange(k12, k13)) && (exists|k14: int| k13 <= k14 <= bytes.len() && #[trigger] T13::spec_encodes(m.13, bytes.subrange(k13, k14)) && (exists|k15: int| k14 <= k15 <= bytes.len() && #[trigger] T14::spec_encodes(m.14, bytes.subrange(k14, k15)) && (T15::spec_encodes(m.15, bytes.subrange(k15, bytes.len() as int))))))))))));
        let k7 = choose|k7: int| k6 <= k7 <= bytes.len() && #[trigger] T6::spec_encodes(m.6, bytes.subrange(k6, k7)) && (exists|k8: int| k7 <= k8 <= bytes.len() && #[trigger] T7::spec_encodes(m.7, bytes.subrange(k7, k8)) && (exists|k9: int| k8 <= k9 <= bytes.len() && #[trigger] T8::spec_encodes(m.8, bytes.subrange(k8, k9)) && (exists|k10: int| k9 <= k10 <= bytes.len() && #[trigger] T9::spec_encodes(m.9, bytes.subrange(k9, k10)) && (exists|k11: int| k10 <= k11 <= bytes.len() && #[trigger] T10::spec_encodes(m.10, bytes.subrange(k10, k11)) && (exists|k12: int| k11 <= k12 <= bytes.len() && #[trigger] T11::spec_encodes(m.11, bytes.subrange(k11, k12)) && (exists|k13: int| k12 <= k13 <= bytes.len() && #[trigger] T12::spec_encodes(m.12, bytes.subrange(k12, k13)) && (exists|k14: int| k13 <= k14 <= bytes.len() && #[trigger] T13::spec_encodes(m.13, bytes.subrange(k13, k14)) && (exists|k15: int| k14 <= k15 <= bytes.len() && #[trigger] T14::spec_encodes(m.14, bytes.subrange(k14, k15)) && (T15::spec_encodes(m.15, bytes.subrange(k15, bytes.len() as int)))))))))));
        let k8 = choose|k8: int| k7 <= k8 <= bytes.len() && #[trigger] T7::spec_encodes(m.7, bytes.subrange(k7, k8)) && (exists|k9: int| k8 <= k9 <= bytes.len() && #[trigger] T8::spec_encodes(m.8, bytes.subrange(k8, k9)) && (exists|k10: int| k9 <= k10 <= bytes.len() && #[trigger] T9::spec_encodes(m.9, bytes.subrange(k9, k10)) && (exists|k11: int| k10 <= k11 <= bytes.len() && #[trigger] T10::spec_encodes(m.10, bytes.subrange(k10, k11)) && (exists|k12: int| k11 <= k12 <= bytes.len() && #[trigger] T11::spec_encodes(m.11, bytes.subrange(k11, k12)) && (exists|k13: int| k12 <= k13 <= bytes.len() && #[trigger] T12::spec_encodes(m.12, bytes.subrange(k12, k13)) && (exists|k14: int| k13 <= k14 <= bytes.len() && #[trigger] T13::spec_encodes(m.13, bytes.subrange(k13, k14)) && (exists|k15: int| k14 <= k15 <= bytes.len() && #[trigger] T14::spec_encodes(m.14, bytes.subrange(k14, k15)) && (T15::spec_encodes(m.15, bytes.subrange(k15, bytes.len() as int))))))))));
        let k9 = choose|k9: int| k8 <= k9 <= bytes.len() && #[trigger] T8::spec_encodes(m.8, bytes.subrange(k8, k9)) && (exists|k10: int| k9 <= k10 <= bytes.len() && #[trigger] T9::spec_encodes(m.9, bytes.subrange(k9, k10)) && (exists|k11: int| k10 <= k11 <= bytes.len() && #[trigger] T10::spec_encodes(m.10, bytes.subrange(k10, k11)) && (exists|k12: int| k11 <= k12 <= bytes.len() && #[trigger] T11::spec_encodes(m.11, bytes.subrange(k11, k12)) && (exists|k13: int| k12 <= k13 <= bytes.len() && #[trigger] T12::spec_encodes(m.12, bytes.subrange(k12, k13)) && (exists|k14: int| k13 <= k14 <= bytes.len() && #[trigger] T13::spec_encodes(m.13, bytes.subrange(k13, k14)) && (exists|k15: int| k14 <= k15 <= bytes.len() && #[trigger] T14::spec_encodes(m.14, bytes.subrange(k14, k15)) && (T15::spec_encodes(m.15, bytes.subrange(k15, bytes.len() as int)))))))));
        let k10 = choose|k10: int| k9 <= k10 <= bytes.len() && #[trigger] T9::spec_encodes(m.9, bytes.subrange(k9, k10)) && (exists|k11: int| k10 <= k11 <= bytes.len() && #[trigger] T10::spec_encodes(m.10, bytes.subrange(k10, k11)) && (exists|k12: int| k11 <= k12 <= bytes.len() && #[trigger] T11::spec_encodes(m.11, bytes.subrange(k11, k12)) && (exists|k13: int| k12 <= k13 <= bytes.len() && #[trigger] T12::spec_encodes(m.12, bytes.subrange(k12, k13)) && (exists|k14: int| k13 <= k14 <= bytes.len() && #[trigger] T13::spec_encodes(m.13, bytes.subrange(k13, k14)) && (exists|k15: int| k14 <= k15 <= bytes.len() && #[trigger] T14::spec_encodes(m.14, bytes.subrange(k14, k15)) && (T15::spec_encodes(m.15, bytes.subrange(k15, bytes.len() as int))))))));
        let k11 = choose|k11: int| k10 <= k11 <= bytes.len() && #[trigger] T10::spec_encodes(m.10, bytes.subrange(k10, k11)) && (exists|k12: int| k11 <= k12 <= bytes.len() && #[trigger] T11::spec_encodes(m.11, bytes.subrange(k11, k12)) && (exists|k13: int| k12 <= k13 <= bytes.len() && #[trigger] T12::spec_encodes(m.12, bytes.subrange(k12, k13)) && (exists|k14: int| k13 <= k14 <= bytes.len() && #[trigger] T13::spec_encodes(m.13, bytes.subrange(k13, k14)) && (exists|k15: int| k14 <= k15 <= bytes.len() && #[trigger] T14::spec_encodes(m.14, bytes.subrange(k14, k15)) && (T15::spec_encodes(m.15, bytes.subrange(k15, bytes.len() as int)))))));
        let k12 = choose|k12: int| k11 <= k12 <= bytes.len() && #[trigger] T11::spec_encodes(m.11, bytes.subrange(k11, k12)) && (exists|k13: int| k12 <= k13 <= bytes.len() && #[trigger] T12::spec_encodes(m.12, bytes.subrange(k12, k13)) && (exists|k14: int| k13 <= k14 <= bytes.len() && #[trigger] T13::spec_encodes(m.13, bytes.subrange(k13, k14)) && (exists|k15: int| k14 <= k15 <= bytes.len() && #[trigger] T14::spec_encodes(m.14, bytes.subrange(k14, k15)) && (T15::spec_encodes(m.15, bytes.subrange(k15, bytes.len() as int))))));
        let k13 = choose|k13: int| k12 <= k13 <= bytes.len() && #[trigger] T12::spec_encodes(m.12, bytes.subrange(k12, k13)) && (exists|k14: int| k13 <= k14 <= bytes.len() && #[trigger] T13::spec_encodes(m.13, bytes.subrange(k13, k14)) && (exists|k15: int| k14 <= k15 <= bytes.len() && #[trigger] T14::spec_encodes(m.14, bytes.subrange(k14, k15)) && (T15::spec_encodes(m.15, bytes.subrange(k15, bytes.len() as int)))));
        let k14 = choose|k14: int| k13 <= k14 <= bytes.len() && #[trigger] T13::spec_encodes(m.13, bytes.subrange(k13, k14)) && (exists|k15: int| k14 <= k15 <= bytes.len() && #[trigger] T14::spec_encodes(m.14, bytes.subrange(k14, k15)) && (T15::spec_encodes(m.15, bytes.subrange(k15, bytes.len() as int))));
        let k15 = choose|k15: int| k14 <= k15 <= bytes.len() && #[trigger] T14::spec_encodes(m.14, bytes.subrange(k14, k15)) && (T15::spec_encodes(m.15, bytes.subrange(k15, bytes.len() as int)));
        lemma_field_round_trip::<T0>(m.0, bytes, rest, 0, k1);
        lemma_field_round_trip::<T1>(m.1, bytes, rest, k1, k2);
        lemma_field_round_trip::<T2>(m.2, bytes, rest, k2, k3);
        lemma_field_round_trip::<T3>(m.3, bytes, rest, k3, k4);
        lemma_field_round_trip::<T4>(m.4, bytes, rest, k4, k5);
        lemma_field_round_trip::<T5>(m.5, bytes, rest, k5, k6);
        lemma_field_round_trip::<T6>(m.6, bytes, rest, k6, k7);
        lemma_field_round_trip::<T7>(m.7, bytes, rest, k7, k8);
        lemma_field_round_trip::<T8>(m.8, bytes, rest, k8, k9);
        lemma_field_round_trip::<T9>(m.9, bytes, rest, k9, k10);
        lemma_field_round_trip::<T10>(m.10, bytes, rest, k10, k11);
        lemma_field_round_trip::<T11>(m.11, bytes, rest, k11, k12);
        lemma_field_round_trip::<T12>(m.12, bytes, rest, k12, k13);
        lemma_field_round_trip::<T13>(m.13, bytes, rest, k13, k14);
        lemma_field_round_trip::<T14>(m.14, bytes, rest, k14, k15);
        lemma_field_round_trip::<T15>(m.15, bytes, rest, k15, bytes.len() as int);
    }

    proof fn lemma_decode_bounded(bytes: Seq<u8>) {
    }
}

impl<T0: Serialize, T1: Serialize, T2: Serialize, T3: Serialize, T4: Serialize, T5: Serialize, T6: Serialize, T7: Serialize, T8: Serialize, T9: Serialize, T10: Serialize, T11: Serialize, T12: Serialize, T13: Serialize, T14: Serialize, T15: Serialize> Serialize for (T0, T1, T2, T3, T4, T5, T6, T7, T8, T9, T10, T11, T12, T13, T14, T15) {
    #[verifier::rlimit(100)]
    #[verifier::spinoff_prover]
    fn serialize<W: WriteUninit>(&self, serializer: &mut Serializer<W>) -> (r: Result<()>) {
        let ghost w0 = serializer.written();
        self.0.serialize(serializer)?;
        let ghost w1 = serializer.written();
        self.1.serialize(serializer)?;
        let ghost w2 = serializer.written();
        self.2.serialize(serializer)?;
        let ghost w3 = serializer.written();
        self.3.serialize(serializer)?;
        let ghost w4 = serializer.written();
        self.4.serialize(serializer)?;
        let ghost w5 = serializer.written();
        self.5.serialize(serializer)?;
        let ghost w6 = serializer.written();
        self.6.serialize(serializer)?;
        let ghost w7 = serializer.written();
        self.7.serialize(serializer)?;
        let ghost w8 = serializer.written();
        self.8.serialize(serializer)?;
        let ghost w9 = serializer.written();
        self.9.serialize(serializer)?;
        let ghost w10 = serializer.written();
        self.10.serialize(serializer)?;
        let ghost w11 = serializer.written();
        self.11.serialize(serializer)?;
        let ghost w12 = serializer.written();
        self.12.serialize(serializer)?;
        let ghost w13 = serializer.written();
        self.13.serialize(serializer)?;
        let ghost w14 = serializer.written();
        self.14.serialize(serializer)?;
        let ghost w15 = serializer.written();
        self.15.serialize(serializer)?;
        let ghost w16 = serializer.written();
        proof {
            if T0::spec_faithful() && T1::spec_faithful() && T2::spec_faithful() && T3::spec_faithful() && T4::spec_faithful() && T5::spec_faithful() && T6::spec_faithful() && T7::spec_faithful() && T8::spec_faithful() && T9::spec_faithful() && T10::spec_faithful() && T11::spec_faithful() && T12::spec_faithful() && T13::spec_faithful() && T14::spec_faithful() && T15::spec_faithful() {
                lemma_extends_trans(w0, w1, w2);
                lemma_extends_trans(w0, w2, w3);
                lemma_extends_trans(w0, w3, w4);
                lemma_extends_trans(w0, w4, w5);
                lemma_extends_trans(w0, w5, w6);
                lemma_extends_trans(w0, w6, w7);
                lemma_extends_trans(w0, w7, w8);
                lemma_extends_trans(w0, w8, w9);
                lemma_extends_trans(w0, w9, w10);
                lemma_extends_trans(w0, w10, w11);
                lemma_extends_trans(w0, w11, w12);
                lemma_extends_trans(w0, w12, w13);
                lemma_extends_trans(w0, w13, w14);
                lemma_extends_trans(w0, w14, w15);
                lemma_extends_trans(w0, w15, w16);
                let all = appended(w0, w16);
                let m = self.model();
                let k1 = (w1.len() - w0.len()) as int;
                let k2 = (w2.len() - w0.len()) as int;
                let k3 = (w3.len() - w0.len()) as int;
                let k4 = (w4.len() - w0.len()) as int;
                let k5 = (w5.len() - w0.len()) as int;
                let k6 = (w6.len() - w0.len()) as int;
                let k7 = (w7.len() - w0.len()) as int;
                let k8 = (w8.len() - w0.len()) as int;
                let k9 = (w9.len() - w0.len()) as int;
                let k10 = (w10.len() - w0.len()) as int;
                let k11 = (w11.len() - w0.len()) as int;
                let k12 = (w12.len() - w0.len()) as int;
                let k13 = (w13.len() - w0.len()) as int;
                let k14 = (w14.len() - w0.len()) as int;
                let k15 = (w15.len() - w0.len()) as int;
                assert(all.subrange(0, k1) =~= appended(w0, w1));
                assert(T0::spec_encodes(m.0, all.subrange(0, k1)));
                assert(all.subrange(k1, k2) =~= appended(w1, w2));
                assert(T1::spec_encodes(m.1, all.subrange(k1, k2)));
                assert(all.subrange(k2, k3) =~= appended(w2, w3));
                assert(T2::spec_encodes(m.2, all.subrange(k2, k3)));
                assert(all.subrange(k3, k4) =~= appended(w3, w4));
                assert(T3::spec_encodes(m.3, all.subrange(k3, k4)));
                assert(all.subrange(k4, k5) =~= appended(w4, w5));
                assert(T4::spec_encodes(m.4, all.subrange(k4, k5)));
                assert(all.subrange(k5, k6) =~= appended(w5, w6));
                assert(T5::spec_encodes(m.5, all.subrange(k5, k6)));
                assert(all.subrange(k6, k7) =~= appended(w6, w7));
                assert(T6::spec_encodes(m.6, all.subrange(k6, k7)));
                assert(all.subrange(k7, k8) =~= appended(w7, w8));
                assert(T7::spec_encodes(m.7, all.subrange(k7, k8)));
                assert(all.subrange(k8, k9) =~= appended(w8, w9));
                assert(T8::spec_encodes(m.8, all.subrange(k8, k9)));
                assert(all.subrange(k9, k10) =~= appended(w9, w10));
                assert(T9::spec_encodes(m.9, all.subrange(k9, k10)));
                assert(all.subrange(k10, k11) =~= appended(w10, w11));
                assert(T10::spec_encodes(m.10, all.subrange(k10, k11)));
                assert(all.subrange(k11, k12) =~= appended(w11, w12));
                assert(T11::spec_encodes(m.11, all.subrange(k11, k12)));
                assert(all.subrange(k12, k13) =~= appended(w12, w13));
                assert(T12::spec_encodes(m.12, all.subrange(k12, k13)));
                assert(all.subrange(k13, k14) =~= appended(w13, w14));
                assert(T13::spec_encodes(m.13, all.subrange(k13, k14)));
                assert(all.subrange(k14, k15) =~= appended(w14, w15));
                assert(T14::spec_encodes(m.14, all.subrange(k14, k15)));
                assert(all.subrange(k15, all.len() as int) =~= appended(w15, w16));
                assert(T15::spec_encodes(m.15, all.subrange(k15, all.len() as int)));
            }
        }
        Ok(())
    }
}

impl<T0: Deserialize, T1: Deserialize, T2: Deserialize, T3: Deserialize, T4: Deserialize, T5: Deserialize, T6: Deserialize, T7: Deserialize, T8: Deserialize, T9: Deserialize, T10: Deserialize, T11: Deserialize, T12: Deserialize, T13: Deserialize, T14: Deserialize, T15: Deserialize> Deserialize for (T0, T1, T2, T3, T4, T5, T6, T7, T8, T9, T10, T11, T12, T13, T14, T15) {
    #[verifier::rlimit(100)]
    #[verifier::spinoff_prover]
    fn deserialize<R: ReadUninit>(deserializer: &mut Deserializer<R>) -> (r: Result<Self>) {
        let ghost start = deserializer.unread();
        let ghost u0 = deserializer.unread();
        proof { if T0::spec_faithful() && T1::spec_faithful() && T2::spec_faithful() && T3::spec_faithful() && T4::spec_faithful() && T5::spec_faithful() && T6::spec_faithful() && T7::spec_faithful() && T8::spec_faithful() && T9::spec_faithful() && T10::spec_faithful() && T11::spec_faithful() && T12::spec_faithful() && T13::spec_faithful() && T14::spec_faithful() && T15::spec_faithful() { assert(u0 =~= start.subrange((start.len() - u0.len()) as int, start.len() as int)); } }
        let a0 = T0::deserialize(deserializer)?;
        proof { if T0::spec_faithful() && T1::spec_faithful() && T2::spec_faithful() && T3::spec_faithful() && T4::spec_faithful() && T5::spec_faithful() && T6::spec_faithful() && T7::spec_faithful() && T8::spec_faithful() && T9::spec_faithful() && T10::spec_faithful() && T11::spec_faithful() && T12::spec_faithful() && T13::spec_faithful() && T14::spec_faithful() && T15::spec_faithful() { T0::lemma_decode_bounded(u0); } }
        let ghost u1 = deserializer.unread();
        proof { if T0::spec_faithful() && T1::spec_faithful() && T2::spec_faithful() && T3::spec_faithful() && T4::spec_faithful() && T5::spec_faithful() && T6::spec_faithful() && T7::spec_faithful() && T8::spec_faithful() && T9::spec_faithful() && T10::spec_faithful() && T11::spec_faithful() && T12::spec_faithful() && T13::spec_faithful() && T14::spec_faithful() && T15::spec_faithful() { assert(u1 =~= start.subrange((start.len() - u1.len()) as int, start.len() as int)); } }
        let a1 = T1::deserialize(deserializer)?;
        proof { if T0::spec_faithful() && T1::spec_faithful() && T2::spec_faithful() && T3::spec_faithful() && T4::spec_faithful() && T5::spec_faithful() && T6::spec_faithful() && T7::spec_faithful() && T8::spec_faithful() && T9::spec_faithful() && T10::spec_faithful() && T11::spec_faithful() && T12::spec_faithful() && T13::spec_faithful() && T14::spec_faithful() && T15::spec_faithful() { T1::lemma_decode_bounded(u1); } }
        let ghost u2 = deserializer.unread();
        proof { if T0::spec_faithful() && T1::spec_faithful() && T2::spec_faithful() && T3::spec_faithful() && T4::spec_faithful() && T5::spec_faithful() && T6::spec_faithful() && T7::spec_faithful() && T8::spec_faithful() && T9::spec_faithful() && T10::spec_faithful() && T11::spec_faithful() && T12::spec_faithful() && T13::spec_faithful() && T14::spec_faithful() && T15::spec_faithful() { assert(u2 =~= start.subrange((start.len() - u2.len()) as int, start.len() as int)); } }
        let a2 = T2::deserialize(deserializer)?;
        proof { if T0::spec_faithful() && T1::spec_faithful() && T2::spec_faithful() && T3::spec_faithful() && T4::spec_faithful() && T5::spec_faithful() && T6::spec_faithful() && T7::spec_faithful() && T8::spec_faithful() && T9::spec_faithful() && T10::spec_faithful() && T11::spec_faithful() && T12::spec_faithful() && T13::spec_faithful() && T14::spec_faithful() && T15::spec_faithful() { T2::lemma_decode_bounded(u2); } }
        let ghost u3 = deserializer.unread();
        proof { if T0::spec_faithful() && T1::spec_faithful() && T2::spec_faithful() && T3::spec_faithful() && T4::spec_faithful() && T5::spec_faithful() && T6::spec_faithful() && T7::spec_faithful() && T8::spec_faithful() && T9::spec_faithful() && T10::spec_faithful() && T11::spec_faithful() && T12::spec_faithful() && T13::spec_faithful() && T14::spec_faithful() && T15::spec_faithful() { assert(u3 =~= start.subrange((start.len() - u3.len()) as int, start.len() as int)); } }
        let a3 = T3::deserialize(deserializer)?;
        proof { if T0::spec_faithful() && T1::spec_faithful() && T2::spec_faithful() && T3::spec_faithful() && T4::spec_faithful() && T5::spec_faithful() && T6::spec_faithful() && T7::spec_faithful() && T8::spec_faithful() && T9::spec_faithful() && T10::spec_faithful() && T11::spec_faithful() && T12::spec_faithful() && T13::spec_faithful() && T14::spec_faithful() && T15::spec_faithful() { T3::lemma_decode_bounded(u3); } }
        let ghost u4 = deserializer.unread();
        proof { if T0::spec_faithful() && T1::spec_faithful() && T2::spec_faithful() && T3::spec_faithful() && T4::spec_faithful() && T5::spec_faithful() && T6::spec_faithful() && T7::spec_faithful() && T8::spec_faithful() && T9::spec_faithful() && T10::spec_faithful() && T11::spec_faithful() && T12::spec_faithful() && T13::spec_faithful() && T14::spec_faithful() && T15::spec_faithful() { assert(u4 =~= start.subrange((start.len() - u4.len()) as int, start.len() as int)); } }
        let a4 = T4::deserialize(deserializer)?;
        proof { if T0::spec_faithful() && T1::spec_faithful() && T2::spec_faithful() && T3::spec_faithful() && T4::spec_faithful() && T5::spec_faithful() && T6::spec_faithful() && T7::spec_faithful() && T8::spec_faithful() && T9::spec_faithful() && T10::spec_faithful() && T11::spec_faithful() && T12::spec_faithful() && T13::spec_faithful() && T14::spec_faithful() && T15::spec_faithful() { T4::lemma_decode_bounded(u4); } }
        let ghost u5 = deserializer.unread();
        proof { if T0::spec_faithful() && T1::spec_faithful() && T2::spec_faithful() && T3::spec_faithful() && T4::spec_faithful() && T5::spec_faithful() && T6::spec_faithful() && T7::spec_faithful() && T8::spec_faithful() && T9::spec_faithful() && T10::spec_faithful() && T11::spec_faithful() && T12::spec_faithful() && T13::spec_faithful() && T14::spec_faithful() && T15::spec_faithful() { assert(u5 =~= start.subrange((start.len() - u5.len()) as int, start.len() as int)); } }
        let a5 = T5::deserialize(deserializer)?;
        proof { if T0::spec_faithful() && T1::spec_faithful() && T2::spec_faithful() && T3::spec_faithful() && T4::spec_faithful() && T5::spec_faithful() && T6::spec_faithful() && T7::spec_faithful() && T8::spec_faithful() && T9::spec_faithful() && T10::spec_faithful() && T11::spec_faithful() && T12::spec_faithful() && T13::spec_faithful() && T14::spec_faithful() && T15::spec_faithful() { T5::lemma_decode_bounded(u5); } }
        let ghost u6 = deserializer.unread();
        proof { if T0::spec_faithful() && T1::spec_faithful() && T2::spec_faithful() && T3::spec_faithful() && T4::spec_faithful() && T5::spec_faithful() && T6::spec_faithful() && T7::spec_faithful() && T8::spec_faithful() && T9::spec_faithful() && T10::spec_faithful() && T11::spec_faithful() && T12::spec_faithful() && T13::spec_faithful() && T14::spec_faithful() && T15::spec_faithful() { assert(u6 =~= start.subrange((start.len() - u6.len()) as int, start.len() as int)); } }
        let a6 = T6::deserialize(deserializer)?;
        proof { if T0::spec_faithful() && T1::spec_faithful() && T2::spec_faithful() && T3::spec_faithful() && T4::spec_faithful() && T5::spec_faithful() && T6::spec_faithful() && T7::spec_faithful() && T8::spec_faithful() && T9::spec_faithful() && T10::spec_faithful() && T11::spec_faithful() && T12::spec_faithful() && T13::spec_faithful() && T14::spec_faithful() && T15::spec_faithful() { T6::lemma_decode_bounded(u6); } }
        let ghost u7 = deserializer.unread();
        proof { if T0::spec_faithful() && T1::spec_faithful() && T2::spec_faithful() && T3::spec_faithful() && T4::spec_faithful() && T5::spec_faithful() && T6::spec_faithful() && T7::spec_faithful() && T8::spec_faithful() && T9::spec_faithful() && T10::spec_faithful() && T11::spec_faithful() && T12::spec_faithful() && T13::spec_faithful() && T14::spec_faithful() && T15::spec_faithful() { assert(u7 =~= start.subrange((start.len() - u7.len()) as int, start.len() as int)); } }
        let a7 = T7::deserialize(deserializer)?;
        proof { if T0::spec_faithful() && T1::spec_faithful() && T2::spec_faithful() && T3::spec_faithful() && T4::spec_faithful() && T5::spec_faithful() && T6::spec_faithful() && T7::spec_faithful() && T8::spec_faithful() && T9::spec_faithful() && T10::spec_faithful() && T11::spec_faithful() && T12::spec_faithful() && T13::spec_faithful() && T14::spec_faithful() && T15::spec_faithful() { T7::lemma_decode_bounded(u7); } }
        let ghost u8 = deserializer.unread();
        proof { if T0::spec_faithful() && T1::spec_faithful() && T2::spec_faithful() && T3::spec_faithful() && T4::spec_faithful() && T5::spec_faithful() && T6::spec_faithful() && T7::spec_faithful() && T8::spec_faithful() && T9::spec_faithful() && T10::spec_faithful() && T11::spec_faithful() && T12::spec_faithful() && T13::spec_faithful() && T14::spec_faithful() && T15::spec_faithful() { assert(u8 =~= start.subrange((start.len() - u8.len()) as int, start.len() as int)); } }
        let a8 = T8::deserialize(deserializer)?;
        proof { if T0::spec_faithful() && T1::spec_faithful() && T2::spec_faithful() && T3::spec_faithful() && T4::spec_faithful() && T5::spec_faithful() && T6::spec_faithful() && T7::spec_faithful() && T8::spec_faithful() && T9::spec_faithful() && T10::spec_faithful() && T11::spec_faithful() && T12::spec_faithful() && T13::spec_faithful() && T14::spec_faithful() && T15::spec_faithful() { T8::lemma_decode_bounded(u8); } }
        let ghost u9 = deserializer.unread();
        proof { if T0::spec_faithful() && T1::spec_faithful() && T2::spec_faithful() && T3::spec_faithful() && T4::spec_faithful() && T5::spec_faithful() && T6::spec_faithful() && T7::spec_faithful() && T8::spec_faithful() && T9::spec_faithful() && T10::spec_faithful() && T11::spec_faithful() && T12::spec_faithful() && T13::spec_faithful() && T14::spec_faithful() && T15::spec_faithful() { assert(u9 =~= start.subrange((start.len() - u9.len()) as int, start.len() as int)); } }
        let a9 = T9::deserialize(deserializer)?;
        proof { if T0::spec_faithful() && T1::spec_faithful() && T2::spec_faithful() && T3::spec_faithful() && T4::spec_faithful() && T5::spec_faithful() && T6::spec_faithful() && T7::spec_faithful() && T8::spec_faithful() && T9::spec_faithful() && T10::spec_faithful() && T11::spec_faithful() && T12::spec_faithful() && T13::spec_faithful() && T14::spec_faithful() && T15::spec_faithful() { T9::lemma_decode_bounded(u9); } }
        let ghost u10 = deserializer.unread();
        proof { if T0::spec_faithful() && T1::spec_faithful() && T2::spec_faithful() && T3::spec_faithful() && T4::spec_faithful() && T5::spec_faithful() && T6::spec_faithful() && T7::spec_faithful() && T8::spec_faithful() && T9::spec_faithful() && T10::spec_faithful() && T11::spec_faithful() && T12::spec_faithful() && T13::spec_faithful() && T14::spec_faithful() && T15::spec_faithful() { assert(u10 =~= start.subrange((start.len() - u10.len()) as int, start.len() as int)); } }
        let a10 = T10::deserialize(deserializer)?;
        proof { if T0::spec_faithful() && T1::spec_faithful() && T2::spec_faithful() && T3::spec_faithful() && T4::spec_faithful() && T5::spec_faithful() && T6::spec_faithful() && T7::spec_faithful() && T8::spec_faithful() && T9::spec_faithful() && T10::spec_faithful() && T11::spec_faithful() && T12::spec_faithful() && T13::spec_faithful() && T14::spec_faithful() && T15::spec_faithful() { T10::lemma_decode_bounded(u10); } }
        let ghost u11 = deserializer.unread();
        proof { if T0::spec_faithful() && T1::spec_faithful() && T2::spec_faithful() && T3::spec_faithful() && T4::spec_faithful() && T5::spec_faithful() && T6::spec_faithful() && T7::spec_faithful() && T8::spec_faithful() && T9::spec_faithful() && T10::spec_faithful() && T11::spec_faithful() && T12::spec_faithful() && T13::spec_faithful() && T14::spec_faithful() && T15::spec_faithful() { assert(u11 =~= start.subrange((start.len() - u11.len()) as int, start.len() as int)); } }
        let a11 = T11::deserialize(deserializer)?;
        proof { if T0::spec_faithful() && T1::spec_faithful() && T2::spec_faithful() && T3::spec_faithful() && T4::spec_faithful() && T5::spec_faithful() && T6::spec_faithful() && T7::spec_faithful() && T8::spec_faithful() && T9::spec_faithful() && T10::spec_faithful() && T11::spec_faithful() && T12::spec_faithful() && T13::spec_faithful() && T14::spec_faithful() && T15::spec_faithful() { T11::lemma_decode_bounded(u11); } }
        let ghost u12 = deserializer.unread();
        proof { if T0::spec_faithful() && T1::spec_faithful() && T2::spec_faithful() && T3::spec_faithful() && T4::spec_faithful() && T5::spec_faithful() && T6::spec_faithful() && T7::spec_faithful() && T8::spec_faithful() && T9::spec_faithful() && T10::spec_faithful() && T11::spec_faithful() && T12::spec_faithful() && T13::spec_faithful() && T14::spec_faithful() && T15::spec_faithful() { assert(u12 =~= start.subrange((start.len() - u12.len()) as int, start.len() as int)); } }
        let a12 = T12::deserialize(deserializer)?;
        proof { if T0::spec_faithful() && T1::spec_faithful() && T2::spec_faithful() && T3::spec_faithful() && T4::spec_faithful() && T5::spec_faithful() && T6::spec_faithful() && T7::spec_faithful() && T8::spec_faithful() && T9::spec_faithful() && T10::spec_faithful() && T11::spec_faithful() && T12::spec_faithful() && T13::spec_faithful() && T14::spec_faithful() && T15::spec_faithful() { T12::lemma_decode_bounded(u12); } }
        let ghost u13 = deserializer.unread();
        proof { if T0::spec_faithful() && T1::spec_faithful() && T2::spec_faithful() && T3::spec_faithful() && T4::spec_faithful() && T5::spec_faithful() && T6::spec_faithful() && T7::spec_faithful() && T8::spec_faithful() && T9::spec_faithful() && T10::spec_faithful() && T11::spec_faithful() && T12::spec_faithful() && T13::spec_faithful() && T14::spec_faithful() && T15::spec_faithful() { assert(u13 =~= start.subrange((start.len() - u13.len()) as int, start.len() as int)); } }
        let a13 = T13::deserialize(deserializer)?;
        proof { if T0::spec_faithful() && T1::spec_faithful() && T2::spec_faithful() && T3::spec_faithful() && T4::spec_faithful() && T5::spec_faithful() && T6::spec_faithful() && T7::spec_faithful() && T8::spec_faithful() && T9::spec_faithful() && T10::spec_faithful() && T11::spec_faithful() && T12::spec_faithful() && T13::spec_faithful() && T14::spec_faithful() && T15::spec_faithful() { T13::lemma_decode_bounded(u13); } }
        let ghost u14 = deserializer.unread();
        proof { if T0::spec_faithful() && T1::spec_faithful() && T2::spec_faithful() && T3::spec_faithful() && T4::spec_faithful() && T5::spec_faithful() && T6::spec_faithful() && T7::spec_faithful() && T8::spec_faithful() && T9::spec_faithful() && T10::spec_faithful() && T11::spec_faithful() && T12::spec_faithful() && T13::spec_faithful() && T14::spec_faithful() && T15::spec_faithful() { assert(u14 =~= start.subrange((start.len() - u14.len()) as int, start.len() as int)); } }
        let a14 = T14::deserialize(deserializer)?;
        proof { if T0::spec_faithful() && T1::spec_faithful() && T2::spec_faithful() && T3::spec_faithful() && T4::spec_faithful() && T5::spec_faithful() && T6::spec_faithful() && T7::spec_faithful() && T8::spec_faithful() && T9::spec_faithful() && T10::spec_faithful() && T11::spec_faithful() && T12::spec_faithful() && T13::spec_faithful() && T14::spec_faithful() && T15::spec_faithful() { T14::lemma_decode_bounded(u14); } }
        let ghost u15 = deserializer.unread();
        proof { if T0::spec_faithful() && T1::spec_faithful() && T2::spec_faithful() && T3::spec_faithful() && T4::spec_faithful() && T5::spec_faithful() && T6::spec_faithful() && T7::spec_faithful() && T8::spec_faithful() && T9::spec_faithful() && T10::spec_faithful() && T11::spec_faithful() && T12::spec_faithful() && T13::spec_faithful() && T14::spec_faithful() && T15::spec_faithful() { assert(u15 =~= start.subrange((start.len() - u15.len()) as int, start.len() as int)); } }
        let a15 = T15::deserialize(deserializer)?;
        proof { if T0::spec_faithful() && T1::spec_faithful() && T2::spec_faithful() && T3::spec_faithful() && T4::spec_faithful() && T5::spec_faithful() && T6::spec_faithful() && T7::spec_faithful() && T8::spec_faithful() && T9::spec_faithful() && T10::spec_faithful() && T11::spec_faithful() && T12::spec_faithful() && T13::spec_faithful() && T14::spec_faithful() && T15::spec_faithful() { T15::lemma_decode_bounded(u15); } }
        proof { if T0::spec_faithful() && T1::spec_faithful() && T2::spec_faithful() && T3::spec_faithful() && T4::spec_faithful() && T5::spec_faithful() && T6::spec_faithful() && T7::spec_faithful() && T8::spec_faithful() && T9::spec_faithful() && T10::spec_faithful() && T11::spec_faithful() && T12::spec_faithful() && T13::spec_faithful() && T14::spec_faithful() && T15::spec_faithful() { assert(deserializer.unread() =~= start.subrange((start.len() - deserializer.unread().len()) as int, start.len() as int)); } }
        Ok((a0, a1, a2, a3, a4, a5, a6, a7, a8, a9, a10, a11, a12, a13, a14, a15))
    }

    #[verifier::rlimit(100)]
    #[verifier::spinoff_prover]
    fn deserialize_in_place<R: ReadUninit>(&mut self, deserializer: &mut Deserializer<R>) -> (r: Result<()>) {
        let ghost start = deserializer.unread();
        let ghost u0 = deserializer.unread();
        proof { if T0::spec_faithful() && T1::spec_faithful() && T2::spec_faithful() && T3::spec_faithful() && T4::spec_faithful() && T5::spec_faithful() && T6::spec_faithful() && T7::spec_faithful() && T8::spec_faithful() && T9::spec_faithful() && T10::spec_faithful() && T11::spec_faithful() && T12::spec_faithful() && T13::spec_faithful() && T14::spec_faithful() && T15::spec_faithful() { assert(u0 =~= start.subrange((start.len() - u0.len()) as int, start.len() as int)); } }
        self.0.deserialize_in_place(deserializer)?;
        proof { if T0::spec_faithful() && T1::spec_faithful() && T2::spec_faithful() && T3::spec_faithful() && T4::spec_faithful() && T5::spec_faithful() && T6::spec_faithful() && T7::spec_faithful() && T8::spec_faithful() && T9::spec_faithful() && T10::spec_faithful() && T11::spec_faithful() && T12::spec_faithful() && T13::spec_faithful() && T14::spec_faithful() && T15::spec_faithful() { T0::lemma_decode_bounded(u0); } }
        let ghost u1 = deserializer.unread();
        proof { if T0::spec_faithful() && T1::spec_faithful() && T2::spec_faithful() && T3::spec_faithful() && T4::spec_faithful() && T5::spec_faithful() && T6::spec_faithful() && T7::spec_faithful() && T8::spec_faithful() && T9::spec_faithful() && T10::spec_faithful() && T11::spec_faithful() && T12::spec_faithful() && T13::spec_faithful() && T14::spec_faithful() && T15::spec_faithful() { assert(u1 =~= start.subrange((start.len() - u1.len()) as int, start.len() as int)); } }
        self.1.deserialize_in_place(deserializer)?;
        proof { if T0::spec_faithful() && T1::spec_faithful() && T2::spec_faithful() && T3::spec_faithful() && T4::spec_faithful() && T5::spec_faithful() && T6::spec_faithful() && T7::spec_faithful() && T8::spec_faithful() && T9::spec_faithful() && T10::spec_faithful() && T11::spec_faithful() && T12::spec_faithful() && T13::spec_faithful() && T14::spec_faithful() && T15::spec_faithful() { T1::lemma_decode_bounded(u1); } }
        let ghost u2 = deserializer.unread();
        proof { if T0::spec_faithful() && T1::spec_faithful() && T2::spec_faithful() && T3::spec_faithful() && T4::spec_faithful() && T5::spec_faithful() && T6::spec_faithful() && T7::spec_faithful() && T8::spec_faithful() && T9::spec_faithful() && T10::spec_faithful() && T11::spec_faithful() && T12::spec_faithful() && T13::spec_faithful() && T14::spec_faithful() && T15::spec_faithful() { assert(u2 =~= start.subrange((start.len() - u2.len()) as int, start.len() as int)); } }
        self.2.deserialize_in_place(deserializer)?;
        proof { if T0::spec_faithful() && T1::spec_faithful() && T2::spec_faithful() && T3::spec_faithful() && T4::spec_faithful() && T5::spec_faithful() && T6::spec_faithful() && T7::spec_faithful() && T8::spec_faithful() && T9::spec_faithful() && T10::spec_faithful() && T11::spec_faithful() && T12::spec_faithful() && T13::spec_faithful() && T14::spec_faithful() && T15::spec_faithful() { T2::lemma_decode_bounded(u2); } }
        let ghost u3 = deserializer.unread();
        proof { if T0::spec_faithful() && T1::spec_faithful() && T2::spec_faithful() && T3::spec_faithful() && T4::spec_faithful() && T5::spec_faithful() && T6::spec_faithful() && T7::spec_faithful() && T8::spec_faithful() && T9::spec_faithful() && T10::spec_faithful() && T11::spec_faithful() && T12::spec_faithful() && T13::spec_faithful() && T14::spec_faithful() && T15::spec_faithful() { assert(u3 =~= start.subrange((start.len() - u3.len()) as int, start.len() as int)); } }
        self.3.deserialize_in_place(deserializer)?;
        proof { if T0::spec_faithful() && T1::spec_faithful() && T2::spec_faithful() && T3::spec_faithful() && T4::spec_faithful() && T5::spec_faithful() && T6::spec_faithful() && T7::spec_faithful() && T8::spec_faithful() && T9::spec_faithful() && T10::spec_faithful() && T11::spec_faithful() && T12::spec_faithful() && T13::spec_faithful() && T14::spec_faithful() && T15::spec_faithful() { T3::lemma_decode_bounded(u3); } }
        let ghost u4 = deserializer.unread();
        proof { if T0::spec_faithful() && T1::spec_faithful() && T2::spec_faithful() && T3::spec_faithful() && T4::spec_faithful() && T5::spec_faithful() && T6::spec_faithful() && T7::spec_faithful() && T8::spec_faithful() && T9::spec_faithful() && T10::spec_faithful() && T11::spec_faithful() && T12::spec_faithful() && T13::spec_faithful() && T14::spec_faithful() && T15::spec_faithful() { assert(u4 =~= start.subrange((start.len() - u4.len()) as int, start.len() as int)); } }
        self.4.deserialize_in_place(deserializer)?;
        proof { if T0::spec_faithful() && T1::spec_faithful() && T2::spec_faithful() && T3::spec_faithful() && T4::spec_faithful() && T5::spec_faithful() && T6::spec_faithful() && T7::spec_faithful() && T8::spec_faithful() && T9::spec_faithful() && T10::spec_faithful() && T11::spec_faithful() && T12::spec_faithful() && T13::spec_faithful() && T14::spec_faithful() && T15::spec_faithful() { T4::lemma_decode_bounded(u4); } }
        let ghost u5 = deserializer.unread();
        proof { if T0::spec_faithful() && T1::spec_faithful() && T2::spec_faithful() && T3::spec_faithful() && T4::spec_faithful() && T5::spec_faithful() && T6::spec_faithful() && T7::spec_faithful() && T8::spec_faithful() && T9::spec_faithful() && T10::spec_faithful() && T11::spec_faithful() && T12::spec_faithful() && T13::spec_faithful() && T14::spec_faithful() && T15::spec_faithful() { assert(u5 =~= start.subrange((start.len() - u5.len()) as int, start.len() as int)); } }
        self.5.deserialize_in_place(deserializer)?;
        proof { if T0::spec_faithful() && T1::spec_faithful() && T2::spec_faithful() && T3::spec_faithful() && T4::spec_faithful() && T5::spec_faithful() && T6::spec_faithful() && T7::spec_faithful() && T8::spec_faithful() && T9::spec_faithful() && T10::spec_faithful() && T11::spec_faithful() && T12::spec_faithful() && T13::spec_faithful() && T14::spec_faithful() && T15::spec_faithful() { T5::lemma_decode_bounded(u5); } }
        let ghost u6 = deserializer.unread();
        proof { if T0::spec_faithful() && T1::spec_faithful() && T2::spec_faithful() && T3::spec_faithful() && T4::spec_faithful() && T5::spec_faithful() && T6::spec_faithful() && T7::spec_faithful() && T8::spec_faithful() && T9::spec_faithful() && T10::spec_faithful() && T11::spec_faithful() && T12::spec_faithful() && T13::spec_faithful() && T14::spec_faithful() && T15::spec_faithful() { assert(u6 =~= start.subrange((start.len() - u6.len()) as int, start.len() as int)); } }
        self.6.deserialize_in_place(deserializer)?;
        proof { if T0::spec_faithful() && T1::spec_faithful() && T2::spec_faithful() && T3::spec_faithful() && T4::spec_faithful() && T5::spec_faithful() && T6::spec_faithful() && T7::spec_faithful() && T8::spec_faithful() && T9::spec_faithful() && T10::spec_faithful() && T11::spec_faithful() && T12::spec_faithful() && T13::spec_faithful() && T14::spec_faithful() && T15::spec_faithful() { T6::lemma_decode_bounded(u6); } }
        let ghost u7 = deserializer.unread();
        proof { if T0::spec_faithful() && T1::spec_faithful() && T2::spec_faithful() && T3::spec_faithful() && T4::spec_faithful() && T5::spec_faithful() && T6::spec_faithful() && T7::spec_faithful() && T8::spec_faithful() && T9::spec_faithful() && T10::spec_faithful() && T11::spec_faithful() && T12::spec_faithful() && T13::spec_faithful() && T14::spec_faithful() && T15::spec_faithful() { assert(u7 =~= start.subrange((start.len() - u7.len()) as int, start.len() as int)); } }
        self.7.deserialize_in_place(deserializer)?;
        proof { if T0::spec_faithful() && T1::spec_faithful() && T2::spec_faithful() && T3::spec_faithful() && T4::spec_faithful() && T5::spec_faithful() && T6::spec_faithful() && T7::spec_faithful() && T8::spec_faithful() && T9::spec_faithful() && T10::spec_faithful() && T11::spec_faithful() && T12::spec_faithful() && T13::spec_faithful() && T14::spec_faithful() && T15::spec_faithful() { T7::lemma_decode_bounded(u7); } }
        let ghost u8 = deserializer.unread();
        proof { if T0::spec_faithful() && T1::spec_faithful() && T2::spec_faithful() && T3::spec_faithful() && T4::spec_faithful() && T5::spec_faithful() && T6::spec_faithful() && T7::spec_faithful() && T8::spec_faithful() && T9::spec_faithful() && T10::spec_faithful() && T11::spec_faithful() && T12::spec_faithful() && T13::spec_faithful() && T14::spec_faithful() && T15::spec_faithful() { assert(u8 =~= start.subrange((start.len() - u8.len()) as int, start.len() as int)); } }
        self.8.deserialize_in_place(deserializer)?;
        proof { if T0::spec_faithful() && T1::spec_faithful() && T2::spec_faithful() && T3::spec_faithful() && T4::spec_faithful() && T5::spec_faithful() && T6::spec_faithful() && T7::spec_faithful() && T8::spec_faithful() && T9::spec_faithful() && T10::spec_faithful() && T11::spec_faithful() && T12::spec_faithful() && T13::spec_faithful() && T14::spec_faithful() && T15::spec_faithful() { T8::lemma_decode_bounded(u8); } }
        let ghost u9 = deserializer.unread();
        proof { if T0::spec_faithful() && T1::spec_faithful() && T2::spec_faithful() && T3::spec_faithful() && T4::spec_faithful() && T5::spec_faithful() && T6::spec_faithful() && T7::spec_faithful() && T8::spec_faithful() && T9::spec_faithful() && T10::spec_faithful() && T11::spec_faithful() && T12::spec_faithful() && T13::spec_faithful() && T14::spec_faithful() && T15::spec_faithful() { assert(u9 =~= start.subrange((start.len() - u9.len()) as int, start.len() as int)); } }
        self.9.deserialize_in_place(deserializer)?;
        proof { if T0::spec_faithful() && T1::spec_faithful() && T2::spec_faithful() && T3::spec_faithful() && T4::spec_faithful() && T5::spec_faithful() && T6::spec_faithful() && T7::spec_faithful() && T8::spec_faithful() && T9::spec_faithful() && T10::spec_faithful() && T11::spec_faithful() && T12::spec_faithful() && T13::spec_faithful() && T14::spec_faithful() && T15::spec_faithful() { T9::lemma_decode_bounded(u9); } }
        let ghost u10 = deserializer.unread();
        proof { if T0::spec_faithful() && T1::spec_faithful() && T2::spec_faithful() && T3::spec_faithful() && T4::spec_faithful() && T5::spec_faithful() && T6::spec_faithful() && T7::spec_faithful() && T8::spec_faithful() && T9::spec_faithful() && T10::spec_faithful() && T11::spec_faithful() && T12::spec_faithful() && T13::spec_faithful() && T14::spec_faithful() && T15::spec_faithful() { assert(u10 =~= start.subrange((start.len() - u10.len()) as int, start.len() as int)); } }
        self.10.deserialize_in_place(deserializer)?;
        proof { if T0::spec_faithful() && T1::spec_faithful() && T2::spec_faithful() && T3::spec_faithful() && T4::spec_faithful() && T5::spec_faithful() && T6::spec_faithful() && T7::spec_faithful() && T8::spec_faithful() && T9::spec_faithful() && T10::spec_faithful() && T11::spec_faithful() && T12::spec_faithful() && T13::spec_faithful() && T14::spec_faithful() && T15::spec_faithful() { T10::lemma_decode_bounded(u10); } }
        let ghost u11 = deserializer.unread();
        proof { if T0::spec_faithful() && T1::spec_faithful() && T2::spec_faithful() && T3::spec_faithful() && T4::spec_faithful() && T5::spec_faithful() && T6::spec_faithful() && T7::spec_faithful() && T8::spec_faithful() && T9::spec_faithful() && T10::spec_faithful() && T11::spec_faithful() && T12::spec_faithful() && T13::spec_faithful() && T14::spec_faithful() && T15::spec_faithful() { assert(u11 =~= start.subrange((start.len() - u11.len()) as int, start.len() as int)); } }
        self.11.deserialize_in_place(deserializer)?;
        proof { if T0::spec_faithful() && T1::spec_faithful() && T2::spec_faithful() && T3::spec_faithful() && T4::spec_faithful() && T5::spec_faithful() && T6::spec_faithful() && T7::spec_faithful() && T8::spec_faithful() && T9::spec_faithful() && T10::spec_faithful() && T11::spec_faithful() && T12::spec_faithful() && T13::spec_faithful() && T14::spec_faithful() && T15::spec_faithful() { T11::lemma_decode_bounded(u11); } }
        let ghost u12 = deserializer.unread();
        proof { if T0::spec_faithful() && T1::spec_faithful() && T2::spec_faithful() && T3::spec_faithful() && T4::spec_faithful() && T5::spec_faithful() && T6::spec_faithful() && T7::spec_faithful() && T8::spec_faithful() && T9::spec_faithful() && T10::spec_faithful() && T11::spec_faithful() && T12::spec_faithful() && T13::spec_faithful() && T14::spec_faithful() && T15::spec_faithful() { assert(u12 =~= start.subrange((start.len() - u12.len()) as int, start.len() as int)); } }
        self.12.deserialize_in_place(deserializer)?;
        proof { if T0::spec_faithful() && T1::spec_faithful() && T2::spec_faithful() && T3::spec_faithful() && T4::spec_faithful() && T5::spec_faithful() && T6::spec_faithful() && T7::spec_faithful() && T8::spec_faithful() && T9::spec_faithful() && T10::spec_faithful() && T11::spec_faithful() && T12::spec_faithful() && T13::spec_faithful() && T14::spec_faithful() && T15::spec_faithful() { T12::lemma_decode_bounded(u12); } }
        let ghost u13 = deserializer.unread();
        proof { if T0::spec_faithful() && T1::spec_faithful() && T2::spec_faithful() && T3::spec_faithful() && T4::spec_faithful() && T5::spec_faithful() && T6::spec_faithful() && T7::spec_faithful() && T8::spec_faithful() && T9::spec_faithful() && T10::spec_faithful() && T11::spec_faithful() && T12::spec_faithful() && T13::spec_faithful() && T14::spec_faithful() && T15::spec_faithful() { assert(u13 =~= start.subrange((start.len() - u13.len()) as int, start.len() as int)); } }
        self.13.deserialize_in_place(deserializer)?;
        proof { if T0::spec_faithful() && T1::spec_faithful() && T2::spec_faithful() && T3::spec_faithful() && T4::spec_faithful() && T5::spec_faithful() && T6::spec_faithful() && T7::spec_faithful() && T8::spec_faithful() && T9::spec_faithful() && T10::spec_faithful() && T11::spec_faithful() && T12::spec_faithful() && T13::spec_faithful() && T14::spec_faithful() && T15::spec_faithful() { T13::lemma_decode_bounded(u13); } }
        let ghost u14 = deserializer.unread();
        proof { if T0::spec_faithful() && T1::spec_faithful() && T2::spec_faithful() && T3::spec_faithful() && T4::spec_faithful() && T5::spec_faithful() && T6::spec_faithful() && T7::spec_faithful() && T8::spec_faithful() && T9::spec_faithful() && T10::spec_faithful() && T11::spec_faithful() && T12::spec_faithful() && T13::spec_faithful() && T14::spec_faithful() && T15::spec_faithful() { assert(u14 =~= start.subrange((start.len() - u14.len()) as int, start.len() as int)); } }
        self.14.deserialize_in_place(deserializer)?;
        proof { if T0::spec_faithful() && T1::spec_faithful() && T2::spec_faithful() && T3::spec_faithful() && T4::spec_faithful() && T5::spec_faithful() && T6::spec_faithful() && T7::spec_faithful() && T8::spec_faithful() && T9::spec_faithful() && T10::spec_faithful() && T11::spec_faithful() && T12::spec_faithful() && T13::spec_faithful() && T14::spec_faithful() && T15::spec_faithful() { T14::lemma_decode_bounded(u14); } }
        let ghost u15 = deserializer.unread();
        proof { if T0::spec_faithful() && T1::spec_faithful() && T2::spec_faithful() && T3::spec_faithful() && T4::spec_faithful() && T5::spec_faithful() && T6::spec_faithful() && T7::spec_faithful() && T8::spec_faithful() && T9::spec_faithful() && T10::spec_faithful() && T11::spec_faithful() && T12::spec_faithful() && T13::spec_faithful() && T14::spec_faithful() && T15::spec_faithful() { assert(u15 =~= start.subrange((start.len() - u15.len()) as int, start.len() as int)); } }
        self.15.deserialize_in_place(deserializer)?;
        proof { if T0::spec_faithful() && T1::spec_faithful() && T2::spec_faithful() && T3::spec_faithful() && T4::spec_faithful() && T5::spec_faithful() && T6::spec_faithful() && T7::spec_faithful() && T8::spec_faithful() && T9::spec_faithful() && T10::spec_faithful() && T11::spec_faithful() && T12::spec_faithful() && T13::spec_faithful() && T14::spec_faithful() && T15::spec_faithful() { T15::lemma_decode_bounded(u15); } }
        proof { if T0::spec_faithful() && T1::spec_faithful() && T2::spec_faithful() && T3::spec_faithful() && T4::spec_faithful() && T5::spec_faithful() && T6::spec_faithful() && T7::spec_faithful() && T8::spec_faithful() && T9::spec_faithful() && T10::spec_faithful() && T11::spec_faithful() && T12::spec_faithful() && T13::spec_faithful() && T14::spec_faithful() && T15::spec_faithful() { assert(deserializer.unread() =~= start.subrange((start.len() - deserializer.unread().len()) as int, start.len() as int)); } }
        Ok(())
    }
}

} // verus!
