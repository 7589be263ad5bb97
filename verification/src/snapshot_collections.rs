//! Composite values in the snapshot format: `Option` (a `bool` tag, then the
//! value), `Vec` (its length, then its elements), strings (their UTF-8 length,
//! then their bytes).
use vstd::bytes::*;
use vstd::prelude::*;
use crate::snapshot_scalars::{from_ne_u32, lemma_ne_u32, ne_u32};
use vstd::utf8::*;

use crate::snapshot::{
    appended, consumed, extends, lemma_append, Deserialize, Deserializer, Error, PodBytes,
    ReadUninit, Result, Serialize, SerializeMut, Serializer, WireFormat, WriteUninit,
};
use crate::snapshot_seq::{
    all_encodable, decode_all, encodes_all, lemma_all_push, lemma_all_round_trip,
    lemma_decode_all_bounded, lemma_decode_all_step, lemma_extends_trans,
};

verus! {

// ------------------------------------------------------------------ Option

impl<T: WireFormat> WireFormat for Option<T> {
    type Model = Option<T::Model>;

    open spec fn model(&self) -> Option<T::Model> {
        match self {
            Some(v) => Some(v.model()),
            None => None,
        }
    }

    open spec fn spec_encodes(m: Option<T::Model>, bytes: Seq<u8>) -> bool {
        match m {
            None => bytes == seq![0u8],
            Some(x) => bytes.len() >= 1 && bytes[0] == 1 && T::spec_encodes(
                x,
                bytes.subrange(1, bytes.len() as int),
            ),
        }
    }

    open spec fn spec_encodable(m: Option<T::Model>) -> bool {
        match m {
            None => true,
            Some(x) => T::spec_encodable(x),
        }
    }

    open spec fn spec_decode(bytes: Seq<u8>) -> Option<(Option<T::Model>, nat)> {
        if bytes.len() < 1 {
            None
        } else if bytes[0] == 0 {
            Some((None, 1))
        } else if bytes[0] == 1 {
            match T::spec_decode(bytes.subrange(1, bytes.len() as int)) {
                None => None,
                Some((x, n)) => Some((Some(x), n + 1)),
            }
        } else {
            None
        }
    }

    open spec fn spec_faithful() -> bool {
        T::spec_faithful()
    }

    proof fn lemma_round_trip(m: Option<T::Model>, bytes: Seq<u8>, rest: Seq<u8>) {
        match m {
            None => {
                assert((bytes + rest)[0] == 0);
            },
            Some(x) => {
                let tail = bytes.subrange(1, bytes.len() as int);
                T::lemma_round_trip(x, tail, rest);
                assert((bytes + rest)[0] == 1);
                assert((bytes + rest).subrange(1, (bytes + rest).len() as int) =~= tail + rest);
            },
        }
    }

    proof fn lemma_decode_bounded(bytes: Seq<u8>) {
        if bytes.len() >= 1 {
            T::lemma_decode_bounded(bytes.subrange(1, bytes.len() as int));
        }
    }
}

impl<T: Serialize> Serialize for Option<T> {
    fn serialize<W: WriteUninit>(&self, serializer: &mut Serializer<W>) -> (r: Result<()>) {
        let ghost before = serializer.written();
        match self {
            Some(v) => {
                true.serialize(serializer)?;
                let ghost mid = serializer.written();
                let r = v.serialize(serializer);
                proof {
                    if r is Ok && T::spec_faithful() {
                        lemma_extends_trans(before, mid, serializer.written());
                        assert(appended(before, mid) =~= seq![1u8]);
                        let all = appended(before, serializer.written());
                        assert(all.subrange(1, all.len() as int) =~= appended(
                            mid,
                            serializer.written(),
                        ));
                    }
                }
                r
            },
            None => {
                false.serialize(serializer)
            },
        }
    }
}

impl<T: Deserialize> Deserialize for Option<T> {
    fn deserialize<R: ReadUninit>(deserializer: &mut Deserializer<R>) -> (r: Result<Self>) {
        let ghost start = deserializer.unread();
        let tag = bool::deserialize(deserializer)?;
        if tag {
            let ghost mid = deserializer.unread();
            proof {
                assert(mid =~= start.subrange(1, start.len() as int));
            }
            let v = T::deserialize(deserializer)?;
            proof {
                if T::spec_faithful() {
                    T::lemma_decode_bounded(mid);
                    assert(deserializer.unread() =~= start.subrange(
                        (start.len() - deserializer.unread().len()) as int,
                        start.len() as int,
                    ));
                }
            }
            Ok(Some(v))
        } else {
            Ok(None)
        }
    }
}

// ------------------------------------------------------------------ Vec

/// The models of the elements of `v`, in order.
pub open spec fn elements_model<T: WireFormat>(v: Seq<T>) -> Seq<T::Model> {
    Seq::new(v.len(), |i: int| v[i].model())
}

/// `true` when `bytes` is an encoding of a collection of the models `s`: its
/// length as a `u32`, then the encodings of its elements.
pub open spec fn encodes_counted<T: WireFormat>(s: Seq<T::Model>, bytes: Seq<u8>) -> bool {
    &&& s.len() <= u32::MAX
    &&& bytes.len() >= 4
    &&& bytes.subrange(0, 4) == ne_u32(s.len() as u32)
    &&& encodes_all::<T>(s, bytes.subrange(4, bytes.len() as int))
}

/// Decodes a length as a `u32`, then that many elements.
pub open spec fn decode_counted<T: WireFormat>(bytes: Seq<u8>) -> Option<(Seq<T::Model>, nat)> {
    match <usize as WireFormat>::spec_decode(bytes) {
        None => None,
        Some((len, n)) => match decode_all::<T>(bytes.subrange(4, bytes.len() as int), len as nat) {
            None => None,
            Some((ms, k)) => Some((ms, k + 4)),
        },
    }
}

pub proof fn lemma_counted_round_trip<T: WireFormat>(s: Seq<T::Model>, bytes: Seq<u8>, rest: Seq<u8>)
    requires
        T::spec_faithful(),
        encodes_counted::<T>(s, bytes),
    ensures
        decode_counted::<T>(bytes + rest) == Some((s, bytes.len())),
{
    lemma_ne_u32();
    let tail = bytes.subrange(4, bytes.len() as int);
    lemma_all_round_trip::<T>(s, tail, rest);
    assert((bytes + rest).subrange(0, 4) =~= bytes.subrange(0, 4));
    assert((bytes + rest).subrange(4, (bytes + rest).len() as int) =~= tail + rest);
}

pub proof fn lemma_counted_bounded<T: WireFormat>(bytes: Seq<u8>)
    ensures
        decode_counted::<T>(bytes) matches Some((ms, n)) ==> n <= bytes.len(),
{
    if bytes.len() >= 4 {
        let len = from_ne_u32(bytes.subrange(0, 4)) as usize;
        lemma_decode_all_bounded::<T>(bytes.subrange(4, bytes.len() as int), len as nat);
    }
}

impl<T: WireFormat> WireFormat for Vec<T> {
    type Model = Seq<T::Model>;

    open spec fn model(&self) -> Seq<T::Model> {
        elements_model(self@)
    }

    open spec fn spec_encodes(m: Seq<T::Model>, bytes: Seq<u8>) -> bool {
        encodes_counted::<T>(m, bytes)
    }

    open spec fn spec_encodable(m: Seq<T::Model>) -> bool {
        m.len() <= u32::MAX && all_encodable::<T>(m)
    }

    open spec fn spec_decode(bytes: Seq<u8>) -> Option<(Seq<T::Model>, nat)> {
        decode_counted::<T>(bytes)
    }

    open spec fn spec_faithful() -> bool {
        T::spec_faithful()
    }

    proof fn lemma_round_trip(m: Seq<T::Model>, bytes: Seq<u8>, rest: Seq<u8>) {
        lemma_counted_round_trip::<T>(m, bytes, rest);
    }

    proof fn lemma_decode_bounded(bytes: Seq<u8>) {
        lemma_counted_bounded::<T>(bytes);
    }
}

/// Writes the elements of `v` one after another.
fn serialize_elements<T: Serialize, W: WriteUninit>(v: &[T], serializer: &mut Serializer<W>) -> (r:
    Result<()>)
    ensures
        final(serializer).accepts_all() == old(serializer).accepts_all(),
        T::spec_faithful() ==> {
            &&& r is Ok ==> extends(old(serializer).written(), final(serializer).written())
                && encodes_all::<T>(
                elements_model(v@),
                appended(old(serializer).written(), final(serializer).written()),
            ) && all_encodable::<T>(elements_model(v@))
            &&& old(serializer).accepts_all() && all_encodable::<T>(elements_model(v@)) ==> r is Ok
        },
{
    let ghost start = serializer.written();
    let ghost s = elements_model(v@);
    let mut i: usize = 0;
    proof {
        assert(start.subrange(0, start.len() as int) =~= start);
        assert(appended(start, start) =~= Seq::<u8>::empty());
        assert(s.subrange(0, 0) =~= Seq::<T::Model>::empty());
    }
    while i < v.len()
        invariant
            i <= v@.len(),
            s == elements_model(v@),
            serializer.accepts_all() == old(serializer).accepts_all(),
            start == old(serializer).written(),
            T::spec_faithful() ==> {
                &&& extends(start, serializer.written())
                &&& encodes_all::<T>(s.subrange(0, i as int), appended(start, serializer.written()))
                &&& forall|j: int| 0 <= j < i ==> #[trigger] T::spec_encodable(s[j])
            },
        decreases v@.len() - i,
    {
        let ghost mid = serializer.written();
        let r = v[i].serialize(serializer);
        match r {
            Ok(()) => {},
            Err(e) => {
                proof {
                    if T::spec_faithful() && old(serializer).accepts_all() {
                        assert(!T::spec_encodable(s[i as int]));
                    }
                }
                return Err(e);
            },
        }
        proof {
            if T::spec_faithful() {
                lemma_extends_trans(start, mid, serializer.written());
                lemma_all_push::<T>(
                    s.subrange(0, i as int),
                    appended(start, mid),
                    s[i as int],
                    appended(mid, serializer.written()),
                );
                assert(s.subrange(0, i as int).push(s[i as int]) =~= s.subrange(0, i + 1));
            }
        }
        i = i + 1;
    }
    proof {
        assert(s.subrange(0, i as int) =~= s);
    }
    Ok(())
}

impl<T: Serialize> Serialize for Vec<T> {
    fn serialize<W: WriteUninit>(&self, serializer: &mut Serializer<W>) -> (r: Result<()>) {
        let ghost before = serializer.written();
        self.len().serialize(serializer)?;
        let ghost mid = serializer.written();
        let r = serialize_elements(self.as_slice(), serializer);
        proof {
            if r is Ok && T::spec_faithful() {
                lemma_ne_u32();
                lemma_extends_trans(before, mid, serializer.written());
                let all = appended(before, serializer.written());
                assert(all.subrange(0, 4) =~= appended(before, mid));
                assert(all.subrange(4, all.len() as int) =~= appended(mid, serializer.written()));
            }
        }
        r
    }
}

/// Writes the length, then each element through its `serialize_mut`. The
/// elements' models are left as they were.
impl<T: SerializeMut> SerializeMut for Vec<T> {
    fn serialize_mut<W: WriteUninit>(&mut self, serializer: &mut Serializer<W>) -> (r: Result<()>) {
        let ghost before = serializer.written();
        let ghost s = elements_model(self@);
        let n = self.len();
        match n.serialize(serializer) {
            Ok(()) => {},
            Err(e) => {
                return Err(e);
            },
        }
        let ghost mid = serializer.written();
        proof {
            assert(mid.subrange(0, mid.len() as int) =~= mid);
            assert(appended(mid, mid) =~= Seq::<u8>::empty());
            assert(s.subrange(0, 0) =~= Seq::<T::Model>::empty());
        }
        let mut i: usize = 0;
        while i < self.len()
            invariant
                i <= self@.len(),
                self@.len() == n,
                s.len() == n,
                elements_model(self@) == s,
                serializer.accepts_all() == old(serializer).accepts_all(),
                before == old(serializer).written(),
                s == elements_model(old(self)@),
                T::spec_faithful() ==> {
                    &&& extends(before, mid)
                    &&& <usize as WireFormat>::spec_encodes(n, appended(before, mid))
                    &&& extends(mid, serializer.written())
                    &&& encodes_all::<T>(s.subrange(0, i as int), appended(mid, serializer.written()))
                    &&& forall|j: int| 0 <= j < i ==> #[trigger] T::spec_encodable(s[j])
                },
            decreases self@.len() - i,
        {
            let ghost w0 = serializer.written();
            let ghost prev = self@;
            let r = self[i].serialize_mut(serializer);
            proof {
                assert(self@ == prev.update(i as int, self@[i as int]));
                assert(elements_model(self@) =~= s);
            }
            match r {
                Ok(()) => {},
                Err(e) => {
                    proof {
                        if T::spec_faithful() && old(serializer).accepts_all() {
                            assert(!T::spec_encodable(s[i as int]));
                        }
                    }
                    return Err(e);
                },
            }
            proof {
                if T::spec_faithful() {
                    lemma_extends_trans(mid, w0, serializer.written());
                    lemma_all_push::<T>(
                        s.subrange(0, i as int),
                        appended(mid, w0),
                        s[i as int],
                        appended(w0, serializer.written()),
                    );
                    assert(s.subrange(0, i as int).push(s[i as int]) =~= s.subrange(0, i + 1));
                }
            }
            i = i + 1;
        }
        proof {
            if T::spec_faithful() {
                assert(s.subrange(0, i as int) =~= s);
                lemma_ne_u32();
                lemma_extends_trans(before, mid, serializer.written());
                let all = appended(before, serializer.written());
                assert(all.subrange(0, 4) =~= appended(before, mid));
                assert(all.subrange(4, all.len() as int) =~= appended(mid, serializer.written()));
            }
        }
        Ok(())
    }
}

/// Reads `len` elements one after another.
fn deserialize_elements<T: Deserialize, R: ReadUninit>(
    deserializer: &mut Deserializer<R>,
    len: usize,
) -> (r: Result<Vec<T>>)
    ensures
        final(deserializer).yields_all() == old(deserializer).yields_all(),
        T::spec_faithful() ==> {
            &&& r matches Ok(v) ==> consumed(
                decode_all::<T>(old(deserializer).unread(), len as nat),
                elements_model(v@),
                old(deserializer).unread(),
                final(deserializer).unread(),
            )
            &&& decode_all::<T>(old(deserializer).unread(), len as nat) is None ==> r is Err
            &&& old(deserializer).yields_all() && decode_all::<T>(
                old(deserializer).unread(),
                len as nat,
            ) is Some ==> r is Ok
        },
{
    let ghost start = deserializer.unread();
    let mut vec: Vec<T> = Vec::with_capacity(len);
    let mut i: usize = 0;
    proof {
        assert(elements_model(vec@) =~= Seq::<T::Model>::empty());
        assert(start.subrange(0, start.len() as int) =~= start);
    }
    while i < len
        invariant
            i <= len,
            vec@.len() == i,
            start == old(deserializer).unread(),
            deserializer.yields_all() == old(deserializer).yields_all(),
            T::spec_faithful() ==> consumed(
                decode_all::<T>(start, i as nat),
                elements_model(vec@),
                start,
                deserializer.unread(),
            ),
        decreases len - i,
    {
        let ghost before = deserializer.unread();
        proof {
            lemma_decode_all_step::<T>(start, i as nat);
            lemma_decode_all_bounded::<T>(start, (i + 1) as nat);
        }
        let elem = match T::deserialize(deserializer) {
            Ok(e) => e,
            Err(e) => {
                proof {
                    if T::spec_faithful() && old(deserializer).yields_all() {
                        // Every further count decodes nothing either.
                        lemma_decode_none_grows::<T>(start, (i + 1) as nat, len as nat);
                    }
                }
                return Err(e);
            },
        };
        let ghost prev = elements_model(vec@);
        vec.push(elem);
        proof {
            if T::spec_faithful() {
                assert(elements_model(vec@) =~= prev.push(elem.model()));
                let n = (start.len() - before.len()) as nat;
                assert(before == start.subrange(n as int, start.len() as int));
                assert(deserializer.unread() =~= start.subrange(
                    (start.len() - deserializer.unread().len()) as int,
                    start.len() as int,
                ));
            }
        }
        i = i + 1;
    }
    Ok(vec)
}

/// Once a run fails to decode, every longer run fails too.
pub proof fn lemma_decode_none_grows<T: WireFormat>(bytes: Seq<u8>, count: nat, more: nat)
    requires
        decode_all::<T>(bytes, count) is None,
        count <= more,
    ensures
        decode_all::<T>(bytes, more) is None,
    decreases more - count,
{
    if count < more {
        lemma_decode_all_step::<T>(bytes, count);
        lemma_decode_none_grows::<T>(bytes, count + 1, more);
    }
}

impl<T: Deserialize> Deserialize for Vec<T> {
    fn deserialize<R: ReadUninit>(deserializer: &mut Deserializer<R>) -> (r: Result<Self>) {
        let ghost start = deserializer.unread();
        let len = usize::deserialize(deserializer)?;
        proof {
            assert(deserializer.unread() =~= start.subrange(4, start.len() as int));
        }
        let v = deserialize_elements::<T, R>(deserializer, len)?;
        proof {
            if T::spec_faithful() {
                lemma_decode_all_bounded::<T>(start.subrange(4, start.len() as int), len as nat);
                assert(deserializer.unread() =~= start.subrange(
                    (start.len() - deserializer.unread().len()) as int,
                    start.len() as int,
                ));
            }
        }
        Ok(v)
    }

    fn deserialize_in_place<R: ReadUninit>(&mut self, deserializer: &mut Deserializer<R>) -> (r:
        Result<()>) {
        deserialize_vec_in_place(self, deserializer)
    }
}


/// Reading a vector in place from what `serialize` wrote gives the vector that
/// was written, whatever the vector read into held before (a longer one loses
/// its surplus elements, a shorter one gains elements), and the read stops
/// where the encoding ends. The element type must be one whose contracts hold
/// (`spec_faithful`), which every element type is but a hash map whose keys
/// lie outside vstd's model of hashing.
pub proof fn lemma_vec_reads_back_in_place<T: WireFormat>(
    m: Seq<T::Model>,
    bytes: Seq<u8>,
    rest: Seq<u8>,
    read: Seq<T::Model>,
    after: Seq<u8>,
)
    requires
        T::spec_faithful(),
        <Vec<T> as WireFormat>::spec_encodes(m, bytes),
        consumed(<Vec<T> as WireFormat>::spec_decode(bytes + rest), read, bytes + rest, after),
    ensures
        read == m,
        after == rest,
{
    lemma_counted_round_trip::<T>(m, bytes, rest);
    assert((bytes + rest).subrange(bytes.len() as int, (bytes + rest).len() as int) =~= rest);
}

/// Deserializing a vector in place reuses its existing elements: the first
/// ones are deserialized in place, further ones are appended, surplus ones are
/// dropped.
pub fn deserialize_vec_in_place<T: Deserialize, R: ReadUninit>(
    v: &mut Vec<T>,
    deserializer: &mut Deserializer<R>,
) -> (r: Result<()>)
    ensures
        final(deserializer).yields_all() == old(deserializer).yields_all(),
        T::spec_faithful() ==> {
            &&& r is Ok ==> consumed(
                <Vec<T> as WireFormat>::spec_decode(old(deserializer).unread()),
                final(v).model(),
                old(deserializer).unread(),
                final(deserializer).unread(),
            )
            &&& <Vec<T> as WireFormat>::spec_decode(old(deserializer).unread()) is None ==> r is Err
            &&& old(deserializer).yields_all() && <Vec<T> as WireFormat>::spec_decode(
                old(deserializer).unread(),
            ) is Some ==> r is Ok
        },
{
    let ghost start = deserializer.unread();
    let len = usize::deserialize(deserializer)?;
    let ghost body = start.subrange(4, start.len() as int);
    proof {
        assert(deserializer.unread() =~= body);
        assert(body.subrange(0, body.len() as int) =~= body);
    }
    let existing_len = if len < v.len() {
        len
    } else {
        v.len()
    };
    let additional_len = if len > v.len() {
        len - v.len()
    } else {
        0
    };
    let ghost old_len = v@.len();
    let mut i: usize = 0;
    proof {
        assert(elements_model(v@.subrange(0, 0)) =~= Seq::<T::Model>::empty());
        assert(deserializer.unread() =~= body.subrange(0, body.len() as int));
    }
    while i < existing_len
        invariant
            i <= existing_len,
            existing_len <= len,
            existing_len <= old_len,
            v@.len() == old_len,
            body == start.subrange(4, start.len() as int),
            start == old(deserializer).unread(),
            <usize as WireFormat>::spec_decode(start) matches Some((l, _)) && l == len,
            deserializer.yields_all() == old(deserializer).yields_all(),
            T::spec_faithful() ==> consumed(
                decode_all::<T>(body, i as nat),
                elements_model(v@.subrange(0, i as int)),
                body,
                deserializer.unread(),
            ),
        decreases existing_len - i,
    {
        let ghost before = deserializer.unread();
        let ghost prefix = elements_model(v@.subrange(0, i as int));
        proof {
            lemma_decode_all_step::<T>(body, i as nat);
            lemma_decode_all_bounded::<T>(body, (i + 1) as nat);
        }
        let res = v[i].deserialize_in_place(deserializer);
        match res {
            Ok(()) => {},
            Err(e) => {
                proof {
                    if T::spec_faithful() && old(deserializer).yields_all() {
                        lemma_decode_none_grows::<T>(body, (i + 1) as nat, len as nat);
                        assert(decode_all::<T>(body, len as nat) is None);
                        assert(<usize as WireFormat>::spec_decode(start) matches Some((l, _)) && l == len);
                        assert(<Vec<T> as WireFormat>::spec_decode(start) is None);
                    }
                }
                return Err(e);
            },
        }
        proof {
            if T::spec_faithful() {
                assert(elements_model(v@.subrange(0, i + 1)) =~= prefix.push(v@[i as int].model()));
                assert(deserializer.unread() =~= body.subrange(
                    (body.len() - deserializer.unread().len()) as int,
                    body.len() as int,
                ));
            }
        }
        i = i + 1;
    }
    let mut j: usize = 0;
    while j < additional_len
        invariant
            j <= additional_len,
            additional_len > 0 ==> existing_len == old_len && len == old_len + additional_len,
            additional_len == 0 ==> existing_len == len,
            existing_len <= old_len,
            v@.len() >= existing_len + j,
            additional_len > 0 ==> v@.len() == existing_len + j,
            additional_len == 0 ==> v@.len() == old_len,
            body == start.subrange(4, start.len() as int),
            start == old(deserializer).unread(),
            <usize as WireFormat>::spec_decode(start) matches Some((l, _)) && l == len,
            deserializer.yields_all() == old(deserializer).yields_all(),
            T::spec_faithful() ==> consumed(
                decode_all::<T>(body, (existing_len + j) as nat),
                elements_model(v@.subrange(0, (existing_len + j) as int)),
                body,
                deserializer.unread(),
            ),
        decreases additional_len - j,
    {
        proof {
            lemma_decode_all_step::<T>(body, (existing_len + j) as nat);
            lemma_decode_all_bounded::<T>(body, (existing_len + j + 1) as nat);
        }
        let elem = match T::deserialize(deserializer) {
            Ok(e) => e,
            Err(e) => {
                proof {
                    if T::spec_faithful() && old(deserializer).yields_all() {
                        lemma_decode_none_grows::<T>(
                            body,
                            (existing_len + j + 1) as nat,
                            len as nat,
                        );
                    }
                }
                return Err(e);
            },
        };
        let ghost prev = elements_model(v@.subrange(0, (existing_len + j) as int));
        proof {
            assert(v@.subrange(0, (existing_len + j) as int) =~= v@);
        }
        v.push(elem);
        proof {
            if T::spec_faithful() {
                assert(v@.subrange(0, (existing_len + j + 1) as int) =~= v@);
                assert(elements_model(v@) =~= prev.push(elem.model()));
                assert(deserializer.unread() =~= body.subrange(
                    (body.len() - deserializer.unread().len()) as int,
                    body.len() as int,
                ));
            }
        }
        j = j + 1;
    }
    let ghost kept = v@;
    v.truncate(len);
    proof {
        if T::spec_faithful() {
            assert(v@ =~= kept.subrange(0, len as int));
            assert(elements_model(v@) =~= elements_model(kept.subrange(0, len as int)));
            lemma_decode_all_bounded::<T>(body, len as nat);
            assert(deserializer.unread() =~= start.subrange(
                (start.len() - deserializer.unread().len()) as int,
                start.len() as int,
            ));
        }
    }
    Ok(())
}

// ------------------------------------------------------------------ strings

/// `true` when `bytes` encodes the characters `cs`: the length of their UTF-8
/// encoding as a `u32`, then that encoding.
pub open spec fn string_encodes(cs: Seq<char>, bytes: Seq<u8>) -> bool {
    &&& encode_utf8(cs).len() <= u32::MAX
    &&& bytes == ne_u32(encode_utf8(cs).len() as u32) + encode_utf8(cs)
}

/// Decodes a length as a `u32`, then that many bytes of UTF-8.
pub open spec fn string_decode(bytes: Seq<u8>) -> Option<(Seq<char>, nat)> {
    match <usize as WireFormat>::spec_decode(bytes) {
        None => None,
        Some((n, _)) => if bytes.len() < 4 + n {
            None
        } else if valid_utf8(bytes.subrange(4, 4 + n)) {
            Some((decode_utf8(bytes.subrange(4, 4 + n)), (4 + n) as nat))
        } else {
            None
        },
    }
}

pub proof fn lemma_string_round_trip(cs: Seq<char>, bytes: Seq<u8>, rest: Seq<u8>)
    requires
        string_encodes(cs, bytes),
    ensures
        string_decode(bytes + rest) == Some((cs, bytes.len())),
{
    lemma_ne_u32();
    encode_utf8_valid_utf8(cs);
    encode_utf8_decode_utf8(cs);
    let n = encode_utf8(cs).len();
    assert((bytes + rest).subrange(0, 4) =~= ne_u32(n as u32));
    assert((bytes + rest).subrange(4, 4 + n as int) =~= encode_utf8(cs));
}

impl WireFormat for String {
    type Model = Seq<char>;

    open spec fn model(&self) -> Seq<char> {
        self@
    }

    open spec fn spec_encodes(m: Seq<char>, bytes: Seq<u8>) -> bool {
        string_encodes(m, bytes)
    }

    open spec fn spec_encodable(m: Seq<char>) -> bool {
        encode_utf8(m).len() <= u32::MAX
    }

    open spec fn spec_decode(bytes: Seq<u8>) -> Option<(Seq<char>, nat)> {
        string_decode(bytes)
    }

    open spec fn spec_faithful() -> bool {
        true
    }

    proof fn lemma_round_trip(m: Seq<char>, bytes: Seq<u8>, rest: Seq<u8>) {
        lemma_string_round_trip(m, bytes, rest);
    }

    proof fn lemma_decode_bounded(bytes: Seq<u8>) {
    }
}

impl<'a> WireFormat for &'a str {
    type Model = Seq<char>;

    open spec fn model(&self) -> Seq<char> {
        (*self)@
    }

    open spec fn spec_encodes(m: Seq<char>, bytes: Seq<u8>) -> bool {
        string_encodes(m, bytes)
    }

    open spec fn spec_encodable(m: Seq<char>) -> bool {
        encode_utf8(m).len() <= u32::MAX
    }

    open spec fn spec_decode(bytes: Seq<u8>) -> Option<(Seq<char>, nat)> {
        string_decode(bytes)
    }

    open spec fn spec_faithful() -> bool {
        true
    }

    proof fn lemma_round_trip(m: Seq<char>, bytes: Seq<u8>, rest: Seq<u8>) {
        lemma_string_round_trip(m, bytes, rest);
    }

    proof fn lemma_decode_bounded(bytes: Seq<u8>) {
    }
}

/// Writes the UTF-8 bytes of a string after their length.
fn serialize_str<W: WriteUninit>(text: &str, serializer: &mut Serializer<W>) -> (r: Result<()>)
    ensures
        final(serializer).accepts_all() == old(serializer).accepts_all(),
        r is Ok ==> extends(old(serializer).written(), final(serializer).written())
            && string_encodes(text@, appended(old(serializer).written(), final(serializer).written())),
        encode_utf8(text@).len() > u32::MAX ==> r is Err,
        old(serializer).accepts_all() && encode_utf8(text@).len() <= u32::MAX ==> r is Ok,
{
    let ghost before = serializer.written();
    let bytes = text.as_bytes();
    bytes.len().serialize(serializer)?;
    let ghost mid = serializer.written();
    let r = serializer.serialize_bytes(bytes);
    proof {
        if r is Ok {
            lemma_append(mid, bytes@);
            lemma_extends_trans(before, mid, serializer.written());
        }
    }
    r
}

impl<'a> Serialize for &'a str {
    /// There is no `Deserialize` for `&str`; strings are read back as `String`.
    fn serialize<W: WriteUninit>(&self, serializer: &mut Serializer<W>) -> (r: Result<()>) {
        serialize_str(*self, serializer)
    }
}

impl Serialize for String {
    fn serialize<W: WriteUninit>(&self, serializer: &mut Serializer<W>) -> (r: Result<()>) {
        serialize_str(self.as_str(), serializer)
    }
}

/// `String::from_utf8`: the string whose UTF-8 encoding is `bytes`, or `None`
/// when `bytes` is not valid UTF-8.
#[verifier::external_body]
fn string_from_utf8(bytes: Vec<u8>) -> (r: Option<String>)
    ensures
        r is Some <==> valid_utf8(bytes@),
        r matches Some(s) ==> encode_utf8(s@) == bytes@,
{
    String::from_utf8(bytes).ok()
}

impl Deserialize for String {
    /// Bytes that are not UTF-8 are refused with `Error::Deserialize`.
    fn deserialize<R: ReadUninit>(deserializer: &mut Deserializer<R>) -> (r: Result<Self>) {
        let ghost start = deserializer.unread();
        let len = usize::deserialize(deserializer)?;
        let bytes = deserializer.deserialize_uninit_bytes(len)?;
        proof {
            assert(bytes@ =~= start.subrange(4, 4 + len));
            assert(deserializer.unread() =~= start.subrange(4 + len, start.len() as int));
        }
        match string_from_utf8(bytes) {
            Some(s) => {
                proof {
                    encode_utf8_decode_utf8(s@);
                }
                Ok(s)
            },
            None => Err(Error::Deserialize("string bytes are not UTF-8".to_string())),
        }
    }
}


// ------------------------------------------------------------------ arrays

/// An array is written as its elements, without a length.
impl<T: WireFormat, const N: usize> WireFormat for [T; N] {
    type Model = Seq<T::Model>;

    open spec fn model(&self) -> Seq<T::Model> {
        elements_model(self@)
    }

    open spec fn spec_encodes(m: Seq<T::Model>, bytes: Seq<u8>) -> bool {
        m.len() == N && encodes_all::<T>(m, bytes)
    }

    open spec fn spec_encodable(m: Seq<T::Model>) -> bool {
        all_encodable::<T>(m)
    }

    open spec fn spec_decode(bytes: Seq<u8>) -> Option<(Seq<T::Model>, nat)> {
        decode_all::<T>(bytes, N as nat)
    }

    open spec fn spec_faithful() -> bool {
        T::spec_faithful()
    }

    proof fn lemma_round_trip(m: Seq<T::Model>, bytes: Seq<u8>, rest: Seq<u8>) {
        lemma_all_round_trip::<T>(m, bytes, rest);
    }

    proof fn lemma_decode_bounded(bytes: Seq<u8>) {
        lemma_decode_all_bounded::<T>(bytes, N as nat);
    }
}

impl<T: Serialize, const N: usize> Serialize for [T; N] {
    fn serialize<W: WriteUninit>(&self, serializer: &mut Serializer<W>) -> (r: Result<()>) {
        let r = serialize_elements(self.as_slice(), serializer);
        proof {
            assert(self@.len() == N);
        }
        r
    }
}

/// `<[T; N]>::try_from(Vec<T>)`: the array holding the elements of `v`, or
/// `None` when `v` does not have exactly `N` elements.
#[verifier::external_body]
pub(crate) fn vec_into_array<T, const N: usize>(v: Vec<T>) -> (r: Option<[T; N]>)
    ensures
        r is Some <==> v@.len() == N,
        r matches Some(a) ==> a@ == v@,
{
    <[T; N]>::try_from(v).ok()
}

impl<T: Deserialize, const N: usize> Deserialize for [T; N] {
    fn deserialize<R: ReadUninit>(deserializer: &mut Deserializer<R>) -> (r: Result<Self>) {
        let v = deserialize_elements::<T, R>(deserializer, N)?;
        proof {
            lemma_decode_all_bounded::<T>(old(deserializer).unread(), N as nat);
        }
        match vec_into_array::<T, N>(v) {
            Some(a) => Ok(a),
            None => Err(Error::Deserialize("array length mismatch".to_string())),
        }
    }
}

// ------------------------------------------------------------------ byte boxes

/// `Vec::into_boxed_slice`: the same bytes, boxed.
#[verifier::external_body]
fn vec_into_boxed_bytes(v: Vec<u8>) -> (r: Box<[u8]>)
    ensures
        r@ == v@,
{
    v.into_boxed_slice()
}

/// A boxed byte slice is written as its length, then its bytes.
impl WireFormat for Box<[u8]> {
    type Model = Seq<u8>;

    open spec fn model(&self) -> Seq<u8> {
        (**self)@
    }

    open spec fn spec_encodes(m: Seq<u8>, bytes: Seq<u8>) -> bool {
        m.len() <= u32::MAX && bytes == ne_u32(m.len() as u32) + m
    }

    open spec fn spec_encodable(m: Seq<u8>) -> bool {
        m.len() <= u32::MAX
    }

    open spec fn spec_decode(bytes: Seq<u8>) -> Option<(Seq<u8>, nat)> {
        match <usize as WireFormat>::spec_decode(bytes) {
            None => None,
            Some((n, _)) => if bytes.len() < 4 + n {
                None
            } else {
                Some((bytes.subrange(4, 4 + n), (4 + n) as nat))
            },
        }
    }

    open spec fn spec_faithful() -> bool {
        true
    }

    proof fn lemma_round_trip(m: Seq<u8>, bytes: Seq<u8>, rest: Seq<u8>) {
        lemma_ne_u32();
        assert((bytes + rest).subrange(0, 4) =~= ne_u32(m.len() as u32));
        assert((bytes + rest).subrange(4, 4 + m.len() as int) =~= m);
    }

    proof fn lemma_decode_bounded(bytes: Seq<u8>) {
    }
}

impl Serialize for Box<[u8]> {
    fn serialize<W: WriteUninit>(&self, serializer: &mut Serializer<W>) -> (r: Result<()>) {
        let ghost before = serializer.written();
        let bytes: &[u8] = &**self;
        bytes.len().serialize(serializer)?;
        let ghost mid = serializer.written();
        let r = serializer.serialize_uninit_bytes(bytes);
        proof {
            if r is Ok {
                lemma_append(mid, bytes@);
                lemma_extends_trans(before, mid, serializer.written());
            }
        }
        r
    }
}

impl Deserialize for Box<[u8]> {
    fn deserialize<R: ReadUninit>(deserializer: &mut Deserializer<R>) -> (r: Result<Self>) {
        let ghost start = deserializer.unread();
        let len = usize::deserialize(deserializer)?;
        let bytes = deserializer.deserialize_uninit_bytes(len)?;
        proof {
            assert(bytes@ =~= start.subrange(4, 4 + len));
            assert(deserializer.unread() =~= start.subrange(4 + len, start.len() as int));
        }
        Ok(vec_into_boxed_bytes(bytes))
    }
}


// ------------------------------------------------------------------ plain vectors

/// The bytes of the plain values `s`, one after another.
pub open spec fn pod_bytes_all<T: PodBytes>(s: Seq<T::Model>) -> Seq<u8>
    decreases s.len(),
{
    if s.len() == 0 {
        Seq::empty()
    } else {
        T::spec_pod_bytes(s[0]) + pod_bytes_all::<T>(s.drop_first())
    }
}

proof fn lemma_pod_bytes_all_len<T: PodBytes>(s: Seq<T::Model>)
    ensures
        pod_bytes_all::<T>(s).len() == s.len() * T::spec_pod_size(),
    decreases s.len(),
{
    if s.len() > 0 {
        T::lemma_encodes_pod(s[0], T::spec_pod_bytes(s[0]));
        lemma_pod_bytes_all_len::<T>(s.drop_first());
        assert(s.len() * T::spec_pod_size() == T::spec_pod_size() + (s.len() - 1)
            * T::spec_pod_size()) by (nonlinear_arith);
    }
}

proof fn lemma_encodes_all_pod<T: PodBytes>(s: Seq<T::Model>, bytes: Seq<u8>)
    requires
        encodes_all::<T>(s, bytes),
    ensures
        bytes == pod_bytes_all::<T>(s),
    decreases s.len(),
{
    if s.len() == 0 {
        assert(bytes =~= Seq::<u8>::empty());
    } else {
        let k = choose|k: int|
            0 <= k <= bytes.len() && #[trigger] T::spec_encodes(s[0], bytes.subrange(0, k))
                && encodes_all::<T>(s.drop_first(), bytes.subrange(k, bytes.len() as int));
        T::lemma_encodes_pod(s[0], bytes.subrange(0, k));
        lemma_encodes_all_pod::<T>(s.drop_first(), bytes.subrange(k, bytes.len() as int));
        assert(bytes =~= bytes.subrange(0, k) + bytes.subrange(k, bytes.len() as int));
    }
}

/// The encoding of a vector of plain values is its length as the four bytes
/// of a `u32`, then the bytes of its elements one after another: four bytes
/// and the size of an element for each element.
pub proof fn lemma_pod_vec_bytes<T: PodBytes>(s: Seq<T::Model>, bytes: Seq<u8>)
    requires
        <Vec<T> as WireFormat>::spec_encodes(s, bytes),
    ensures
        bytes == ne_u32(s.len() as u32) + pod_bytes_all::<T>(s),
        bytes.len() == 4 + s.len() * T::spec_pod_size(),
{
    lemma_encodes_all_pod::<T>(s, bytes.subrange(4, bytes.len() as int));
    lemma_pod_bytes_all_len::<T>(s);
    assert(bytes =~= bytes.subrange(0, 4) + bytes.subrange(4, bytes.len() as int));
}

impl<W: WriteUninit> Serializer<W> {
    /// Serializes a vector of plain values: its length, then the bytes of its
    /// elements. The bytes are the same as those of `Vec::serialize`.
    pub fn serialize_pod_vec<T: PodBytes>(&mut self, v: &Vec<T>) -> (r: Result<()>)
        ensures
            final(self).accepts_all() == old(self).accepts_all(),
            r is Ok ==> extends(old(self).written(), final(self).written())
                && <Vec<T> as WireFormat>::spec_encodes(
                v.model(),
                appended(old(self).written(), final(self).written()),
            ),
            r is Ok ==> appended(old(self).written(), final(self).written()) == ne_u32(
                v@.len() as u32,
            ) + pod_bytes_all::<T>(v.model()),
            !<Vec<T> as WireFormat>::spec_encodable(v.model()) ==> r is Err,
            old(self).accepts_all() && <Vec<T> as WireFormat>::spec_encodable(v.model()) ==> r is Ok,
    {
        let ghost before = self.written();
        let ghost s = v.model();
        proof {
            assert forall|j: int| 0 <= j < s.len() implies #[trigger] T::spec_encodable(s[j]) by {
                T::lemma_encodes_pod(s[j], T::spec_pod_bytes(s[j]));
            }
        }
        v.len().serialize(self)?;
        let ghost mid = self.written();
        let mut i: usize = 0;
        proof {
            assert(mid.subrange(0, mid.len() as int) =~= mid);
            assert(appended(mid, mid) =~= Seq::<u8>::empty());
            assert(s.subrange(0, 0) =~= Seq::<T::Model>::empty());
        }
        while i < v.len()
            invariant
                i <= v@.len(),
                s == v.model(),
                self.accepts_all() == old(self).accepts_all(),
                extends(before, mid),
                <usize as WireFormat>::spec_encodes(v@.len() as usize, appended(before, mid)),
                extends(mid, self.written()),
                encodes_all::<T>(s.subrange(0, i as int), appended(mid, self.written())),
            decreases v@.len() - i,
        {
            let ghost w0 = self.written();
            self.serialize_pod(&v[i])?;
            proof {
                T::lemma_encodes_pod(s[i as int], T::spec_pod_bytes(s[i as int]));
                lemma_append(w0, T::spec_pod_bytes(s[i as int]));
                lemma_extends_trans(mid, w0, self.written());
                lemma_all_push::<T>(
                    s.subrange(0, i as int),
                    appended(mid, w0),
                    s[i as int],
                    appended(w0, self.written()),
                );
                assert(s.subrange(0, i as int).push(s[i as int]) =~= s.subrange(0, i + 1));
            }
            i = i + 1;
        }
        proof {
            lemma_ne_u32();
            assert(s.subrange(0, i as int) =~= s);
            lemma_extends_trans(before, mid, self.written());
            let all = appended(before, self.written());
            assert(all.subrange(0, 4) =~= appended(before, mid));
            assert(all.subrange(4, all.len() as int) =~= appended(mid, self.written()));
            lemma_pod_vec_bytes::<T>(s, all);
        }
        Ok(())
    }
}

impl<R: ReadUninit> Deserializer<R> {
    /// Reads `len` plain values one after another.
    fn deserialize_pods<T: PodBytes>(&mut self, len: usize, v: &mut Vec<T>) -> (r: Result<()>)
        requires
            old(v)@.len() == 0,
        ensures
            final(self).yields_all() == old(self).yields_all(),
            r is Ok ==> consumed(
                decode_all::<T>(old(self).unread(), len as nat),
                final(v).model(),
                old(self).unread(),
                final(self).unread(),
            ),
            decode_all::<T>(old(self).unread(), len as nat) is None ==> r is Err,
            old(self).yields_all() && decode_all::<T>(old(self).unread(), len as nat) is Some
                ==> r is Ok,
    {
        let ghost start = self.unread();
        let mut i: usize = 0;
        proof {
            assert(v.model() =~= Seq::<T::Model>::empty());
            assert(start.subrange(0, start.len() as int) =~= start);
        }
        while i < len
            invariant
                i <= len,
                v@.len() == i,
                start == old(self).unread(),
                self.yields_all() == old(self).yields_all(),
                consumed(decode_all::<T>(start, i as nat), v.model(), start, self.unread()),
            decreases len - i,
        {
            proof {
                lemma_decode_all_step::<T>(start, i as nat);
                lemma_decode_all_bounded::<T>(start, (i + 1) as nat);
            }
            let elem = match self.deserialize_pod::<T>() {
                Ok(e) => e,
                Err(e) => {
                    proof {
                        if old(self).yields_all() {
                            lemma_decode_none_grows::<T>(start, (i + 1) as nat, len as nat);
                        }
                    }
                    return Err(e);
                },
            };
            let ghost prev = v.model();
            v.push(elem);
            proof {
                assert(v.model() =~= prev.push(elem.model()));
                assert(self.unread() =~= start.subrange(
                    (start.len() - self.unread().len()) as int,
                    start.len() as int,
                ));
            }
            i = i + 1;
        }
        Ok(())
    }

    /// Deserializes a vector of plain values, written as `serialize_pod_vec`
    /// (or `Vec::serialize`) writes them.
    pub fn deserialize_pod_vec<T: PodBytes>(&mut self) -> (r: Result<Vec<T>>)
        ensures
            final(self).yields_all() == old(self).yields_all(),
            r matches Ok(v) ==> consumed(
                <Vec<T> as WireFormat>::spec_decode(old(self).unread()),
                v.model(),
                old(self).unread(),
                final(self).unread(),
            ),
            <Vec<T> as WireFormat>::spec_decode(old(self).unread()) is None ==> r is Err,
            old(self).yields_all() && <Vec<T> as WireFormat>::spec_decode(old(self).unread()) is Some
                ==> r is Ok,
    {
        let mut v: Vec<T> = Vec::new();
        match self.deserialize_pod_vec_in_place(&mut v) {
            Ok(()) => Ok(v),
            Err(e) => Err(e),
        }
    }

    /// Deserializes a vector of plain values into `v`, replacing its contents.
    pub fn deserialize_pod_vec_in_place<T: PodBytes>(&mut self, v: &mut Vec<T>) -> (r: Result<()>)
        ensures
            final(self).yields_all() == old(self).yields_all(),
            r is Ok ==> consumed(
                <Vec<T> as WireFormat>::spec_decode(old(self).unread()),
                final(v).model(),
                old(self).unread(),
                final(self).unread(),
            ),
            <Vec<T> as WireFormat>::spec_decode(old(self).unread()) is None ==> r is Err,
            old(self).yields_all() && <Vec<T> as WireFormat>::spec_decode(old(self).unread()) is Some
                ==> r is Ok,
    {
        let ghost start = self.unread();
        let len = usize::deserialize(self)?;
        proof {
            assert(self.unread() =~= start.subrange(4, start.len() as int));
        }
        v.clear();
        self.deserialize_pods(len, v)?;
        proof {
            lemma_decode_all_bounded::<T>(start.subrange(4, start.len() as int), len as nat);
            assert(self.unread() =~= start.subrange(
                (start.len() - self.unread().len()) as int,
                start.len() as int,
            ));
        }
        Ok(())
    }
}

} // verus!
