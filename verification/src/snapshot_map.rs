//! Hash maps in the snapshot format: the number of entries as a `u32`, then
//! each entry as its key followed by its value, in the order in which the map
//! is walked. That order varies from one process to the next, so a map has many
//! encodings; reading any of them back gives the same map.
use std::collections::HashMap;
use std::collections::hash_map::RandomState;
use std::hash::Hash;
use vstd::bytes::*;
use vstd::prelude::*;
use crate::snapshot_scalars::lemma_ne_u32;
use vstd::std_specs::hash::{builds_valid_hashers, obeys_key_model};

use crate::snapshot::{
    appended, extends, Deserialize, Deserializer, ReadUninit, Result, Serialize, Serializer,
    WireFormat, WriteUninit,
};
use crate::snapshot_collections::{
    decode_counted, encodes_counted, lemma_counted_bounded, lemma_counted_round_trip,
    lemma_decode_none_grows,
};
use crate::snapshot_seq::{
    decode_all, encodes_all, lemma_all_push, lemma_decode_all_bounded, lemma_decode_all_step,
    lemma_extends_trans,
};
use vstd::std_specs::hash::spec_hash_map_iter;
use vstd::std_specs::iter::IteratorSpec;

verus! {

broadcast use vstd::std_specs::hash::group_hash_axioms;

/// The map that inserting `pairs` in order into an empty map gives: a key that
/// occurs twice takes its last value.
pub open spec fn map_of<A, B>(pairs: Seq<(A, B)>) -> Map<A, B>
    decreases pairs.len(),
{
    if pairs.len() == 0 {
        Map::empty()
    } else {
        map_of(pairs.drop_last()).insert(pairs.last().0, pairs.last().1)
    }
}

/// No key occurs twice in `pairs`.
pub open spec fn keys_distinct<A, B>(pairs: Seq<(A, B)>) -> bool {
    forall|i: int, j: int| 0 <= i < j < pairs.len() ==> (#[trigger] pairs[i]).0 != (#[trigger] pairs[j]).0
}

/// Distinct keys have distinct models.
pub open spec fn key_model_injective<K: WireFormat>() -> bool {
    forall|a: K, b: K| #[trigger] a.model() == #[trigger] b.model() ==> a == b
}

/// The map of the models of the keys and values of `m`.
pub open spec fn map_model<K: WireFormat, V: WireFormat>(m: Map<K, V>) -> Map<K::Model, V::Model> {
    Map::new(
        |km: K::Model| exists|k: K| m.contains_key(k) && k.model() == km,
        |km: K::Model| m[choose|k: K| m.contains_key(k) && k.model() == km].model(),
    )
}

/// The map of distinct pairs holds exactly their keys, each with its value.
pub proof fn lemma_map_of_distinct<A, B>(pairs: Seq<(A, B)>)
    requires
        keys_distinct(pairs),
    ensures
        map_of(pairs).dom().finite(),
        map_of(pairs).len() == pairs.len(),
        forall|i: int| 0 <= i < pairs.len() ==> map_of(pairs).contains_key(#[trigger] pairs[i].0)
            && map_of(pairs)[pairs[i].0] == pairs[i].1,
        forall|a: A| #[trigger]
            map_of(pairs).contains_key(a) ==> exists|i: int| 0 <= i < pairs.len() && pairs[i].0 == a,
    decreases pairs.len(),
{
    if pairs.len() > 0 {
        let front = pairs.drop_last();
        assert forall|i: int, j: int| 0 <= i < j < front.len() implies (#[trigger] front[i]).0 != (
        #[trigger] front[j]).0 by {
            assert(front[i] == pairs[i]);
            assert(front[j] == pairs[j]);
        }
        lemma_map_of_distinct(front);
        let last = pairs.last();
        assert(!map_of(front).contains_key(last.0)) by {
            if map_of(front).contains_key(last.0) {
                let i = choose|i: int| 0 <= i < front.len() && front[i].0 == last.0;
                assert(pairs[i] == front[i]);
                assert(pairs[pairs.len() - 1] == last);
            }
        }
        assert forall|i: int| 0 <= i < pairs.len() implies map_of(pairs).contains_key(
            #[trigger] pairs[i].0,
        ) && map_of(pairs)[pairs[i].0] == pairs[i].1 by {
            if i < front.len() {
                assert(pairs[i] == front[i]);
                assert(pairs[i].0 != last.0) by {
                    assert(pairs[pairs.len() - 1] == last);
                }
            }
        }
        assert forall|a: A| #[trigger] map_of(pairs).contains_key(a) implies exists|i: int|
            0 <= i < pairs.len() && pairs[i].0 == a by {
            if a == last.0 {
                assert(pairs[pairs.len() - 1].0 == a);
            } else {
                let i = choose|i: int| 0 <= i < front.len() && front[i].0 == a;
                assert(pairs[i] == front[i]);
            }
        }
    }
}

/// Inserting an entry and taking models commute when keys have distinct models.
pub proof fn lemma_map_model_insert<K: WireFormat, V: WireFormat>(m: Map<K, V>, k: K, v: V)
    requires
        key_model_injective::<K>(),
    ensures
        map_model(m.insert(k, v)) == map_model(m).insert(k.model(), v.model()),
{
    let lhs = map_model(m.insert(k, v));
    let rhs = map_model(m).insert(k.model(), v.model());
    assert forall|km: K::Model| #[trigger] lhs.contains_key(km) <==> rhs.contains_key(km) by {
        if lhs.contains_key(km) {
            let k2 = choose|k2: K| m.insert(k, v).contains_key(k2) && k2.model() == km;
            if k2 != k {
                assert(m.contains_key(k2));
            }
        }
        if rhs.contains_key(km) && km != k.model() {
            let k2 = choose|k2: K| m.contains_key(k2) && k2.model() == km;
            assert(m.insert(k, v).contains_key(k2));
        }
        if km == k.model() {
            assert(m.insert(k, v).contains_key(k));
        }
    }
    assert forall|km: K::Model| #[trigger] lhs.contains_key(km) implies lhs[km] == rhs[km] by {
        let k2 = choose|k2: K| m.insert(k, v).contains_key(k2) && k2.model() == km;
        if km == k.model() {
            assert(k2 == k);
        } else {
            assert(k2 != k);
            assert(m.contains_key(k2));
            let k3 = choose|k3: K| m.contains_key(k3) && k3.model() == km;
            assert(k3 == k2);
        }
    }
    assert(lhs =~= rhs);
}

/// Maps whose keys are outside vstd's model of hashing, or whose key models
/// are not injective, are written and read all the same, but their contracts
/// say nothing.
impl<K: WireFormat, V: WireFormat> WireFormat for HashMap<K, V> {
    type Model = Map<K::Model, V::Model>;

    open spec fn model(&self) -> Map<K::Model, V::Model> {
        map_model(self@)
    }

    open spec fn spec_encodes(m: Map<K::Model, V::Model>, bytes: Seq<u8>) -> bool {
        exists|pairs: Seq<(K::Model, V::Model)>|
            #![trigger encodes_counted::<(K, V)>(pairs, bytes)]
            keys_distinct(pairs) && map_of(pairs) == m && encodes_counted::<(K, V)>(pairs, bytes)
    }

    open spec fn spec_encodable(m: Map<K::Model, V::Model>) -> bool {
        &&& m.dom().finite()
        &&& m.len() <= u32::MAX
        &&& forall|km: K::Model| #[trigger]
            m.contains_key(km) ==> K::spec_encodable(km) && V::spec_encodable(m[km])
    }

    open spec fn spec_decode(bytes: Seq<u8>) -> Option<(Map<K::Model, V::Model>, nat)> {
        match decode_counted::<(K, V)>(bytes) {
            None => None,
            Some((pairs, n)) => Some((map_of(pairs), n)),
        }
    }

    open spec fn spec_faithful() -> bool {
        &&& K::spec_faithful()
        &&& V::spec_faithful()
        &&& obeys_key_model::<K>()
        &&& builds_valid_hashers::<RandomState>()
        &&& key_model_injective::<K>()
    }

    proof fn lemma_round_trip(m: Map<K::Model, V::Model>, bytes: Seq<u8>, rest: Seq<u8>) {
        let pairs = choose|pairs: Seq<(K::Model, V::Model)>|
            #![trigger encodes_counted::<(K, V)>(pairs, bytes)]
            keys_distinct(pairs) && map_of(pairs) == m && encodes_counted::<(K, V)>(pairs, bytes);
        lemma_counted_round_trip::<(K, V)>(pairs, bytes, rest);
    }

    proof fn lemma_decode_bounded(bytes: Seq<u8>) {
        lemma_counted_bounded::<(K, V)>(bytes);
    }
}

/// Advances a walk: the next entry, which then leaves what remains of the walk.
fn walk_next<I: Iterator>(it: I) -> (r: (Option<I::Item>, I))
    ensures
        it.obeys_prophetic_iter_laws() ==> if it.remaining().len() > 0 {
            &&& r.1.remaining() == it.remaining().drop_first()
            &&& r.0 == Some(it.remaining()[0])
        } else {
            r.0 is None
        },
{
    let mut it = it;
    let r = it.next();
    (r, it)
}

/// The models of the entries of a walk of a map.
pub open spec fn entry_models<K: WireFormat, V: WireFormat>(entries: Seq<(&K, &V)>) -> Seq<
    (K::Model, V::Model),
> {
    Seq::new(entries.len(), |i: int| (entries[i].0.model(), entries[i].1.model()))
}

/// A walk of a map visits each entry once; the models of its entries, in the
/// order visited, make up the model of the map.
pub proof fn lemma_walk_models<K: WireFormat, V: WireFormat>(m: &HashMap<K, V>, entries: Seq<(&K, &V)>)
    requires
        key_model_injective::<K>(),
        entries == spec_hash_map_iter(m).remaining(),
        entries.no_duplicates(),
    ensures
        keys_distinct(entry_models(entries)),
        map_of(entry_models(entries)) == map_model(m@),
        entry_models(entries).len() == m@.len(),
        m@.dom().finite(),
{
    let ps = entry_models(entries);
    assert forall|i: int, j: int| 0 <= i < j < ps.len() implies (#[trigger] ps[i]).0 != (
    #[trigger] ps[j]).0 by {
        if ps[i].0 == ps[j].0 {
            assert(*entries[i].0 == *entries[j].0);
            assert(m@.contains_key(*entries[i].0));
            assert(m@[*entries[i].0] == *entries[i].1);
            assert(m@[*entries[j].0] == *entries[j].1);
            assert(entries[i] == entries[j]);
        }
    }
    lemma_map_of_distinct(ps);
    let lhs = map_of(ps);
    let rhs = map_model(m@);
    assert forall|km: K::Model| #[trigger] lhs.contains_key(km) <==> rhs.contains_key(km) by {
        if lhs.contains_key(km) {
            let i = choose|i: int| 0 <= i < ps.len() && ps[i].0 == km;
            assert(m@.contains_key(*entries[i].0));
        }
        if rhs.contains_key(km) {
            let k = choose|k: K| m@.contains_key(k) && k.model() == km;
            assert(entries.contains((&k, &m@[k])));
            let i = choose|i: int| 0 <= i < entries.len() && entries[i] == (&k, &m@[k]);
            assert(ps[i].0 == km);
        }
    }
    assert forall|km: K::Model| #[trigger] lhs.contains_key(km) implies lhs[km] == rhs[km] by {
        let i = choose|i: int| 0 <= i < ps.len() && ps[i].0 == km;
        assert(lhs[ps[i].0] == ps[i].1);
        let k = choose|k: K| m@.contains_key(k) && k.model() == km;
        assert(*entries[i].0 == k);
        assert(m@[*entries[i].0] == *entries[i].1);
    }
    assert(lhs =~= rhs);
}

impl<K: Serialize, V: Serialize> Serialize for HashMap<K, V> {
    /// Writes the number of entries, then each entry, key first, in the order
    /// in which the map is walked.
    fn serialize<W: WriteUninit>(&self, serializer: &mut Serializer<W>) -> (r: Result<()>) {
        let ghost before = serializer.written();
        let n = self.len();
        let mut it = self.iter();
        let ghost entries = it.remaining();
        proof {
            if Self::spec_faithful() {
                lemma_walk_models::<K, V>(self, entries);
                lemma_map_of_distinct(entry_models(entries));
            }
        }
        match n.serialize(serializer) {
            Ok(()) => {},
            Err(e) => {
                return Err(e);
            },
        }
        let ghost mid = serializer.written();
        proof {
            assert(appended(mid, mid) =~= Seq::<u8>::empty());
            assert(mid.subrange(0, mid.len() as int) =~= mid);
        }
        let mut i: usize = 0;
        while i < n
            invariant
                i <= n,
                serializer.accepts_all() == old(serializer).accepts_all(),
                before == old(serializer).written(),
                Self::spec_faithful() ==> {
                    &&& n == self@.len()
                    &&& entries.len() == n
                    &&& keys_distinct(entry_models(entries))
                    &&& map_of(entry_models(entries)) == self.model()
                    &&& it.remaining() == entries.skip(i as int)
                    &&& extends(before, mid)
                    &&& <usize as WireFormat>::spec_encodes(n, appended(before, mid))
                    &&& extends(mid, serializer.written())
                    &&& encodes_all::<(K, V)>(
                        entry_models(entries).take(i as int),
                        appended(mid, serializer.written()),
                    )
                    &&& n <= u32::MAX
                    &&& forall|j: int|
                        0 <= j < i ==> K::spec_encodable((#[trigger] entry_models(entries)[j]).0)
                            && V::spec_encodable(entry_models(entries)[j].1)
                },
            decreases n - i,
        {
            let ghost w0 = serializer.written();
            let (step, rest) = walk_next(it);
            it = rest;
            match step {
                Some((k, v)) => {
                    proof {
                        if Self::spec_faithful() {
                            assert(entries.skip(i as int)[0] == entries[i as int]);
                        }
                    }
                    match k.serialize(serializer) {
                        Ok(()) => {},
                        Err(e) => {
                            proof {
                                if Self::spec_faithful() {
                                    lemma_map_of_distinct(entry_models(entries));
                                    assert(entry_models(entries)[i as int] == (k.model(), v.model()));
                                }
                            }
                            return Err(e);
                        },
                    }
                    let ghost w1 = serializer.written();
                    match v.serialize(serializer) {
                        Ok(()) => {},
                        Err(e) => {
                            proof {
                                if Self::spec_faithful() {
                                    lemma_map_of_distinct(entry_models(entries));
                                    assert(entry_models(entries)[i as int] == (k.model(), v.model()));
                                }
                            }
                            return Err(e);
                        },
                    }
                    let ghost w2 = serializer.written();
                    proof {
                        if Self::spec_faithful() {
                            lemma_extends_trans(w0, w1, w2);
                            let piece = appended(w0, w2);
                            let k1 = (w1.len() - w0.len()) as int;
                            assert(piece.subrange(0, k1) =~= appended(w0, w1));
                            assert(piece.subrange(k1, piece.len() as int) =~= appended(w1, w2));
                            let x = (k.model(), v.model());
                            assert(K::spec_encodes(x.0, piece.subrange(0, k1)));
                            assert(V::spec_encodes(x.1, piece.subrange(k1, piece.len() as int)));
                            assert(<(K, V) as WireFormat>::spec_encodes(x, piece));
                            let done = entry_models(entries).take(i as int);
                            lemma_all_push::<(K, V)>(done, appended(mid, w0), x, piece);
                            lemma_extends_trans(mid, w0, w2);
                            assert(entry_models(entries)[i as int] == x);
                            assert(done.push(x) =~= entry_models(entries).take(i + 1));
                            assert(it.remaining() =~= entries.skip(i + 1));
                        }
                    }
                },
                None => {
                    proof {
                        if Self::spec_faithful() {
                            assert(entries.skip(i as int).len() > 0);
                        }
                    }
                    return Ok(());
                },
            }
            i = i + 1;
        }
        proof {
            if Self::spec_faithful() {
                let ps = entry_models(entries);
                assert(ps.take(n as int) =~= ps);
                lemma_ne_u32();
                lemma_extends_trans(before, mid, serializer.written());
                let all = appended(before, serializer.written());
                assert(all.subrange(0, 4) =~= appended(before, mid));
                assert(all.subrange(4, all.len() as int) =~= appended(mid, serializer.written()));
                assert(encodes_counted::<(K, V)>(ps, all));
                lemma_map_of_distinct(ps);
                let m = self.model();
                assert forall|km: K::Model| #[trigger] m.contains_key(km) implies K::spec_encodable(km)
                    && V::spec_encodable(m[km]) by {
                    let j = choose|j: int| 0 <= j < ps.len() && ps[j].0 == km;
                    assert(m[ps[j].0] == ps[j].1);
                }
            }
        }
        Ok(())
    }
}

impl<K: Deserialize + Eq + Hash, V: Deserialize> Deserialize for HashMap<K, V> {
    /// Reads the number of entries, then the entries, inserting each into a new
    /// map in the order read.
    fn deserialize<R: ReadUninit>(deserializer: &mut Deserializer<R>) -> (r: Result<Self>) {
        let ghost start = deserializer.unread();
        let len = usize::deserialize(deserializer)?;
        let ghost body = deserializer.unread();
        proof {
            assert(body =~= start.subrange(4, start.len() as int));
            assert(<usize as WireFormat>::spec_decode(start) == Some((len, 4nat)));
        }
        let mut map: HashMap<K, V> = HashMap::with_capacity(len);
        proof {
            assert(map_model(map@) =~= map_of(Seq::<(K::Model, V::Model)>::empty()));
            assert(body.subrange(0, body.len() as int) =~= body);
        }
        let mut i: usize = 0;
        while i < len
            invariant
                i <= len,
                start.len() >= 4,
                <usize as WireFormat>::spec_decode(start) == Some((len, 4nat)),
                body == start.subrange(4, start.len() as int),
                deserializer.yields_all() == old(deserializer).yields_all(),
                start == old(deserializer).unread(),
                Self::spec_faithful() ==> {
                    &&& decode_all::<(K, V)>(body, i as nat) matches Some((ps, n))
                    &&& n <= body.len()
                    &&& deserializer.unread() == body.subrange(n as int, body.len() as int)
                    &&& map_model(map@) == map_of(ps)
                },
            decreases len - i,
        {
            let ghost before = deserializer.unread();
            proof {
                lemma_decode_all_step::<(K, V)>(body, i as nat);
                lemma_decode_all_bounded::<(K, V)>(body, (i + 1) as nat);
            }
            let entry = match <(K, V)>::deserialize(deserializer) {
                Ok(e) => e,
                Err(e) => {
                    proof {
                        if Self::spec_faithful() && old(deserializer).yields_all() {
                            assert(decode_all::<(K, V)>(body, (i + 1) as nat) is None);
                            lemma_decode_none_grows::<(K, V)>(body, (i + 1) as nat, len as nat);
                            assert(<usize as WireFormat>::spec_decode(start) == Some((len, 4nat)));
                            assert(decode_counted::<(K, V)>(start) is None);
                        }
                    }
                    return Err(e);
                },
            };
            let (k, v) = entry;
            let ghost prev = map@;
            map.insert(k, v);
            proof {
                if Self::spec_faithful() {
                    let (ps, n) = decode_all::<(K, V)>(body, i as nat).unwrap();
                    lemma_map_model_insert(prev, k, v);
                    let ps2 = ps.push((k.model(), v.model()));
                    assert(ps2.drop_last() =~= ps);
                    let (ps3, n3) = decode_all::<(K, V)>(body, (i + 1) as nat).unwrap();
                    assert(ps3 == ps2);
                    assert(deserializer.unread() =~= body.subrange(n3 as int, body.len() as int));
                }
            }
            i = i + 1;
        }
        proof {
            if Self::spec_faithful() {
                let (ps, n) = decode_all::<(K, V)>(body, len as nat).unwrap();
                assert(deserializer.unread() =~= start.subrange(
                    (n + 4) as int,
                    start.len() as int,
                ));
            }
        }
        Ok(map)
    }
}

} // verus!
