//! Runs of values in the snapshot format: a run is the encodings of its
//! elements written one after another. Collections write their length first
//! and then their elements as a run.
use vstd::prelude::*;

use crate::snapshot::{appended, extends, WireFormat};

verus! {

/// `true` when `bytes` is the concatenation of encodings of the models `s`,
/// in order.
pub open spec fn encodes_all<T: WireFormat>(s: Seq<T::Model>, bytes: Seq<u8>) -> bool
    decreases s.len(),
{
    if s.len() == 0 {
        bytes.len() == 0
    } else {
        exists|k: int|
            0 <= k <= bytes.len() && #[trigger] T::spec_encodes(s[0], bytes.subrange(0, k))
                && encodes_all::<T>(s.drop_first(), bytes.subrange(k, bytes.len() as int))
    }
}

/// `true` when every model of `s` can be encoded.
pub open spec fn all_encodable<T: WireFormat>(s: Seq<T::Model>) -> bool {
    forall|i: int| 0 <= i < s.len() ==> #[trigger] T::spec_encodable(s[i])
}

/// Decodes `count` values one after another from the front of `bytes`.
pub open spec fn decode_all<T: WireFormat>(bytes: Seq<u8>, count: nat) -> Option<
    (Seq<T::Model>, nat),
>
    decreases count,
{
    if count == 0 {
        Some((Seq::empty(), 0))
    } else {
        match T::spec_decode(bytes) {
            None => None,
            Some((m, n)) => if n > bytes.len() {
                None
            } else {
                match decode_all::<T>(bytes.subrange(n as int, bytes.len() as int), (count - 1) as nat) {
                    None => None,
                    Some((ms, k)) => Some((seq![m] + ms, n + k)),
                }
            },
        }
    }
}

/// Decoding a run of encodings gives the models back and consumes the run.
pub proof fn lemma_all_round_trip<T: WireFormat>(s: Seq<T::Model>, bytes: Seq<u8>, rest: Seq<u8>)
    requires
        T::spec_faithful(),
        encodes_all::<T>(s, bytes),
    ensures
        decode_all::<T>(bytes + rest, s.len()) == Some((s, bytes.len())),
    decreases s.len(),
{
    if s.len() == 0 {
        assert(s =~= Seq::<T::Model>::empty());
    } else {
        let k = choose|k: int|
            0 <= k <= bytes.len() && #[trigger] T::spec_encodes(s[0], bytes.subrange(0, k))
                && encodes_all::<T>(s.drop_first(), bytes.subrange(k, bytes.len() as int));
        let head = bytes.subrange(0, k);
        let tail = bytes.subrange(k, bytes.len() as int);
        T::lemma_round_trip(s[0], head, tail + rest);
        assert(head + (tail + rest) =~= bytes + rest);
        lemma_all_round_trip::<T>(s.drop_first(), tail, rest);
        assert((bytes + rest).subrange(k, (bytes + rest).len() as int) =~= tail + rest);
        assert(seq![s[0]] + s.drop_first() =~= s);
    }
}

/// Appending an encoding of `x` to a run of encodings of `s` gives a run of
/// encodings of `s.push(x)`.
pub proof fn lemma_all_push<T: WireFormat>(s: Seq<T::Model>, bytes: Seq<u8>, x: T::Model, p: Seq<u8>)
    requires
        encodes_all::<T>(s, bytes),
        T::spec_encodes(x, p),
    ensures
        encodes_all::<T>(s.push(x), bytes + p),
    decreases s.len(),
{
    if s.len() == 0 {
        assert(s.push(x)[0] == x);
        assert(bytes =~= Seq::<u8>::empty());
        assert((bytes + p).subrange(0, p.len() as int) =~= p);
        assert(s.push(x).drop_first() =~= Seq::<T::Model>::empty());
        assert((bytes + p).subrange(p.len() as int, (bytes + p).len() as int) =~= Seq::<u8>::empty());
        assert(encodes_all::<T>(s.push(x).drop_first(), (bytes + p).subrange(p.len() as int, (bytes + p).len() as int)));
        assert(T::spec_encodes(s.push(x)[0], (bytes + p).subrange(0, p.len() as int)));
    } else {
        let k = choose|k: int|
            0 <= k <= bytes.len() && #[trigger] T::spec_encodes(s[0], bytes.subrange(0, k))
                && encodes_all::<T>(s.drop_first(), bytes.subrange(k, bytes.len() as int));
        let tail = bytes.subrange(k, bytes.len() as int);
        lemma_all_push::<T>(s.drop_first(), tail, x, p);
        assert(s.push(x).drop_first() =~= s.drop_first().push(x));
        assert((bytes + p).subrange(0, k) =~= bytes.subrange(0, k));
        assert((bytes + p).subrange(k, (bytes + p).len() as int) =~= tail + p);
        assert(s.push(x)[0] == s[0]);
        assert(T::spec_encodes(s.push(x)[0], (bytes + p).subrange(0, k)));
    }
}

/// A decoded run has as many models as asked for and never consumes more
/// than its input.
pub proof fn lemma_decode_all_bounded<T: WireFormat>(bytes: Seq<u8>, count: nat)
    ensures
        decode_all::<T>(bytes, count) matches Some((ms, n)) ==> ms.len() == count && n
            <= bytes.len(),
    decreases count,
{
    if count > 0 {
        match T::spec_decode(bytes) {
            None => {},
            Some((m, n)) => {
                if n <= bytes.len() {
                    lemma_decode_all_bounded::<T>(
                        bytes.subrange(n as int, bytes.len() as int),
                        (count - 1) as nat,
                    );
                }
            },
        }
    }
}

/// Decoding one more value of a run: the first `count` values, then one
/// value from what follows them.
pub proof fn lemma_decode_all_step<T: WireFormat>(bytes: Seq<u8>, count: nat)
    ensures
        decode_all::<T>(bytes, count + 1) == match decode_all::<T>(bytes, count) {
            None => None,
            Some((ms, n)) => match T::spec_decode(bytes.subrange(n as int, bytes.len() as int)) {
                None => None,
                Some((m, k)) => if n + k > bytes.len() {
                    None
                } else {
                    Some((ms.push(m), n + k))
                },
            },
        },
    decreases count,
{
    lemma_decode_all_bounded::<T>(bytes, count);
    reveal_with_fuel(decode_all, 2);
    if count == 0 {
        assert(bytes.subrange(0, bytes.len() as int) =~= bytes);
        match T::spec_decode(bytes) {
            None => {},
            Some((m, n)) => {
                if n <= bytes.len() {
                    assert(Seq::<T::Model>::empty().push(m) =~= seq![m] + Seq::<T::Model>::empty());
                }
            },
        }
    } else {
        match T::spec_decode(bytes) {
            None => {},
            Some((m0, n0)) => {
                if n0 <= bytes.len() {
                    let rest = bytes.subrange(n0 as int, bytes.len() as int);
                    lemma_decode_all_step::<T>(rest, (count - 1) as nat);
                    lemma_decode_all_bounded::<T>(rest, (count - 1) as nat);
                    match decode_all::<T>(rest, (count - 1) as nat) {
                        None => {},
                        Some((ms, k)) => {
                            assert(rest.subrange(k as int, rest.len() as int) =~= bytes.subrange(
                                (n0 + k) as int,
                                bytes.len() as int,
                            ));
                            match T::spec_decode(rest.subrange(k as int, rest.len() as int)) {
                                None => {},
                                Some((m, j)) => {
                                    assert((seq![m0] + ms).push(m) =~= seq![m0] + ms.push(m));
                                },
                            }
                        },
                    }
                }
            },
        }
    }
}

/// Extending a written prefix twice extends it once; the appended bytes add
/// up.
pub proof fn lemma_extends_trans(a: Seq<u8>, b: Seq<u8>, c: Seq<u8>)
    requires
        extends(a, b),
        extends(b, c),
    ensures
        extends(a, c),
        appended(a, c) == appended(a, b) + appended(b, c),
{
    assert(c.subrange(0, a.len() as int) =~= b.subrange(0, a.len() as int));
    assert(appended(a, c) =~= appended(a, b) + appended(b, c));
}

} // verus!
