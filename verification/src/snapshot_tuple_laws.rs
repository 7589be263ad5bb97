//! Laws of the tuple encodings: a tuple is written as its fields, one after
//! another, in field order, and nothing else is an encoding of it.
use vstd::prelude::*;

use crate::snapshot::WireFormat;

verus! {

/// A tuple of 1 field is encoded by its fields' encodings put one after
/// another in field order.
pub proof fn lemma_tuple1_encodes_fields_in_order<T0: WireFormat>(m: (T0::Model,), b0: Seq<u8>)
    requires
        T0::spec_encodes(m.0, b0),
    ensures
        <(T0,) as WireFormat>::spec_encodes(m, b0),
{
    let bytes = b0;
    assert(bytes.subrange(0, bytes.len() as int) =~= b0);
    assert(T0::spec_encodes(m.0, bytes.subrange(0, bytes.len() as int)));
}

/// An encoding of a tuple of 1 field cuts into its fields' encodings, in
/// field order, at the positions `cuts`.
pub proof fn lemma_tuple1_cuts_into_fields<T0: WireFormat>(m: (T0::Model,), bytes: Seq<u8>) -> (cuts: Seq<int>)
    requires
        <(T0,) as WireFormat>::spec_encodes(m, bytes),
    ensures
        cuts.len() == 2,
        cuts[0] == 0,
        cuts[1] == bytes.len(),
        cuts[0] <= cuts[1],
        T0::spec_encodes(m.0, bytes.subrange(cuts[0], cuts[1])),
{
    assert(bytes.subrange(0, bytes.len() as int) =~= bytes);
    seq![0int, bytes.len() as int]
}

/// A tuple of 2 fields is encoded by its fields' encodings put one after
/// another in field order.
pub proof fn lemma_tuple2_encodes_fields_in_order<T0: WireFormat, T1: WireFormat>(m: (T0::Model, T1::Model), b0: Seq<u8>, b1: Seq<u8>)
    requires
        T0::spec_encodes(m.0, b0),
        T1::spec_encodes(m.1, b1),
    ensures
        <(T0, T1) as WireFormat>::spec_encodes(m, b0 + b1),
{
    let bytes = b0 + b1;
    assert(bytes.subrange(0, (b0.len()) as int) =~= b0);
    assert(bytes.subrange((b0.len()) as int, bytes.len() as int) =~= b1);
    let k1: int = (b0.len()) as int;
    assert(exists|k1: int| 0 <= k1 <= bytes.len() && #[trigger] T0::spec_encodes(m.0, bytes.subrange(0, k1)) && (T1::spec_encodes(m.1, bytes.subrange(k1, bytes.len() as int))));
}

/// An encoding of a tuple of 2 fields cuts into its fields' encodings, in
/// field order, at the positions `cuts`.
pub proof fn lemma_tuple2_cuts_into_fields<T0: WireFormat, T1: WireFormat>(m: (T0::Model, T1::Model), bytes: Seq<u8>) -> (cuts: Seq<int>)
    requires
        <(T0, T1) as WireFormat>::spec_encodes(m, bytes),
    ensures
        cuts.len() == 3,
        cuts[0] == 0,
        cuts[2] == bytes.len(),
        cuts[0] <= cuts[1],
        cuts[1] <= cuts[2],
        T0::spec_encodes(m.0, bytes.subrange(cuts[0], cuts[1])),
        T1::spec_encodes(m.1, bytes.subrange(cuts[1], cuts[2])),
{
    let k1 = choose|k1: int| 0 <= k1 <= bytes.len() && #[trigger] T0::spec_encodes(m.0, bytes.subrange(0, k1)) && (T1::spec_encodes(m.1, bytes.subrange(k1, bytes.len() as int)));
    seq![0int, k1, bytes.len() as int]
}

/// A tuple of 3 fields is encoded by its fields' encodings put one after
/// another in field order.
pub proof fn lemma_tuple3_encodes_fields_in_order<T0: WireFormat, T1: WireFormat, T2: WireFormat>(m: (T0::Model, T1::Model, T2::Model), b0: Seq<u8>, b1: Seq<u8>, b2: Seq<u8>)
    requires
        T0::spec_encodes(m.0, b0),
        T1::spec_encodes(m.1, b1),
        T2::spec_encodes(m.2, b2),
    ensures
        <(T0, T1, T2) as WireFormat>::spec_encodes(m, b0 + b1 + b2),
{
    let bytes = b0 + b1 + b2;
    assert(bytes.subrange(0, (b0.len()) as int) =~= b0);
    assert(bytes.subrange((b0.len()) as int, (b0.len() + b1.len()) as int) =~= b1);
    assert(bytes.subrange((b0.len() + b1.len()) as int, bytes.len() as int) =~= b2);
    let k1: int = (b0.len()) as int;
    let k2: int = (b0.len() + b1.len()) as int;
    assert(exists|k2: int| k1 <= k2 <= bytes.len() && #[trigger] T1::spec_encodes(m.1, bytes.subrange(k1, k2)) && (T2::spec_encodes(m.2, bytes.subrange(k2, bytes.len() as int))));
    assert(exists|k1: int| 0 <= k1 <= bytes.len() && #[trigger] T0::spec_encodes(m.0, bytes.subrange(0, k1)) && (exists|k2: int| k1 <= k2 <= bytes.len() && #[trigger] T1::spec_encodes(m.1, bytes.subrange(k1, k2)) && (T2::spec_encodes(m.2, bytes.subrange(k2, bytes.len() as int)))));
}

/// An encoding of a tuple of 3 fields cuts into its fields' encodings, in
/// field order, at the positions `cuts`.
pub proof fn lemma_tuple3_cuts_into_fields<T0: WireFormat, T1: WireFormat, T2: WireFormat>(m: (T0::Model, T1::Model, T2::Model), bytes: Seq<u8>) -> (cuts: Seq<int>)
    requires
        <(T0, T1, T2) as WireFormat>::spec_encodes(m, bytes),
    ensures
        cuts.len() == 4,
        cuts[0] == 0,
        cuts[3] == bytes.len(),
        cuts[0] <= cuts[1],
        cuts[1] <= cuts[2],
        cuts[2] <= cuts[3],
        T0::spec_encodes(m.0, bytes.subrange(cuts[0], cuts[1])),
        T1::spec_encodes(m.1, bytes.subrange(cuts[1], cuts[2])),
        T2::spec_encodes(m.2, bytes.subrange(cuts[2], cuts[3])),
{
    let k1 = choose|k1: int| 0 <= k1 <= bytes.len() && #[trigger] T0::spec_encodes(m.0, bytes.subrange(0, k1)) && (exists|k2: int| k1 <= k2 <= bytes.len() && #[trigger] T1::spec_encodes(m.1, bytes.subrange(k1, k2)) && (T2::spec_encodes(m.2, bytes.subrange(k2, bytes.len() as int))));
    let k2 = choose|k2: int| k1 <= k2 <= bytes.len() && #[trigger] T1::spec_encodes(m.1, bytes.subrange(k1, k2)) && (T2::spec_encodes(m.2, bytes.subrange(k2, bytes.len() as int)));
    seq![0int, k1, k2, bytes.len() as int]
}

/// A tuple of 4 fields is encoded by its fields' encodings put one after
/// another in field order.
pub proof fn lemma_tuple4_encodes_fields_in_order<T0: WireFormat, T1: WireFormat, T2: WireFormat, T3: WireFormat>(m: (T0::Model, T1::Model, T2::Model, T3::Model), b0: Seq<u8>, b1: Seq<u8>, b2: Seq<u8>, b3: Seq<u8>)
    requires
        T0::spec_encodes(m.0, b0),
        T1::spec_encodes(m.1, b1),
        T2::spec_encodes(m.2, b2),
        T3::spec_encodes(m.3, b3),
    ensures
        <(T0, T1, T2, T3) as WireFormat>::spec_encodes(m, b0 + b1 + b2 + b3),
{
    let bytes = b0 + b1 + b2 + b3;
    assert(bytes.subrange(0, (b0.len()) as int) =~= b0);
    assert(bytes.subrange((b0.len()) as int, (b0.len() + b1.len()) as int) =~= b1);
    assert(bytes.subrange((b0.len() + b1.len()) as int, (b0.len() + b1.len() + b2.len()) as int) =~= b2);
    assert(bytes.subrange((b0.len() + b1.len() + b2.len()) as int, bytes.len() as int) =~= b3);
    let k1: int = (b0.len()) as int;
    let k2: int = (b0.len() + b1.len()) as int;
    let k3: int = (b0.len() + b1.len() + b2.len()) as int;
    assert(exists|k3: int| k2 <= k3 <= bytes.len() && #[trigger] T2::spec_encodes(m.2, bytes.subrange(k2, k3)) && (T3::spec_encodes(m.3, bytes.subrange(k3, bytes.len() as int))));
    assert(exists|k2: int| k1 <= k2 <= bytes.len() && #[trigger] T1::spec_encodes(m.1, bytes.subrange(k1, k2)) && (exists|k3: int| k2 <= k3 <= bytes.len() && #[trigger] T2::spec_encodes(m.2, bytes.subrange(k2, k3)) && (T3::spec_encodes(m.3, bytes.subrange(k3, bytes.len() as int)))));
    assert(exists|k1: int| 0 <= k1 <= bytes.len() && #[trigger] T0::spec_encodes(m.0, bytes.subrange(0, k1)) && (exists|k2: int| k1 <= k2 <= bytes.len() && #[trigger] T1::spec_encodes(m.1, bytes.subrange(k1, k2)) && (exists|k3: int| k2 <= k3 <= bytes.len() && #[trigger] T2::spec_encodes(m.2, bytes.subrange(k2, k3)) && (T3::spec_encodes(m.3, bytes.subrange(k3, bytes.len() as int))))));
}

/// An encoding of a tuple of 4 fields cuts into its fields' encodings, in
/// field order, at the positions `cuts`.
pub proof fn lemma_tuple4_cuts_into_fields<T0: WireFormat, T1: WireFormat, T2: WireFormat, T3: WireFormat>(m: (T0::Model, T1::Model, T2::Model, T3::Model), bytes: Seq<u8>) -> (cuts: Seq<int>)
    requires
        <(T0, T1, T2, T3) as WireFormat>::spec_encodes(m, bytes),
    ensures
        cuts.len() == 5,
        cuts[0] == 0,
        cuts[4] == bytes.len(),
        cuts[0] <= cuts[1],
        cuts[1] <= cuts[2],
        cuts[2] <= cuts[3],
        cuts[3] <= cuts[4],
        T0::spec_encodes(m.0, bytes.subrange(cuts[0], cuts[1])),
        T1::spec_encodes(m.1, bytes.subrange(cuts[1], cuts[2])),
        T2::spec_encodes(m.2, bytes.subrange(cuts[2], cuts[3])),
        T3::spec_encodes(m.3, bytes.subrange(cuts[3], cuts[4])),
{
    let k1 = choose|k1: int| 0 <= k1 <= bytes.len() && #[trigger] T0::spec_encodes(m.0, bytes.subrange(0, k1)) && (exists|k2: int| k1 <= k2 <= bytes.len() && #[trigger] T1::spec_encodes(m.1, bytes.subrange(k1, k2)) && (exists|k3: int| k2 <= k3 <= bytes.len() && #[trigger] T2::spec_encodes(m.2, bytes.subrange(k2, k3)) && (T3::spec_encodes(m.3, bytes.subrange(k3, bytes.len() as int)))));
    let k2 = choose|k2: int| k1 <= k2 <= bytes.len() && #[trigger] T1::spec_encodes(m.1, bytes.subrange(k1, k2)) && (exists|k3: int| k2 <= k3 <= bytes.len() && #[trigger] T2::spec_encodes(m.2, bytes.subrange(k2, k3)) && (T3::spec_encodes(m.3, bytes.subrange(k3, bytes.len() as int))));
    let k3 = choose|k3: int| k2 <= k3 <= bytes.len() && #[trigger] T2::spec_encodes(m.2, bytes.subrange(k2, k3)) && (T3::spec_encodes(m.3, bytes.subrange(k3, bytes.len() as int)));
    seq![0int, k1, k2, k3, bytes.len() as int]
}

/// A tuple of 5 fields is encoded by its fields' encodings put one after
/// another in field order.
pub proof fn lemma_tuple5_encodes_fields_in_order<T0: WireFormat, T1: WireFormat, T2: WireFormat, T3: WireFormat, T4: WireFormat>(m: (T0::Model, T1::Model, T2::Model, T3::Model, T4::Model), b0: Seq<u8>, b1: Seq<u8>, b2: Seq<u8>, b3: Seq<u8>, b4: Seq<u8>)
    requires
        T0::spec_encodes(m.0, b0),
        T1::spec_encodes(m.1, b1),
        T2::spec_encodes(m.2, b2),
        T3::spec_encodes(m.3, b3),
        T4::spec_encodes(m.4, b4),
    ensures
        <(T0, T1, T2, T3, T4) as WireFormat>::spec_encodes(m, b0 + b1 + b2 + b3 + b4),
{
    let bytes = b0 + b1 + b2 + b3 + b4;
    assert(bytes.subrange(0, (b0.len()) as int) =~= b0);
    assert(bytes.subrange((b0.len()) as int, (b0.len() + b1.len()) as int) =~= b1);
    assert(bytes.subrange((b0.len() + b1.len()) as int, (b0.len() + b1.len() + b2.len()) as int) =~= b2);
    assert(bytes.subrange((b0.len() + b1.len() + b2.len()) as int, (b0.len() + b1.len() + b2.len() + b3.len()) as int) =~= b3);
    assert(bytes.subrange((b0.len() + b1.len() + b2.len() + b3.len()) as int, bytes.len() as int) =~= b4);
    let k1: int = (b0.len()) as int;
    let k2: int = (b0.len() + b1.len()) as int;
    let k3: int = (b0.len() + b1.len() + b2.len()) as int;
    let k4: int = (b0.len() + b1.len() + b2.len() + b3.len()) as int;
    assert(exists|k4: int| k3 <= k4 <= bytes.len() && #[trigger] T3::spec_encodes(m.3, bytes.subrange(k3, k4)) && (T4::spec_encodes(m.4, bytes.subrange(k4, bytes.len() as int))));
    assert(exists|k3: int| k2 <= k3 <= bytes.len() && #[trigger] T2::spec_encodes(m.2, bytes.subrange(k2, k3)) && (exists|k4: int| k3 <= k4 <= bytes.len() && #[trigger] T3::spec_encodes(m.3, bytes.subrange(k3, k4)) && (T4::spec_encodes(m.4, bytes.subrange(k4, bytes.len() as int)))));
    assert(exists|k2: int| k1 <= k2 <= bytes.len() && #[trigger] T1::spec_encodes(m.1, bytes.subrange(k1, k2)) && (exists|k3: int| k2 <= k3 <= bytes.len() && #[trigger] T2::spec_encodes(m.2, bytes.subrange(k2, k3)) && (exists|k4: int| k3 <= k4 <= bytes.len() && #[trigger] T3::spec_encodes(m.3, bytes.subrange(k3, k4)) && (T4::spec_encodes(m.4, bytes.subrange(k4, bytes.len() as int))))));
    assert(exists|k1: int| 0 <= k1 <= bytes.len() && #[trigger] T0::spec_encodes(m.0, bytes.subrange(0, k1)) && (exists|k2: int| k1 <= k2 <= bytes.len() && #[trigger] T1::spec_encodes(m.1, bytes.subrange(k1, k2)) && (exists|k3: int| k2 <= k3 <= bytes.len() && #[trigger] T2::spec_encodes(m.2, bytes.subrange(k2, k3)) && (exists|k4: int| k3 <= k4 <= bytes.len() && #[trigger] T3::spec_encodes(m.3, bytes.subrange(k3, k4)) && (T4::spec_encodes(m.4, bytes.subrange(k4, bytes.len() as int)))))));
}

/// An encoding of a tuple of 5 fields cuts into its fields' encodings, in
/// field order, at the positions `cuts`.
pub proof fn lemma_tuple5_cuts_into_fields<T0: WireFormat, T1: WireFormat, T2: WireFormat, T3: WireFormat, T4: WireFormat>(m: (T0::Model, T1::Model, T2::Model, T3::Model, T4::Model), bytes: Seq<u8>) -> (cuts: Seq<int>)
    requires
        <(T0, T1, T2, T3, T4) as WireFormat>::spec_encodes(m, bytes),
    ensures
        cuts.len() == 6,
        cuts[0] == 0,
        cuts[5] == bytes.len(),
        cuts[0] <= cuts[1],
        cuts[1] <= cuts[2],
        cuts[2] <= cuts[3],
        cuts[3] <= cuts[4],
        cuts[4] <= cuts[5],
        T0::spec_encodes(m.0, bytes.subrange(cuts[0], cuts[1])),
        T1::spec_encodes(m.1, bytes.subrange(cuts[1], cuts[2])),
        T2::spec_encodes(m.2, bytes.subrange(cuts[2], cuts[3])),
        T3::spec_encodes(m.3, bytes.subrange(cuts[3], cuts[4])),
        T4::spec_encodes(m.4, bytes.subrange(cuts[4], cuts[5])),
{
    let k1 = choose|k1: int| 0 <= k1 <= bytes.len() && #[trigger] T0::spec_encodes(m.0, bytes.subrange(0, k1)) && (exists|k2: int| k1 <= k2 <= bytes.len() && #[trigger] T1::spec_encodes(m.1, bytes.subrange(k1, k2)) && (exists|k3: int| k2 <= k3 <= bytes.len() && #[trigger] T2::spec_encodes(m.2, bytes.subrange(k2, k3)) && (exists|k4: int| k3 <= k4 <= bytes.len() && #[trigger] T3::spec_encodes(m.3, bytes.subrange(k3, k4)) && (T4::spec_encodes(m.4, bytes.subrange(k4, bytes.len() as int))))));
    let k2 = choose|k2: int| k1 <= k2 <= bytes.len() && #[trigger] T1::spec_encodes(m.1, bytes.subrange(k1, k2)) && (exists|k3: int| k2 <= k3 <= bytes.len() && #[trigger] T2::spec_encodes(m.2, bytes.subrange(k2, k3)) && (exists|k4: int| k3 <= k4 <= bytes.len() && #[trigger] T3::spec_encodes(m.3, bytes.subrange(k3, k4)) && (T4::spec_encodes(m.4, bytes.subrange(k4, bytes.len() as int)))));
    let k3 = choose|k3: int| k2 <= k3 <= bytes.len() && #[trigger] T2::spec_encodes(m.2, bytes.subrange(k2, k3)) && (exists|k4: int| k3 <= k4 <= bytes.len() && #[trigger] T3::spec_encodes(m.3, bytes.subrange(k3, k4)) && (T4::spec_encodes(m.4, bytes.subrange(k4, bytes.len() as int))));
    let k4 = choose|k4: int| k3 <= k4 <= bytes.len() && #[trigger] T3::spec_encodes(m.3, bytes.subrange(k3, k4)) && (T4::spec_encodes(m.4, bytes.subrange(k4, bytes.len() as int)));
    seq![0int, k1, k2, k3, k4, bytes.len() as int]
}

/// A tuple of 6 fields is encoded by its fields' encodings put one after
/// another in field order.
#[verifier::spinoff_prover]
#[verifier::rlimit(60)]
pub proof fn lemma_tuple6_encodes_fields_in_order<T0: WireFormat, T1: WireFormat, T2: WireFormat, T3: WireFormat, T4: WireFormat, T5: WireFormat>(m: (T0::Model, T1::Model, T2::Model, T3::Model, T4::Model, T5::Model), b0: Seq<u8>, b1: Seq<u8>, b2: Seq<u8>, b3: Seq<u8>, b4: Seq<u8>, b5: Seq<u8>)
    requires
        T0::spec_encodes(m.0, b0),
        T1::spec_encodes(m.1, b1),
        T2::spec_encodes(m.2, b2),
        T3::spec_encodes(m.3, b3),
        T4::spec_encodes(m.4, b4),
        T5::spec_encodes(m.5, b5),
    ensures
        <(T0, T1, T2, T3, T4, T5) as WireFormat>::spec_encodes(m, b0 + b1 + b2 + b3 + b4 + b5),
{
    let bytes = b0 + b1 + b2 + b3 + b4 + b5;
    assert(bytes.subrange(0, (b0.len()) as int) =~= b0);
    assert(bytes.subrange((b0.len()) as int, (b0.len() + b1.len()) as int) =~= b1);
    assert(bytes.subrange((b0.len() + b1.len()) as int, (b0.len() + b1.len() + b2.len()) as int) =~= b2);
    assert(bytes.subrange((b0.len() + b1.len() + b2.len()) as int, (b0.len() + b1.len() + b2.len() + b3.len()) as int) =~= b3);
    assert(bytes.subrange((b0.len() + b1.len() + b2.len() + b3.len()) as int, (b0.len() + b1.len() + b2.len() + b3.len() + b4.len()) as int) =~= b4);
    assert(bytes.subrange((b0.len() + b1.len() + b2.len() + b3.len() + b4.len()) as int, bytes.len() as int) =~= b5);
    let k1: int = (b0.len()) as int;
    let k2: int = (b0.len() + b1.len()) as int;
    let k3: int = (b0.len() + b1.len() + b2.len()) as int;
    let k4: int = (b0.len() + b1.len() + b2.len() + b3.len()) as int;
    let k5: int = (b0.len() + b1.len() + b2.len() + b3.len() + b4.len()) as int;
    assert(exists|k5: int| k4 <= k5 <= bytes.len() && #[trigger] T4::spec_encodes(m.4, bytes.subrange(k4, k5)) && (T5::spec_encodes(m.5, bytes.subrange(k5, bytes.len() as int))));
    assert(exists|k4: int| k3 <= k4 <= bytes.len() && #[trigger] T3::spec_encodes(m.3, bytes.subrange(k3, k4)) && (exists|k5: int| k4 <= k5 <= bytes.len() && #[trigger] T4::spec_encodes(m.4, bytes.subrange(k4, k5)) && (T5::spec_encodes(m.5, bytes.subrange(k5, bytes.len() as int)))));
    assert(exists|k3: int| k2 <= k3 <= bytes.len() && #[trigger] T2::spec_encodes(m.2, bytes.subrange(k2, k3)) && (exists|k4: int| k3 <= k4 <= bytes.len() && #[trigger] T3::spec_encodes(m.3, bytes.subrange(k3, k4)) && (exists|k5: int| k4 <= k5 <= bytes.len() && #[trigger] T4::spec_encodes(m.4, bytes.subrange(k4, k5)) && (T5::spec_encodes(m.5, bytes.subrange(k5, bytes.len() as int))))));
    assert(exists|k2: int| k1 <= k2 <= bytes.len() && #[trigger] T1::spec_encodes(m.1, bytes.subrange(k1, k2)) && (exists|k3: int| k2 <= k3 <= bytes.len() && #[trigger] T2::spec_encodes(m.2, bytes.subrange(k2, k3)) && (exists|k4: int| k3 <= k4 <= bytes.len() && #[trigger] T3::spec_encodes(m.3, bytes.subrange(k3, k4)) && (exists|k5: int| k4 <= k5 <= bytes.len() && #[trigger] T4::spec_encodes(m.4, bytes.subrange(k4, k5)) && (T5::spec_encodes(m.5, bytes.subrange(k5, bytes.len() as int)))))));
    assert(exists|k1: int| 0 <= k1 <= bytes.len() && #[trigger] T0::spec_encodes(m.0, bytes.subrange(0, k1)) && (exists|k2: int| k1 <= k2 <= bytes.len() && #[trigger] T1::spec_encodes(m.1, bytes.subrange(k1, k2)) && (exists|k3: int| k2 <= k3 <= bytes.len() && #[trigger] T2::spec_encodes(m.2, bytes.subrange(k2, k3)) && (exists|k4: int| k3 <= k4 <= bytes.len() && #[trigger] T3::spec_encodes(m.3, bytes.subrange(k3, k4)) && (exists|k5: int| k4 <= k5 <= bytes.len() && #[trigger] T4::spec_encodes(m.4, bytes.subrange(k4, k5)) && (T5::spec_encodes(m.5, bytes.subrange(k5, bytes.len() as int))))))));
}

/// An encoding of a tuple of 6 fields cuts into its fields' encodings, in
/// field order, at the positions `cuts`.
#[verifier::spinoff_prover]
#[verifier::rlimit(60)]
pub proof fn lemma_tuple6_cuts_into_fields<T0: WireFormat, T1: WireFormat, T2: WireFormat, T3: WireFormat, T4: WireFormat, T5: WireFormat>(m: (T0::Model, T1::Model, T2::Model, T3::Model, T4::Model, T5::Model), bytes: Seq<u8>) -> (cuts: Seq<int>)
    requires
        <(T0, T1, T2, T3, T4, T5) as WireFormat>::spec_encodes(m, bytes),
    ensures
        cuts.len() == 7,
        cuts[0] == 0,
        cuts[6] == bytes.len(),
        cuts[0] <= cuts[1],
        cuts[1] <= cuts[2],
        cuts[2] <= cuts[3],
        cuts[3] <= cuts[4],
        cuts[4] <= cuts[5],
        cuts[5] <= cuts[6],
        T0::spec_encodes(m.0, bytes.subrange(cuts[0], cuts[1])),
        T1::spec_encodes(m.1, bytes.subrange(cuts[1], cuts[2])),
        T2::spec_encodes(m.2, bytes.subrange(cuts[2], cuts[3])),
        T3::spec_encodes(m.3, bytes.subrange(cuts[3], cuts[4])),
        T4::spec_encodes(m.4, bytes.subrange(cuts[4], cuts[5])),
        T5::spec_encodes(m.5, bytes.subrange(cuts[5], cuts[6])),
{
    let k1 = choose|k1: int| 0 <= k1 <= bytes.len() && #[trigger] T0::spec_encodes(m.0, bytes.subrange(0, k1)) && (exists|k2: int| k1 <= k2 <= bytes.len() && #[trigger] T1::spec_encodes(m.1, bytes.subrange(k1, k2)) && (exists|k3: int| k2 <= k3 <= bytes.len() && #[trigger] T2::spec_encodes(m.2, bytes.subrange(k2, k3)) && (exists|k4: int| k3 <= k4 <= bytes.len() && #[trigger] T3::spec_encodes(m.3, bytes.subrange(k3, k4)) && (exists|k5: int| k4 <= k5 <= bytes.len() && #[trigger] T4::spec_encodes(m.4, bytes.subrange(k4, k5)) && (T5::spec_encodes(m.5, bytes.subrange(k5, bytes.len() as int)))))));
    let k2 = choose|k2: int| k1 <= k2 <= bytes.len() && #[trigger] T1::spec_encodes(m.1, bytes.subrange(k1, k2)) && (exists|k3: int| k2 <= k3 <= bytes.len() && #[trigger] T2::spec_encodes(m.2, bytes.subrange(k2, k3)) && (exists|k4: int| k3 <= k4 <= bytes.len() && #[trigger] T3::spec_encodes(m.3, bytes.subrange(k3, k4)) && (exists|k5: int| k4 <= k5 <= bytes.len() && #[trigger] T4::spec_encodes(m.4, bytes.subrange(k4, k5)) && (T5::spec_encodes(m.5, bytes.subrange(k5, bytes.len() as int))))));
    let k3 = choose|k3: int| k2 <= k3 <= bytes.len() && #[trigger] T2::spec_encodes(m.2, bytes.subrange(k2, k3)) && (exists|k4: int| k3 <= k4 <= bytes.len() && #[trigger] T3::spec_encodes(m.3, bytes.subrange(k3, k4)) && (exists|k5: int| k4 <= k5 <= bytes.len() && #[trigger] T4::spec_encodes(m.4, bytes.subrange(k4, k5)) && (T5::spec_encodes(m.5, bytes.subrange(k5, bytes.len() as int)))));
    let k4 = choose|k4: int| k3 <= k4 <= bytes.len() && #[trigger] T3::spec_encodes(m.3, bytes.subrange(k3, k4)) && (exists|k5: int| k4 <= k5 <= bytes.len() && #[trigger] T4::spec_encodes(m.4, bytes.subrange(k4, k5)) && (T5::spec_encodes(m.5, bytes.subrange(k5, bytes.len() as int))));
    let k5 = choose|k5: int| k4 <= k5 <= bytes.len() && #[trigger] T4::spec_encodes(m.4, bytes.subrange(k4, k5)) && (T5::spec_encodes(m.5, bytes.subrange(k5, bytes.len() as int)));
    seq![0int, k1, k2, k3, k4, k5, bytes.len() as int]
}

/// A tuple of 7 fields is encoded by its fields' encodings put one after
/// another in field order.
#[verifier::spinoff_prover]
#[verifier::rlimit(60)]
pub proof fn lemma_tuple7_encodes_fields_in_order<T0: WireFormat, T1: WireFormat, T2: WireFormat, T3: WireFormat, T4: WireFormat, T5: WireFormat, T6: WireFormat>(m: (T0::Model, T1::Model, T2::Model, T3::Model, T4::Model, T5::Model, T6::Model), b0: Seq<u8>, b1: Seq<u8>, b2: Seq<u8>, b3: Seq<u8>, b4: Seq<u8>, b5: Seq<u8>, b6: Seq<u8>)
    requires
        T0::spec_encodes(m.0, b0),
        T1::spec_encodes(m.1, b1),
        T2::spec_encodes(m.2, b2),
        T3::spec_encodes(m.3, b3),
        T4::spec_encodes(m.4, b4),
        T5::spec_encodes(m.5, b5),
        T6::spec_encodes(m.6, b6),
    ensures
        <(T0, T1, T2, T3, T4, T5, T6) as WireFormat>::spec_encodes(m, b0 + b1 + b2 + b3 + b4 + b5 + b6),
{
    let bytes = b0 + b1 + b2 + b3 + b4 + b5 + b6;
    assert(bytes.subrange(0, (b0.len()) as int) =~= b0);
    assert(bytes.subrange((b0.len()) as int, (b0.len() + b1.len()) as int) =~= b1);
    assert(bytes.subrange((b0.len() + b1.len()) as int, (b0.len() + b1.len() + b2.len()) as int) =~= b2);
    assert(bytes.subrange((b0.len() + b1.len() + b2.len()) as int, (b0.len() + b1.len() + b2.len() + b3.len()) as int) =~= b3);
    assert(bytes.subrange((b0.len() + b1.len() + b2.len() + b3.len()) as int, (b0.len() + b1.len() + b2.len() + b3.len() + b4.len()) as int) =~= b4);
    assert(bytes.subrange((b0.len() + b1.len() + b2.len() + b3.len() + b4.len()) as int, (b0.len() + b1.len() + b2.len() + b3.len() + b4.len() + b5.len()) as int) =~= b5);
    assert(bytes.subrange((b0.len() + b1.len() + b2.len() + b3.len() + b4.len() + b5.len()) as int, bytes.len() as int) =~= b6);
    let k1: int = (b0.len()) as int;
    let k2: int = (b0.len() + b1.len()) as int;
    let k3: int = (b0.len() + b1.len() + b2.len()) as int;
    let k4: int = (b0.len() + b1.len() + b2.len() + b3.len()) as int;
    let k5: int = (b0.len() + b1.len() + b2.len() + b3.len() + b4.len()) as int;
    let k6: int = (b0.len() + b1.len() + b2.len() + b3.len() + b4.len() + b5.len()) as int;
    assert(exists|k6: int| k5 <= k6 <= bytes.len() && #[trigger] T5::spec_encodes(m.5, bytes.subrange(k5, k6)) && (T6::spec_encodes(m.6, bytes.subrange(k6, bytes.len() as int))));
    assert(exists|k5: int| k4 <= k5 <= bytes.len() && #[trigger] T4::spec_encodes(m.4, bytes.subrange(k4, k5)) && (exists|k6: int| k5 <= k6 <= bytes.len() && #[trigger] T5::spec_encodes(m.5, bytes.subrange(k5, k6)) && (T6::spec_encodes(m.6, bytes.subrange(k6, bytes.len() as int)))));
    assert(exists|k4: int| k3 <= k4 <= bytes.len() && #[trigger] T3::spec_encodes(m.3, bytes.subrange(k3, k4)) && (exists|k5: int| k4 <= k5 <= bytes.len() && #[trigger] T4::spec_encodes(m.4, bytes.subrange(k4, k5)) && (exists|k6: int| k5 <= k6 <= bytes.len() && #[trigger] T5::spec_encodes(m.5, bytes.subrange(k5, k6)) && (T6::spec_encodes(m.6, bytes.subrange(k6, bytes.len() as int))))));
    assert(exists|k3: int| k2 <= k3 <= bytes.len() && #[trigger] T2::spec_encodes(m.2, bytes.subrange(k2, k3)) && (exists|k4: int| k3 <= k4 <= bytes.len() && #[trigger] T3::spec_encodes(m.3, bytes.subrange(k3, k4)) && (exists|k5: int| k4 <= k5 <= bytes.len() && #[trigger] T4::spec_encodes(m.4, bytes.subrange(k4, k5)) && (exists|k6: int| k5 <= k6 <= bytes.len() && #[trigger] T5::spec_encodes(m.5, bytes.subrange(k5, k6)) && (T6::spec_encodes(m.6, bytes.subrange(k6, bytes.len() as int)))))));
    assert(exists|k2: int| k1 <= k2 <= bytes.len() && #[trigger] T1::spec_encodes(m.1, bytes.subrange(k1, k2)) && (exists|k3: int| k2 <= k3 <= bytes.len() && #[trigger] T2::spec_encodes(m.2, bytes.subrange(k2, k3)) && (exists|k4: int| k3 <= k4 <= bytes.len() && #[trigger] T3::spec_encodes(m.3, bytes.subrange(k3, k4)) && (exists|k5: int| k4 <= k5 <= bytes.len() && #[trigger] T4::spec_encodes(m.4, bytes.subrange(k4, k5)) && (exists|k6: int| k5 <= k6 <= bytes.len() && #[trigger] T5::spec_encodes(m.5, bytes.subrange(k5, k6)) && (T6::spec_encodes(m.6, bytes.subrange(k6, bytes.len() as int))))))));
    assert(exists|k1: int| 0 <= k1 <= bytes.len() && #[trigger] T0::spec_encodes(m.0, bytes.subrange(0, k1)) && (exists|k2: int| k1 <= k2 <= bytes.len() && #[trigger] T1::spec_encodes(m.1, bytes.subrange(k1, k2)) && (exists|k3: int| k2 <= k3 <= bytes.len() && #[trigger] T2::spec_encodes(m.2, bytes.subrange(k2, k3)) && (exists|k4: int| k3 <= k4 <= bytes.len() && #[trigger] T3::spec_encodes(m.3, bytes.subrange(k3, k4)) && (exists|k5: int| k4 <= k5 <= bytes.len() && #[trigger] T4::spec_encodes(m.4, bytes.subrange(k4, k5)) && (exists|k6: int| k5 <= k6 <= bytes.len() && #[trigger] T5::spec_encodes(m.5, bytes.subrange(k5, k6)) && (T6::spec_encodes(m.6, bytes.subrange(k6, bytes.len() as int)))))))));
}

/// An encoding of a tuple of 7 fields cuts into its fields' encodings, in
/// field order, at the positions `cuts`.
#[verifier::spinoff_prover]
#[verifier::rlimit(60)]
pub proof fn lemma_tuple7_cuts_into_fields<T0: WireFormat, T1: WireFormat, T2: WireFormat, T3: WireFormat, T4: WireFormat, T5: WireFormat, T6: WireFormat>(m: (T0::Model, T1::Model, T2::Model, T3::Model, T4::Model, T5::Model, T6::Model), bytes: Seq<u8>) -> (cuts: Seq<int>)
    requires
        <(T0, T1, T2, T3, T4, T5, T6) as WireFormat>::spec_encodes(m, bytes),
    ensures
        cuts.len() == 8,
        cuts[0] == 0,
        cuts[7] == bytes.len(),
        cuts[0] <= cuts[1],
        cuts[1] <= cuts[2],
        cuts[2] <= cuts[3],
        cuts[3] <= cuts[4],
        cuts[4] <= cuts[5],
        cuts[5] <= cuts[6],
        cuts[6] <= cuts[7],
        T0::spec_encodes(m.0, bytes.subrange(cuts[0], cuts[1])),
        T1::spec_encodes(m.1, bytes.subrange(cuts[1], cuts[2])),
        T2::spec_encodes(m.2, bytes.subrange(cuts[2], cuts[3])),
        T3::spec_encodes(m.3, bytes.subrange(cuts[3], cuts[4])),
        T4::spec_encodes(m.4, bytes.subrange(cuts[4], cuts[5])),
        T5::spec_encodes(m.5, bytes.subrange(cuts[5], cuts[6])),
        T6::spec_encodes(m.6, bytes.subrange(cuts[6], cuts[7])),
{
    let k1 = choose|k1: int| 0 <= k1 <= bytes.len() && #[trigger] T0::spec_encodes(m.0, bytes.subrange(0, k1)) && (exists|k2: int| k1 <= k2 <= bytes.len() && #[trigger] T1::spec_encodes(m.1, bytes.subrange(k1, k2)) && (exists|k3: int| k2 <= k3 <= bytes.len() && #[trigger] T2::spec_encodes(m.2, bytes.subrange(k2, k3)) && (exists|k4: int| k3 <= k4 <= bytes.len() && #[trigger] T3::spec_encodes(m.3, bytes.subrange(k3, k4)) && (exists|k5: int| k4 <= k5 <= bytes.len() && #[trigger] T4::spec_encodes(m.4, bytes.subrange(k4, k5)) && (exists|k6: int| k5 <= k6 <= bytes.len() && #[trigger] T5::spec_encodes(m.5, bytes.subrange(k5, k6)) && (T6::spec_encodes(m.6, bytes.subrange(k6, bytes.len() as int))))))));
    let k2 = choose|k2: int| k1 <= k2 <= bytes.len() && #[trigger] T1::spec_encodes(m.1, bytes.subrange(k1, k2)) && (exists|k3: int| k2 <= k3 <= bytes.len() && #[trigger] T2::spec_encodes(m.2, bytes.subrange(k2, k3)) && (exists|k4: int| k3 <= k4 <= bytes.len() && #[trigger] T3::spec_encodes(m.3, bytes.subrange(k3, k4)) && (exists|k5: int| k4 <= k5 <= bytes.len() && #[trigger] T4::spec_encodes(m.4, bytes.subrange(k4, k5)) && (exists|k6: int| k5 <= k6 <= bytes.len() && #[trigger] T5::spec_encodes(m.5, bytes.subrange(k5, k6)) && (T6::spec_encodes(m.6, bytes.subrange(k6, bytes.len() as int)))))));
    let k3 = choose|k3: int| k2 <= k3 <= bytes.len() && #[trigger] T2::spec_encodes(m.2, bytes.subrange(k2, k3)) && (exists|k4: int| k3 <= k4 <= bytes.len() && #[trigger] T3::spec_encodes(m.3, bytes.subrange(k3, k4)) && (exists|k5: int| k4 <= k5 <= bytes.len() && #[trigger] T4::spec_encodes(m.4, bytes.subrange(k4, k5)) && (exists|k6: int| k5 <= k6 <= bytes.len() && #[trigger] T5::spec_encodes(m.5, bytes.subrange(k5, k6)) && (T6::spec_encodes(m.6, bytes.subrange(k6, bytes.len() as int))))));
    let k4 = choose|k4: int| k3 <= k4 <= bytes.len() && #[trigger] T3::spec_encodes(m.3, bytes.subrange(k3, k4)) && (exists|k5: int| k4 <= k5 <= bytes.len() && #[trigger] T4::spec_encodes(m.4, bytes.subrange(k4, k5)) && (exists|k6: int| k5 <= k6 <= bytes.len() && #[trigger] T5::spec_encodes(m.5, bytes.subrange(k5, k6)) && (T6::spec_encodes(m.6, bytes.subrange(k6, bytes.len() as int)))));
    let k5 = choose|k5: int| k4 <= k5 <= bytes.len() && #[trigger] T4::spec_encodes(m.4, bytes.subrange(k4, k5)) && (exists|k6: int| k5 <= k6 <= bytes.len() && #[trigger] T5::spec_encodes(m.5, bytes.subrange(k5, k6)) && (T6::spec_encodes(m.6, bytes.subrange(k6, bytes.len() as int))));
    let k6 = choose|k6: int| k5 <= k6 <= bytes.len() && #[trigger] T5::spec_encodes(m.5, bytes.subrange(k5, k6)) && (T6::spec_encodes(m.6, bytes.subrange(k6, bytes.len() as int)));
    seq![0int, k1, k2, k3, k4, k5, k6, bytes.len() as int]
}

/// A tuple of 8 fields is encoded by its fields' encodings put one after
/// another in field order.
#[verifier::spinoff_prover]
#[verifier::rlimit(60)]
pub proof fn lemma_tuple8_encodes_fields_in_order<T0: WireFormat, T1: WireFormat, T2: WireFormat, T3: WireFormat, T4: WireFormat, T5: WireFormat, T6: WireFormat, T7: WireFormat>(m: (T0::Model, T1::Model, T2::Model, T3::Model, T4::Model, T5::Model, T6::Model, T7::Model), b0: Seq<u8>, b1: Seq<u8>, b2: Seq<u8>, b3: Seq<u8>, b4: Seq<u8>, b5: Seq<u8>, b6: Seq<u8>, b7: Seq<u8>)
    requires
        T0::spec_encodes(m.0, b0),
        T1::spec_encodes(m.1, b1),
        T2::spec_encodes(m.2, b2),
        T3::spec_encodes(m.3, b3),
        T4::spec_encodes(m.4, b4),
        T5::spec_encodes(m.5, b5),
        T6::spec_encodes(m.6, b6),
        T7::spec_encodes(m.7, b7),
    ensures
        <(T0, T1, T2, T3, T4, T5, T6, T7) as WireFormat>::spec_encodes(m, b0 + b1 + b2 + b3 + b4 + b5 + b6 + b7),
{
    let bytes = b0 + b1 + b2 + b3 + b4 + b5 + b6 + b7;
    assert(bytes.subrange(0, (b0.len()) as int) =~= b0);
    assert(bytes.subrange((b0.len()) as int, (b0.len() + b1.len()) as int) =~= b1);
    assert(bytes.subrange((b0.len() + b1.len()) as int, (b0.len() + b1.len() + b2.len()) as int) =~= b2);
    assert(bytes.subrange((b0.len() + b1.len() + b2.len()) as int, (b0.len() + b1.len() + b2.len() + b3.len()) as int) =~= b3);
    assert(bytes.subrange((b0.len() + b1.len() + b2.len() + b3.len()) as int, (b0.len() + b1.len() + b2.len() + b3.len() + b4.len()) as int) =~= b4);
    assert(bytes.subrange((b0.len() + b1.len() + b2.len() + b3.len() + b4.len()) as int, (b0.len() + b1.len() + b2.len() + b3.len() + b4.len() + b5.len()) as int) =~= b5);
    assert(bytes.subrange((b0.len() + b1.len() + b2.len() + b3.len() + b4.len() + b5.len()) as int, (b0.len() + b1.len() + b2.len() + b3.len() + b4.len() + b5.len() + b6.len()) as int) =~= b6);
    assert(bytes.subrange((b0.len() + b1.len() + b2.len() + b3.len() + b4.len() + b5.len() + b6.len()) as int, bytes.len() as int) =~= b7);
    let k1: int = (b0.len()) as int;
    let k2: int = (b0.len() + b1.len()) as int;
    let k3: int = (b0.len() + b1.len() + b2.len()) as int;
    let k4: int = (b0.len() + b1.len() + b2.len() + b3.len()) as int;
    let k5: int = (b0.len() + b1.len() + b2.len() + b3.len() + b4.len()) as int;
    let k6: int = (b0.len() + b1.len() + b2.len() + b3.len() + b4.len() + b5.len()) as int;
    let k7: int = (b0.len() + b1.len() + b2.len() + b3.len() + b4.len() + b5.len() + b6.len()) as int;
    assert(exists|k7: int| k6 <= k7 <= bytes.len() && #[trigger] T6::spec_encodes(m.6, bytes.subrange(k6, k7)) && (T7::spec_encodes(m.7, bytes.subrange(k7, bytes.len() as int))));
    assert(exists|k6: int| k5 <= k6 <= bytes.len() && #[trigger] T5::spec_encodes(m.5, bytes.subrange(k5, k6)) && (exists|k7: int| k6 <= k7 <= bytes.len() && #[trigger] T6::spec_encodes(m.6, bytes.subrange(k6, k7)) && (T7::spec_encodes(m.7, bytes.subrange(k7, bytes.len() as int)))));
    assert(exists|k5: int| k4 <= k5 <= bytes.len() && #[trigger] T4::spec_encodes(m.4, bytes.subrange(k4, k5)) && (exists|k6: int| k5 <= k6 <= bytes.len() && #[trigger] T5::spec_encodes(m.5, bytes.subrange(k5, k6)) && (exists|k7: int| k6 <= k7 <= bytes.len() && #[trigger] T6::spec_encodes(m.6, bytes.subrange(k6, k7)) && (T7::spec_encodes(m.7, bytes.subrange(k7, bytes.len() as int))))));
    assert(exists|k4: int| k3 <= k4 <= bytes.len() && #[trigger] T3::spec_encodes(m.3, bytes.subrange(k3, k4)) && (exists|k5: int| k4 <= k5 <= bytes.len() && #[trigger] T4::spec_encodes(m.4, bytes.subrange(k4, k5)) && (exists|k6: int| k5 <= k6 <= bytes.len() && #[trigger] T5::spec_encodes(m.5, bytes.subrange(k5, k6)) && (exists|k7: int| k6 <= k7 <= bytes.len() && #[trigger] T6::spec_encodes(m.6, bytes.subrange(k6, k7)) && (T7::spec_encodes(m.7, bytes.subrange(k7, bytes.len() as int)))))));
    assert(exists|k3: int| k2 <= k3 <= bytes.len() && #[trigger] T2::spec_encodes(m.2, bytes.subrange(k2, k3)) && (exists|k4: int| k3 <= k4 <= bytes.len() && #[trigger] T3::spec_encodes(m.3, bytes.subrange(k3, k4)) && (exists|k5: int| k4 <= k5 <= bytes.len() && #[trigger] T4::spec_encodes(m.4, bytes.subrange(k4, k5)) && (exists|k6: int| k5 <= k6 <= bytes.len() && #[trigger] T5::spec_encodes(m.5, bytes.subrange(k5, k6)) && (exists|k7: int| k6 <= k7 <= bytes.len() && #[trigger] T6::spec_encodes(m.6, bytes.subrange(k6, k7)) && (T7::spec_encodes(m.7, bytes.subrange(k7, bytes.len() as int))))))));
    assert(exists|k2: int| k1 <= k2 <= bytes.len() && #[trigger] T1::spec_encodes(m.1, bytes.subrange(k1, k2)) && (exists|k3: int| k2 <= k3 <= bytes.len() && #[trigger] T2::spec_encodes(m.2, bytes.subrange(k2, k3)) && (exists|k4: int| k3 <= k4 <= bytes.len() && #[trigger] T3::spec_encodes(m.3, bytes.subrange(k3, k4)) && (exists|k5: int| k4 <= k5 <= bytes.len() && #[trigger] T4::spec_encodes(m.4, bytes.subrange(k4, k5)) && (exists|k6: int| k5 <= k6 <= bytes.len() && #[trigger] T5::spec_encodes(m.5, bytes.subrange(k5, k6)) && (exists|k7: int| k6 <= k7 <= bytes.len() && #[trigger] T6::spec_encodes(m.6, bytes.subrange(k6, k7)) && (T7::spec_encodes(m.7, bytes.subrange(k7, bytes.len() as int)))))))));
    assert(exists|k1: int| 0 <= k1 <= bytes.len() && #[trigger] T0::spec_encodes(m.0, bytes.subrange(0, k1)) && (exists|k2: int| k1 <= k2 <= bytes.len() && #[trigger] T1::spec_encodes(m.1, bytes.subrange(k1, k2)) && (exists|k3: int| k2 <= k3 <= bytes.len() && #[trigger] T2::spec_encodes(m.2, bytes.subrange(k2, k3)) && (exists|k4: int| k3 <= k4 <= bytes.len() && #[trigger] T3::spec_encodes(m.3, bytes.subrange(k3, k4)) && (exists|k5: int| k4 <= k5 <= bytes.len() && #[trigger] T4::spec_encodes(m.4, bytes.subrange(k4, k5)) && (exists|k6: int| k5 <= k6 <= bytes.len() && #[trigger] T5::spec_encodes(m.5, bytes.subrange(k5, k6)) && (exists|k7: int| k6 <= k7 <= bytes.len() && #[trigger] T6::spec_encodes(m.6, bytes.subrange(k6, k7)) && (T7::spec_encodes(m.7, bytes.subrange(k7, bytes.len() as int))))))))));
}

/// An encoding of a tuple of 8 fields cuts into its fields' encodings, in
/// field order, at the positions `cuts`.
#[verifier::spinoff_prover]
#[verifier::rlimit(60)]
pub proof fn lemma_tuple8_cuts_into_fields<T0: WireFormat, T1: WireFormat, T2: WireFormat, T3: WireFormat, T4: WireFormat, T5: WireFormat, T6: WireFormat, T7: WireFormat>(m: (T0::Model, T1::Model, T2::Model, T3::Model, T4::Model, T5::Model, T6::Model, T7::Model), bytes: Seq<u8>) -> (cuts: Seq<int>)
    requires
        <(T0, T1, T2, T3, T4, T5, T6, T7) as WireFormat>::spec_encodes(m, bytes),
    ensures
        cuts.len() == 9,
        cuts[0] == 0,
        cuts[8] == bytes.len(),
        cuts[0] <= cuts[1],
        cuts[1] <= cuts[2],
        cuts[2] <= cuts[3],
        cuts[3] <= cuts[4],
        cuts[4] <= cuts[5],
        cuts[5] <= cuts[6],
        cuts[6] <= cuts[7],
        cuts[7] <= cuts[8],
        T0::spec_encodes(m.0, bytes.subrange(cuts[0], cuts[1])),
        T1::spec_encodes(m.1, bytes.subrange(cuts[1], cuts[2])),
        T2::spec_encodes(m.2, bytes.subrange(cuts[2], cuts[3])),
        T3::spec_encodes(m.3, bytes.subrange(cuts[3], cuts[4])),
        T4::spec_encodes(m.4, bytes.subrange(cuts[4], cuts[5])),
        T5::spec_encodes(m.5, bytes.subrange(cuts[5], cuts[6])),
        T6::spec_encodes(m.6, bytes.subrange(cuts[6], cuts[7])),
        T7::spec_encodes(m.7, bytes.subrange(cuts[7], cuts[8])),
{
    let k1 = choose|k1: int| 0 <= k1 <= bytes.len() && #[trigger] T0::spec_encodes(m.0, bytes.subrange(0, k1)) && (exists|k2: int| k1 <= k2 <= bytes.len() && #[trigger] T1::spec_encodes(m.1, bytes.subrange(k1, k2)) && (exists|k3: int| k2 <= k3 <= bytes.len() && #[trigger] T2::spec_encodes(m.2, bytes.subrange(k2, k3)) && (exists|k4: int| k3 <= k4 <= bytes.len() && #[trigger] T3::spec_encodes(m.3, bytes.subrange(k3, k4)) && (exists|k5: int| k4 <= k5 <= bytes.len() && #[trigger] T4::spec_encodes(m.4, bytes.subrange(k4, k5)) && (exists|k6: int| k5 <= k6 <= bytes.len() && #[trigger] T5::spec_encodes(m.5, bytes.subrange(k5, k6)) && (exists|k7: int| k6 <= k7 <= bytes.len() && #[trigger] T6::spec_encodes(m.6, bytes.subrange(k6, k7)) && (T7::spec_encodes(m.7, bytes.subrange(k7, bytes.len() as int)))))))));
    let k2 = choose|k2: int| k1 <= k2 <= bytes.len() && #[trigger] T1::spec_encodes(m.1, bytes.subrange(k1, k2)) && (exists|k3: int| k2 <= k3 <= bytes.len() && #[trigger] T2::spec_encodes(m.2, bytes.subrange(k2, k3)) && (exists|k4: int| k3 <= k4 <= bytes.len() && #[trigger] T3::spec_encodes(m.3, bytes.subrange(k3, k4)) && (exists|k5: int| k4 <= k5 <= bytes.len() && #[trigger] T4::spec_encodes(m.4, bytes.subrange(k4, k5)) && (exists|k6: int| k5 <= k6 <= bytes.len() && #[trigger] T5::spec_encodes(m.5, bytes.subrange(k5, k6)) && (exists|k7: int| k6 <= k7 <= bytes.len() && #[trigger] T6::spec_encodes(m.6, bytes.subrange(k6, k7)) && (T7::spec_encodes(m.7, bytes.subrange(k7, bytes.len() as int))))))));
    let k3 = choose|k3: int| k2 <= k3 <= bytes.len() && #[trigger] T2::spec_encodes(m.2, bytes.subrange(k2, k3)) && (exists|k4: int| k3 <= k4 <= bytes.len() && #[trigger] T3::spec_encodes(m.3, bytes.subrange(k3, k4)) && (exists|k5: int| k4 <= k5 <= bytes.len() && #[trigger] T4::spec_encodes(m.4, bytes.subrange(k4, k5)) && (exists|k6: int| k5 <= k6 <= bytes.len() && #[trigger] T5::spec_encodes(m.5, bytes.subrange(k5, k6)) && (exists|k7: int| k6 <= k7 <= bytes.len() && #[trigger] T6::spec_encodes(m.6, bytes.subrange(k6, k7)) && (T7::spec_encodes(m.7, bytes.subrange(k7, bytes.len() as int)))))));
    let k4 = choose|k4: int| k3 <= k4 <= bytes.len() && #[trigger] T3::spec_encodes(m.3, bytes.subrange(k3, k4)) && (exists|k5: int| k4 <= k5 <= bytes.len() && #[trigger] T4::spec_encodes(m.4, bytes.subrange(k4, k5)) && (exists|k6: int| k5 <= k6 <= bytes.len() && #[trigger] T5::spec_encodes(m.5, bytes.subrange(k5, k6)) && (exists|k7: int| k6 <= k7 <= bytes.len() && #[trigger] T6::spec_encodes(m.6, bytes.subrange(k6, k7)) && (T7::spec_encodes(m.7, bytes.subrange(k7, bytes.len() as int))))));
    let k5 = choose|k5: int| k4 <= k5 <= bytes.len() && #[trigger] T4::spec_encodes(m.4, bytes.subrange(k4, k5)) && (exists|k6: int| k5 <= k6 <= bytes.len() && #[trigger] T5::spec_encodes(m.5, bytes.subrange(k5, k6)) && (exists|k7: int| k6 <= k7 <= bytes.len() && #[trigger] T6::spec_encodes(m.6, bytes.subrange(k6, k7)) && (T7::spec_encodes(m.7, bytes.subrange(k7, bytes.len() as int)))));
    let k6 = choose|k6: int| k5 <= k6 <= bytes.len() && #[trigger] T5::spec_encodes(m.5, bytes.subrange(k5, k6)) && (exists|k7: int| k6 <= k7 <= bytes.len() && #[trigger] T6::spec_encodes(m.6, bytes.subrange(k6, k7)) && (T7::spec_encodes(m.7, bytes.subrange(k7, bytes.len() as int))));
    let k7 = choose|k7: int| k6 <= k7 <= bytes.len() && #[trigger] T6::spec_encodes(m.6, bytes.subrange(k6, k7)) && (T7::spec_encodes(m.7, bytes.subrange(k7, bytes.len() as int)));
    seq![0int, k1, k2, k3, k4, k5, k6, k7, bytes.len() as int]
}

/// A tuple of 9 fields is encoded by its fields' encodings put one after
/// another in field order.
#[verifier::spinoff_prover]
#[verifier::rlimit(60)]
pub proof fn lemma_tuple9_encodes_fields_in_order<T0: WireFormat, T1: WireFormat, T2: WireFormat, T3: WireFormat, T4: WireFormat, T5: WireFormat, T6: WireFormat, T7: WireFormat, T8: WireFormat>(m: (T0::Model, T1::Model, T2::Model, T3::Model, T4::Model, T5::Model, T6::Model, T7::Model, T8::Model), b0: Seq<u8>, b1: Seq<u8>, b2: Seq<u8>, b3: Seq<u8>, b4: Seq<u8>, b5: Seq<u8>, b6: Seq<u8>, b7: Seq<u8>, b8: Seq<u8>)
    requires
        T0::spec_encodes(m.0, b0),
        T1::spec_encodes(m.1, b1),
        T2::spec_encodes(m.2, b2),
        T3::spec_encodes(m.3, b3),
        T4::spec_encodes(m.4, b4),
        T5::spec_encodes(m.5, b5),
        T6::spec_encodes(m.6, b6),
        T7::spec_encodes(m.7, b7),
        T8::spec_encodes(m.8, b8),
    ensures
        <(T0, T1, T2, T3, T4, T5, T6, T7, T8) as WireFormat>::spec_encodes(m, b0 + b1 + b2 + b3 + b4 + b5 + b6 + b7 + b8),
{
    let bytes = b0 + b1 + b2 + b3 + b4 + b5 + b6 + b7 + b8;
    assert(bytes.subrange(0, (b0.len()) as int) =~= b0);
    assert(bytes.subrange((b0.len()) as int, (b0.len() + b1.len()) as int) =~= b1);
    assert(bytes.subrange((b0.len() + b1.len()) as int, (b0.len() + b1.len() + b2.len()) as int) =~= b2);
    assert(bytes.subrange((b0.len() + b1.len() + b2.len()) as int, (b0.len() + b1.len() + b2.len() + b3.len()) as int) =~= b3);
    assert(bytes.subrange((b0.len() + b1.len() + b2.len() + b3.len()) as int, (b0.len() + b1.len() + b2.len() + b3.len() + b4.len()) as int) =~= b4);
    assert(bytes.subrange((b0.len() + b1.len() + b2.len() + b3.len() + b4.len()) as int, (b0.len() + b1.len() + b2.len() + b3.len() + b4.len() + b5.len()) as int) =~= b5);
    assert(bytes.subrange((b0.len() + b1.len() + b2.len() + b3.len() + b4.len() + b5.len()) as int, (b0.len() + b1.len() + b2.len() + b3.len() + b4.len() + b5.len() + b6.len()) as int) =~= b6);
    assert(bytes.subrange((b0.len() + b1.len() + b2.len() + b3.len() + b4.len() + b5.len() + b6.len()) as int, (b0.len() + b1.len() + b2.len() + b3.len() + b4.len() + b5.len() + b6.len() + b7.len()) as int) =~= b7);
    assert(bytes.subrange((b0.len() + b1.len() + b2.len() + b3.len() + b4.len() + b5.len() + b6.len() + b7.len()) as int, bytes.len() as int) =~= b8);
    let k1: int = (b0.len()) as int;
    let k2: int = (b0.len() + b1.len()) as int;
    let k3: int = (b0.len() + b1.len() + b2.len()) as int;
    let k4: int = (b0.len() + b1.len() + b2.len() + b3.len()) as int;
    let k5: int = (b0.len() + b1.len() + b2.len() + b3.len() + b4.len()) as int;
    let k6: int = (b0.len() + b1.len() + b2.len() + b3.len() + b4.len() + b5.len()) as int;
    let k7: int = (b0.len() + b1.len() + b2.len() + b3.len() + b4.len() + b5.len() + b6.len()) as int;
    let k8: int = (b0.len() + b1.len() + b2.len() + b3.len() + b4.len() + b5.len() + b6.len() + b7.len()) as int;
    assert(exists|k8: int| k7 <= k8 <= bytes.len() && #[trigger] T7::spec_encodes(m.7, bytes.subrange(k7, k8)) && (T8::spec_encodes(m.8, bytes.subrange(k8, bytes.len() as int))));
    assert(exists|k7: int| k6 <= k7 <= bytes.len() && #[trigger] T6::spec_encodes(m.6, bytes.subrange(k6, k7)) && (exists|k8: int| k7 <= k8 <= bytes.len() && #[trigger] T7::spec_encodes(m.7, bytes.subrange(k7, k8)) && (T8::spec_encodes(m.8, bytes.subrange(k8, bytes.len() as int)))));
    assert(exists|k6: int| k5 <= k6 <= bytes.len() && #[trigger] T5::spec_encodes(m.5, bytes.subrange(k5, k6)) && (exists|k7: int| k6 <= k7 <= bytes.len() && #[trigger] T6::spec_encodes(m.6, bytes.subrange(k6, k7)) && (exists|k8: int| k7 <= k8 <= bytes.len() && #[trigger] T7::spec_encodes(m.7, bytes.subrange(k7, k8)) && (T8::spec_encodes(m.8, bytes.subrange(k8, bytes.len() as int))))));
    assert(exists|k5: int| k4 <= k5 <= bytes.len() && #[trigger] T4::spec_encodes(m.4, bytes.subrange(k4, k5)) && (exists|k6: int| k5 <= k6 <= bytes.len() && #[trigger] T5::spec_encodes(m.5, bytes.subrange(k5, k6)) && (exists|k7: int| k6 <= k7 <= bytes.len() && #[trigger] T6::spec_encodes(m.6, bytes.subrange(k6, k7)) && (exists|k8: int| k7 <= k8 <= bytes.len() && #[trigger] T7::spec_encodes(m.7, bytes.subrange(k7, k8)) && (T8::spec_encodes(m.8, bytes.subrange(k8, bytes.len() as int)))))));
    assert(exists|k4: int| k3 <= k4 <= bytes.len() && #[trigger] T3::spec_encodes(m.3, bytes.subrange(k3, k4)) && (exists|k5: int| k4 <= k5 <= bytes.len() && #[trigger] T4::spec_encodes(m.4, bytes.subrange(k4, k5)) && (exists|k6: int| k5 <= k6 <= bytes.len() && #[trigger] T5::spec_encodes(m.5, bytes.subrange(k5, k6)) && (exists|k7: int| k6 <= k7 <= bytes.len() && #[trigger] T6::spec_encodes(m.6, bytes.subrange(k6, k7)) && (exists|k8: int| k7 <= k8 <= bytes.len() && #[trigger] T7::spec_encodes(m.7, bytes.subrange(k7, k8)) && (T8::spec_encodes(m.8, bytes.subrange(k8, bytes.len() as int))))))));
    assert(exists|k3: int| k2 <= k3 <= bytes.len() && #[trigger] T2::spec_encodes(m.2, bytes.subrange(k2, k3)) && (exists|k4: int| k3 <= k4 <= bytes.len() && #[trigger] T3::spec_encodes(m.3, bytes.subrange(k3, k4)) && (exists|k5: int| k4 <= k5 <= bytes.len() && #[trigger] T4::spec_encodes(m.4, bytes.subrange(k4, k5)) && (exists|k6: int| k5 <= k6 <= bytes.len() && #[trigger] T5::spec_encodes(m.5, bytes.subrange(k5, k6)) && (exists|k7: int| k6 <= k7 <= bytes.len() && #[trigger] T6::spec_encodes(m.6, bytes.subrange(k6, k7)) && (exists|k8: int| k7 <= k8 <= bytes.len() && #[trigger] T7::spec_encodes(m.7, bytes.subrange(k7, k8)) && (T8::spec_encodes(m.8, bytes.subrange(k8, bytes.len() as int)))))))));
    assert(exists|k2: int| k1 <= k2 <= bytes.len() && #[trigger] T1::spec_encodes(m.1, bytes.subrange(k1, k2)) && (exists|k3: int| k2 <= k3 <= bytes.len() && #[trigger] T2::spec_encodes(m.2, bytes.subrange(k2, k3)) && (exists|k4: int| k3 <= k4 <= bytes.len() && #[trigger] T3::spec_encodes(m.3, bytes.subrange(k3, k4)) && (exists|k5: int| k4 <= k5 <= bytes.len() && #[trigger] T4::spec_encodes(m.4, bytes.subrange(k4, k5)) && (exists|k6: int| k5 <= k6 <= bytes.len() && #[trigger] T5::spec_encodes(m.5, bytes.subrange(k5, k6)) && (exists|k7: int| k6 <= k7 <= bytes.len() && #[trigger] T6::spec_encodes(m.6, bytes.subrange(k6, k7)) && (exists|k8: int| k7 <= k8 <= bytes.len() && #[trigger] T7::spec_encodes(m.7, bytes.subrange(k7, k8)) && (T8::spec_encodes(m.8, bytes.subrange(k8, bytes.len() as int))))))))));
    assert(exists|k1: int| 0 <= k1 <= bytes.len() && #[trigger] T0::spec_encodes(m.0, bytes.subrange(0, k1)) && (exists|k2: int| k1 <= k2 <= bytes.len() && #[trigger] T1::spec_encodes(m.1, bytes.subrange(k1, k2)) && (exists|k3: int| k2 <= k3 <= bytes.len() && #[trigger] T2::spec_encodes(m.2, bytes.subrange(k2, k3)) && (exists|k4: int| k3 <= k4 <= bytes.len() && #[trigger] T3::spec_encodes(m.3, bytes.subrange(k3, k4)) && (exists|k5: int| k4 <= k5 <= bytes.len() && #[trigger] T4::spec_encodes(m.4, bytes.subrange(k4, k5)) && (exists|k6: int| k5 <= k6 <= bytes.len() && #[trigger] T5::spec_encodes(m.5, bytes.subrange(k5, k6)) && (exists|k7: int| k6 <= k7 <= bytes.len() && #[trigger] T6::spec_encodes(m.6, bytes.subrange(k6, k7)) && (exists|k8: int| k7 <= k8 <= bytes.len() && #[trigger] T7::spec_encodes(m.7, bytes.subrange(k7, k8)) && (T8::spec_encodes(m.8, bytes.subrange(k8, bytes.len() as int)))))))))));
}

/// An encoding of a tuple of 9 fields cuts into its fields' encodings, in
/// field order, at the positions `cuts`.
#[verifier::spinoff_prover]
#[verifier::rlimit(60)]
pub proof fn lemma_tuple9_cuts_into_fields<T0: WireFormat, T1: WireFormat, T2: WireFormat, T3: WireFormat, T4: WireFormat, T5: WireFormat, T6: WireFormat, T7: WireFormat, T8: WireFormat>(m: (T0::Model, T1::Model, T2::Model, T3::Model, T4::Model, T5::Model, T6::Model, T7::Model, T8::Model), bytes: Seq<u8>) -> (cuts: Seq<int>)
    requires
        <(T0, T1, T2, T3, T4, T5, T6, T7, T8) as WireFormat>::spec_encodes(m, bytes),
    ensures
        cuts.len() == 10,
        cuts[0] == 0,
        cuts[9] == bytes.len(),
        cuts[0] <= cuts[1],
        cuts[1] <= cuts[2],
        cuts[2] <= cuts[3],
        cuts[3] <= cuts[4],
        cuts[4] <= cuts[5],
        cuts[5] <= cuts[6],
        cuts[6] <= cuts[7],
        cuts[7] <= cuts[8],
        cuts[8] <= cuts[9],
        T0::spec_encodes(m.0, bytes.subrange(cuts[0], cuts[1])),
        T1::spec_encodes(m.1, bytes.subrange(cuts[1], cuts[2])),
        T2::spec_encodes(m.2, bytes.subrange(cuts[2], cuts[3])),
        T3::spec_encodes(m.3, bytes.subrange(cuts[3], cuts[4])),
        T4::spec_encodes(m.4, bytes.subrange(cuts[4], cuts[5])),
        T5::spec_encodes(m.5, bytes.subrange(cuts[5], cuts[6])),
        T6::spec_encodes(m.6, bytes.subrange(cuts[6], cuts[7])),
        T7::spec_encodes(m.7, bytes.subrange(cuts[7], cuts[8])),
        T8::spec_encodes(m.8, bytes.subrange(cuts[8], cuts[9])),
{
    let k1 = choose|k1: int| 0 <= k1 <= bytes.len() && #[trigger] T0::spec_encodes(m.0, bytes.subrange(0, k1)) && (exists|k2: int| k1 <= k2 <= bytes.len() && #[trigger] T1::spec_encodes(m.1, bytes.subrange(k1, k2)) && (exists|k3: int| k2 <= k3 <= bytes.len() && #[trigger] T2::spec_encodes(m.2, bytes.subrange(k2, k3)) && (exists|k4: int| k3 <= k4 <= bytes.len() && #[trigger] T3::spec_encodes(m.3, bytes.subrange(k3, k4)) && (exists|k5: int| k4 <= k5 <= bytes.len() && #[trigger] T4::spec_encodes(m.4, bytes.subrange(k4, k5)) && (exists|k6: int| k5 <= k6 <= bytes.len() && #[trigger] T5::spec_encodes(m.5, bytes.subrange(k5, k6)) && (exists|k7: int| k6 <= k7 <= bytes.len() && #[trigger] T6::spec_encodes(m.6, bytes.subrange(k6, k7)) && (exists|k8: int| k7 <= k8 <= bytes.len() && #[trigger] T7::spec_encodes(m.7, bytes.subrange(k7, k8)) && (T8::spec_encodes(m.8, bytes.subrange(k8, bytes.len() as int))))))))));
    let k2 = choose|k2: int| k1 <= k2 <= bytes.len() && #[trigger] T1::spec_encodes(m.1, bytes.subrange(k1, k2)) && (exists|k3: int| k2 <= k3 <= bytes.len() && #[trigger] T2::spec_encodes(m.2, bytes.subrange(k2, k3)) && (exists|k4: int| k3 <= k4 <= bytes.len() && #[trigger] T3::spec_encodes(m.3, bytes.subrange(k3, k4)) && (exists|k5: int| k4 <= k5 <= bytes.len() && #[trigger] T4::spec_encodes(m.4, bytes.subrange(k4, k5)) && (exists|k6: int| k5 <= k6 <= bytes.len() && #[trigger] T5::spec_encodes(m.5, bytes.subrange(k5, k6)) && (exists|k7: int| k6 <= k7 <= bytes.len() && #[trigger] T6::spec_encodes(m.6, bytes.subrange(k6, k7)) && (exists|k8: int| k7 <= k8 <= bytes.len() && #[trigger] T7::spec_encodes(m.7, bytes.subrange(k7, k8)) && (T8::spec_encodes(m.8, bytes.subrange(k8, bytes.len() as int)))))))));
    let k3 = choose|k3: int| k2 <= k3 <= bytes.len() && #[trigger] T2::spec_encodes(m.2, bytes.subrange(k2, k3)) && (exists|k4: int| k3 <= k4 <= bytes.len() && #[trigger] T3::spec_encodes(m.3, bytes.subrange(k3, k4)) && (exists|k5: int| k4 <= k5 <= bytes.len() && #[trigger] T4::spec_encodes(m.4, bytes.subrange(k4, k5)) && (exists|k6: int| k5 <= k6 <= bytes.len() && #[trigger] T5::spec_encodes(m.5, bytes.subrange(k5, k6)) && (exists|k7: int| k6 <= k7 <= bytes.len() && #[trigger] T6::spec_encodes(m.6, bytes.subrange(k6, k7)) && (exists|k8: int| k7 <= k8 <= bytes.len() && #[trigger] T7::spec_encodes(m.7, bytes.subrange(k7, k8)) && (T8::spec_encodes(m.8, bytes.subrange(k8, bytes.len() as int))))))));
    let k4 = choose|k4: int| k3 <= k4 <= bytes.len() && #[trigger] T3::spec_encodes(m.3, bytes.subrange(k3, k4)) && (exists|k5: int| k4 <= k5 <= bytes.len() && #[trigger] T4::spec_encodes(m.4, bytes.subrange(k4, k5)) && (exists|k6: int| k5 <= k6 <= bytes.len() && #[trigger] T5::spec_encodes(m.5, bytes.subrange(k5, k6)) && (exists|k7: int| k6 <= k7 <= bytes.len() && #[trigger] T6::spec_encodes(m.6, bytes.subrange(k6, k7)) && (exists|k8: int| k7 <= k8 <= bytes.len() && #[trigger] T7::spec_encodes(m.7, bytes.subrange(k7, k8)) && (T8::spec_encodes(m.8, bytes.subrange(k8, bytes.len() as int)))))));
    let k5 = choose|k5: int| k4 <= k5 <= bytes.len() && #[trigger] T4::spec_encodes(m.4, bytes.subrange(k4, k5)) && (exists|k6: int| k5 <= k6 <= bytes.len() && #[trigger] T5::spec_encodes(m.5, bytes.subrange(k5, k6)) && (exists|k7: int| k6 <= k7 <= bytes.len() && #[trigger] T6::spec_encodes(m.6, bytes.subrange(k6, k7)) && (exists|k8: int| k7 <= k8 <= bytes.len() && #[trigger] T7::spec_encodes(m.7, bytes.subrange(k7, k8)) && (T8::spec_encodes(m.8, bytes.subrange(k8, bytes.len() as int))))));
    let k6 = choose|k6: int| k5 <= k6 <= bytes.len() && #[trigger] T5::spec_encodes(m.5, bytes.subrange(k5, k6)) && (exists|k7: int| k6 <= k7 <= bytes.len() && #[trigger] T6::spec_encodes(m.6, bytes.subrange(k6, k7)) && (exists|k8: int| k7 <= k8 <= bytes.len() && #[trigger] T7::spec_encodes(m.7, bytes.subrange(k7, k8)) && (T8::spec_encodes(m.8, bytes.subrange(k8, bytes.len() as int)))));
    let k7 = choose|k7: int| k6 <= k7 <= bytes.len() && #[trigger] T6::spec_encodes(m.6, bytes.subrange(k6, k7)) && (exists|k8: int| k7 <= k8 <= bytes.len() && #[trigger] T7::spec_encodes(m.7, bytes.subrange(k7, k8)) && (T8::spec_encodes(m.8, bytes.subrange(k8, bytes.len() as int))));
    let k8 = choose|k8: int| k7 <= k8 <= bytes.len() && #[trigger] T7::spec_encodes(m.7, bytes.subrange(k7, k8)) && (T8::spec_encodes(m.8, bytes.subrange(k8, bytes.len() as int)));
    seq![0int, k1, k2, k3, k4, k5, k6, k7, k8, bytes.len() as int]
}

/// A tuple of 10 fields is encoded by its fields' encodings put one after
/// another in field order.
#[verifier::spinoff_prover]
#[verifier::rlimit(60)]
pub proof fn lemma_tuple10_encodes_fields_in_order<T0: WireFormat, T1: WireFormat, T2: WireFormat, T3: WireFormat, T4: WireFormat, T5: WireFormat, T6: WireFormat, T7: WireFormat, T8: WireFormat, T9: WireFormat>(m: (T0::Model, T1::Model, T2::Model, T3::Model, T4::Model, T5::Model, T6::Model, T7::Model, T8::Model, T9::Model), b0: Seq<u8>, b1: Seq<u8>, b2: Seq<u8>, b3: Seq<u8>, b4: Seq<u8>, b5: Seq<u8>, b6: Seq<u8>, b7: Seq<u8>, b8: Seq<u8>, b9: Seq<u8>)
    requires
        T0::spec_encodes(m.0, b0),
        T1::spec_encodes(m.1, b1),
        T2::spec_encodes(m.2, b2),
        T3::spec_encodes(m.3, b3),
        T4::spec_encodes(m.4, b4),
        T5::spec_encodes(m.5, b5),
        T6::spec_encodes(m.6, b6),
        T7::spec_encodes(m.7, b7),
        T8::spec_encodes(m.8, b8),
        T9::spec_encodes(m.9, b9),
    ensures
        <(T0, T1, T2, T3, T4, T5, T6, T7, T8, T9) as WireFormat>::spec_encodes(m, b0 + b1 + b2 + b3 + b4 + b5 + b6 + b7 + b8 + b9),
{
    let bytes = b0 + b1 + b2 + b3 + b4 + b5 + b6 + b7 + b8 + b9;
    assert(bytes.subrange(0, (b0.len()) as int) =~= b0);
    assert(bytes.subrange((b0.len()) as int, (b0.len() + b1.len()) as int) =~= b1);
    assert(bytes.subrange((b0.len() + b1.len()) as int, (b0.len() + b1.len() + b2.len()) as int) =~= b2);
    assert(bytes.subrange((b0.len() + b1.len() + b2.len()) as int, (b0.len() + b1.len() + b2.len() + b3.len()) as int) =~= b3);
    assert(bytes.subrange((b0.len() + b1.len() + b2.len() + b3.len()) as int, (b0.len() + b1.len() + b2.len() + b3.len() + b4.len()) as int) =~= b4);
    assert(bytes.subrange((b0.len() + b1.len() + b2.len() + b3.len() + b4.len()) as int, (b0.len() + b1.len() + b2.len() + b3.len() + b4.len() + b5.len()) as int) =~= b5);
    assert(bytes.subrange((b0.len() + b1.len() + b2.len() + b3.len() + b4.len() + b5.len()) as int, (b0.len() + b1.len() + b2.len() + b3.len() + b4.len() + b5.len() + b6.len()) as int) =~= b6);
    assert(bytes.subrange((b0.len() + b1.len() + b2.len() + b3.len() + b4.len() + b5.len() + b6.len()) as int, (b0.len() + b1.len() + b2.len() + b3.len() + b4.len() + b5.len() + b6.len() + b7.len()) as int) =~= b7);
    assert(bytes.subrange((b0.len() + b1.len() + b2.len() + b3.len() + b4.len() + b5.len() + b6.len() + b7.len()) as int, (b0.len() + b1.len() + b2.len() + b3.len() + b4.len() + b5.len() + b6.len() + b7.len() + b8.len()) as int) =~= b8);
    assert(bytes.subrange((b0.len() + b1.len() + b2.len() + b3.len() + b4.len() + b5.len() + b6.len() + b7.len() + b8.len()) as int, bytes.len() as int) =~= b9);
    let k1: int = (b0.len()) as int;
    let k2: int = (b0.len() + b1.len()) as int;
    let k3: int = (b0.len() + b1.len() + b2.len()) as int;
    let k4: int = (b0.len() + b1.len() + b2.len() + b3.len()) as int;
    let k5: int = (b0.len() + b1.len() + b2.len() + b3.len() + b4.len()) as int;
    let k6: int = (b0.len() + b1.len() + b2.len() + b3.len() + b4.len() + b5.len()) as int;
    let k7: int = (b0.len() + b1.len() + b2.len() + b3.len() + b4.len() + b5.len() + b6.len()) as int;
    let k8: int = (b0.len() + b1.len() + b2.len() + b3.len() + b4.len() + b5.len() + b6.len() + b7.len()) as int;
    let k9: int = (b0.len() + b1.len() + b2.len() + b3.len() + b4.len() + b5.len() + b6.len() + b7.len() + b8.len()) as int;
    assert(exists|k9: int| k8 <= k9 <= bytes.len() && #[trigger] T8::spec_encodes(m.8, bytes.subrange(k8, k9)) && (T9::spec_encodes(m.9, bytes.subrange(k9, bytes.len() as int))));
    assert(exists|k8: int| k7 <= k8 <= bytes.len() && #[trigger] T7::spec_encodes(m.7, bytes.subrange(k7, k8)) && (exists|k9: int| k8 <= k9 <= bytes.len() && #[trigger] T8::spec_encodes(m.8, bytes.subrange(k8, k9)) && (T9::spec_encodes(m.9, bytes.subrange(k9, bytes.len() as int)))));
    assert(exists|k7: int| k6 <= k7 <= bytes.len() && #[trigger] T6::spec_encodes(m.6, bytes.subrange(k6, k7)) && (exists|k8: int| k7 <= k8 <= bytes.len() && #[trigger] T7::spec_encodes(m.7, bytes.subrange(k7, k8)) && (exists|k9: int| k8 <= k9 <= bytes.len() && #[trigger] T8::spec_encodes(m.8, bytes.subrange(k8, k9)) && (T9::spec_encodes(m.9, bytes.subrange(k9, bytes.len() as int))))));
    assert(exists|k6: int| k5 <= k6 <= bytes.len() && #[trigger] T5::spec_encodes(m.5, bytes.subrange(k5, k6)) && (exists|k7: int| k6 <= k7 <= bytes.len() && #[trigger] T6::spec_encodes(m.6, bytes.subrange(k6, k7)) && (exists|k8: int| k7 <= k8 <= bytes.len() && #[trigger] T7::spec_encodes(m.7, bytes.subrange(k7, k8)) && (exists|k9: int| k8 <= k9 <= bytes.len() && #[trigger] T8::spec_encodes(m.8, bytes.subrange(k8, k9)) && (T9::spec_encodes(m.9, bytes.subrange(k9, bytes.len() as int)))))));
    assert(exists|k5: int| k4 <= k5 <= bytes.len() && #[trigger] T4::spec_encodes(m.4, bytes.subrange(k4, k5)) && (exists|k6: int| k5 <= k6 <= bytes.len() && #[trigger] T5::spec_encodes(m.5, bytes.subrange(k5, k6)) && (exists|k7: int| k6 <= k7 <= bytes.len() && #[trigger] T6::spec_encodes(m.6, bytes.subrange(k6, k7)) && (exists|k8: int| k7 <= k8 <= bytes.len() && #[trigger] T7::spec_encodes(m.7, bytes.subrange(k7, k8)) && (exists|k9: int| k8 <= k9 <= bytes.len() && #[trigger] T8::spec_encodes(m.8, bytes.subrange(k8, k9)) && (T9::spec_encodes(m.9, bytes.subrange(k9, bytes.len() as int))))))));
    assert(exists|k4: int| k3 <= k4 <= bytes.len() && #[trigger] T3::spec_encodes(m.3, bytes.subrange(k3, k4)) && (exists|k5: int| k4 <= k5 <= bytes.len() && #[trigger] T4::spec_encodes(m.4, bytes.subrange(k4, k5)) && (exists|k6: int| k5 <= k6 <= bytes.len() && #[trigger] T5::spec_encodes(m.5, bytes.subrange(k5, k6)) && (exists|k7: int| k6 <= k7 <= bytes.len() && #[trigger] T6::spec_encodes(m.6, bytes.subrange(k6, k7)) && (exists|k8: int| k7 <= k8 <= bytes.len() && #[trigger] T7::spec_encodes(m.7, bytes.subrange(k7, k8)) && (exists|k9: int| k8 <= k9 <= bytes.len() && #[trigger] T8::spec_encodes(m.8, bytes.subrange(k8, k9)) && (T9::spec_encodes(m.9, bytes.subrange(k9, bytes.len() as int)))))))));
    assert(exists|k3: int| k2 <= k3 <= bytes.len() && #[trigger] T2::spec_encodes(m.2, bytes.subrange(k2, k3)) && (exists|k4: int| k3 <= k4 <= bytes.len() && #[trigger] T3::spec_encodes(m.3, bytes.subrange(k3, k4)) && (exists|k5: int| k4 <= k5 <= bytes.len() && #[trigger] T4::spec_encodes(m.4, bytes.subrange(k4, k5)) && (exists|k6: int| k5 <= k6 <= bytes.len() && #[trigger] T5::spec_encodes(m.5, bytes.subrange(k5, k6)) && (exists|k7: int| k6 <= k7 <= bytes.len() && #[trigger] T6::spec_encodes(m.6, bytes.subrange(k6, k7)) && (exists|k8: int| k7 <= k8 <= bytes.len() && #[trigger] T7::spec_encodes(m.7, bytes.subrange(k7, k8)) && (exists|k9: int| k8 <= k9 <= bytes.len() && #[trigger] T8::spec_encodes(m.8, bytes.subrange(k8, k9)) && (T9::spec_encodes(m.9, bytes.subrange(k9, bytes.len() as int))))))))));
    assert(exists|k2: int| k1 <= k2 <= bytes.len() && #[trigger] T1::spec_encodes(m.1, bytes.subrange(k1, k2)) && (exists|k3: int| k2 <= k3 <= bytes.len() && #[trigger] T2::spec_encodes(m.2, bytes.subrange(k2, k3)) && (exists|k4: int| k3 <= k4 <= bytes.len() && #[trigger] T3::spec_encodes(m.3, bytes.subrange(k3, k4)) && (exists|k5: int| k4 <= k5 <= bytes.len() && #[trigger] T4::spec_encodes(m.4, bytes.subrange(k4, k5)) && (exists|k6: int| k5 <= k6 <= bytes.len() && #[trigger] T5::spec_encodes(m.5, bytes.subrange(k5, k6)) && (exists|k7: int| k6 <= k7 <= bytes.len() && #[trigger] T6::spec_encodes(m.6, bytes.subrange(k6, k7)) && (exists|k8: int| k7 <= k8 <= bytes.len() && #[trigger] T7::spec_encodes(m.7, bytes.subrange(k7, k8)) && (exists|k9: int| k8 <= k9 <= bytes.len() && #[trigger] T8::spec_encodes(m.8, bytes.subrange(k8, k9)) && (T9::spec_encodes(m.9, bytes.subrange(k9, bytes.len() as int)))))))))));
    assert(exists|k1: int| 0 <= k1 <= bytes.len() && #[trigger] T0::spec_encodes(m.0, bytes.subrange(0, k1)) && (exists|k2: int| k1 <= k2 <= bytes.len() && #[trigger] T1::spec_encodes(m.1, bytes.subrange(k1, k2)) && (exists|k3: int| k2 <= k3 <= bytes.len() && #[trigger] T2::spec_encodes(m.2, bytes.subrange(k2, k3)) && (exists|k4: int| k3 <= k4 <= bytes.len() && #[trigger] T3::spec_encodes(m.3, bytes.subrange(k3, k4)) && (exists|k5: int| k4 <= k5 <= bytes.len() && #[trigger] T4::spec_encodes(m.4, bytes.subrange(k4, k5)) && (exists|k6: int| k5 <= k6 <= bytes.len() && #[trigger] T5::spec_encodes(m.5, bytes.subrange(k5, k6)) && (exists|k7: int| k6 <= k7 <= bytes.len() && #[trigger] T6::spec_encodes(m.6, bytes.subrange(k6, k7)) && (exists|k8: int| k7 <= k8 <= bytes.len() && #[trigger] T7::spec_encodes(m.7, bytes.subrange(k7, k8)) && (exists|k9: int| k8 <= k9 <= bytes.len() && #[trigger] T8::spec_encodes(m.8, bytes.subrange(k8, k9)) && (T9::spec_encodes(m.9, bytes.subrange(k9, bytes.len() as int))))))))))));
}

/// An encoding of a tuple of 10 fields cuts into its fields' encodings, in
/// field order, at the positions `cuts`.
#[verifier::spinoff_prover]
#[verifier::rlimit(60)]
pub proof fn lemma_tuple10_cuts_into_fields<T0: WireFormat, T1: WireFormat, T2: WireFormat, T3: WireFormat, T4: WireFormat, T5: WireFormat, T6: WireFormat, T7: WireFormat, T8: WireFormat, T9: WireFormat>(m: (T0::Model, T1::Model, T2::Model, T3::Model, T4::Model, T5::Model, T6::Model, T7::Model, T8::Model, T9::Model), bytes: Seq<u8>) -> (cuts: Seq<int>)
    requires
        <(T0, T1, T2, T3, T4, T5, T6, T7, T8, T9) as WireFormat>::spec_encodes(m, bytes),
    ensures
        cuts.len() == 11,
        cuts[0] == 0,
        cuts[10] == bytes.len(),
        cuts[0] <= cuts[1],
        cuts[1] <= cuts[2],
        cuts[2] <= cuts[3],
        cuts[3] <= cuts[4],
        cuts[4] <= cuts[5],
        cuts[5] <= cuts[6],
        cuts[6] <= cuts[7],
        cuts[7] <= cuts[8],
        cuts[8] <= cuts[9],
        cuts[9] <= cuts[10],
        T0::spec_encodes(m.0, bytes.subrange(cuts[0], cuts[1])),
        T1::spec_encodes(m.1, bytes.subrange(cuts[1], cuts[2])),
        T2::spec_encodes(m.2, bytes.subrange(cuts[2], cuts[3])),
        T3::spec_encodes(m.3, bytes.subrange(cuts[3], cuts[4])),
        T4::spec_encodes(m.4, bytes.subrange(cuts[4], cuts[5])),
        T5::spec_encodes(m.5, bytes.subrange(cuts[5], cuts[6])),
        T6::spec_encodes(m.6, bytes.subrange(cuts[6], cuts[7])),
        T7::spec_encodes(m.7, bytes.subrange(cuts[7], cuts[8])),
        T8::spec_encodes(m.8, bytes.subrange(cuts[8], cuts[9])),
        T9::spec_encodes(m.9, bytes.subrange(cuts[9], cuts[10])),
{
    let k1 = choose|k1: int| 0 <= k1 <= bytes.len() && #[trigger] T0::spec_encodes(m.0, bytes.subrange(0, k1)) && (exists|k2: int| k1 <= k2 <= bytes.len() && #[trigger] T1::spec_encodes(m.1, bytes.subrange(k1, k2)) && (exists|k3: int| k2 <= k3 <= bytes.len() && #[trigger] T2::spec_encodes(m.2, bytes.subrange(k2, k3)) && (exists|k4: int| k3 <= k4 <= bytes.len() && #[trigger] T3::spec_encodes(m.3, bytes.subrange(k3, k4)) && (exists|k5: int| k4 <= k5 <= bytes.len() && #[trigger] T4::spec_encodes(m.4, bytes.subrange(k4, k5)) && (exists|k6: int| k5 <= k6 <= bytes.len() && #[trigger] T5::spec_encodes(m.5, bytes.subrange(k5, k6)) && (exists|k7: int| k6 <= k7 <= bytes.len() && #[trigger] T6::spec_encodes(m.6, bytes.subrange(k6, k7)) && (exists|k8: int| k7 <= k8 <= bytes.len() && #[trigger] T7::spec_encodes(m.7, bytes.subrange(k7, k8)) && (exists|k9: int| k8 <= k9 <= bytes.len() && #[trigger] T8::spec_encodes(m.8, bytes.subrange(k8, k9)) && (T9::spec_encodes(m.9, bytes.subrange(k9, bytes.len() as int)))))))))));
    let k2 = choose|k2: int| k1 <= k2 <= bytes.len() && #[trigger] T1::spec_encodes(m.1, bytes.subrange(k1, k2)) && (exists|k3: int| k2 <= k3 <= bytes.len() && #[trigger] T2::spec_encodes(m.2, bytes.subrange(k2, k3)) && (exists|k4: int| k3 <= k4 <= bytes.len() && #[trigger] T3::spec_encodes(m.3, bytes.subrange(k3, k4)) && (exists|k5: int| k4 <= k5 <= bytes.len() && #[trigger] T4::spec_encodes(m.4, bytes.subrange(k4, k5)) && (exists|k6: int| k5 <= k6 <= bytes.len() && #[trigger] T5::spec_encodes(m.5, bytes.subrange(k5, k6)) && (exists|k7: int| k6 <= k7 <= bytes.len() && #[trigger] T6::spec_encodes(m.6, bytes.subrange(k6, k7)) && (exists|k8: int| k7 <= k8 <= bytes.len() && #[trigger] T7::spec_encodes(m.7, bytes.subrange(k7, k8)) && (exists|k9: int| k8 <= k9 <= bytes.len() && #[trigger] T8::spec_encodes(m.8, bytes.subrange(k8, k9)) && (T9::spec_encodes(m.9, bytes.subrange(k9, bytes.len() as int))))))))));
    let k3 = choose|k3: int| k2 <= k3 <= bytes.len() && #[trigger] T2::spec_encodes(m.2, bytes.subrange(k2, k3)) && (exists|k4: int| k3 <= k4 <= bytes.len() && #[trigger] T3::spec_encodes(m.3, bytes.subrange(k3, k4)) && (exists|k5: int| k4 <= k5 <= bytes.len() && #[trigger] T4::spec_encodes(m.4, bytes.subrange(k4, k5)) && (exists|k6: int| k5 <= k6 <= bytes.len() && #[trigger] T5::spec_encodes(m.5, bytes.subrange(k5, k6)) && (exists|k7: int| k6 <= k7 <= bytes.len() && #[trigger] T6::spec_encodes(m.6, bytes.subrange(k6, k7)) && (exists|k8: int| k7 <= k8 <= bytes.len() && #[trigger] T7::spec_encodes(m.7, bytes.subrange(k7, k8)) && (exists|k9: int| k8 <= k9 <= bytes.len() && #[trigger] T8::spec_encodes(m.8, bytes.subrange(k8, k9)) && (T9::spec_encodes(m.9, bytes.subrange(k9, bytes.len() as int)))))))));
    let k4 = choose|k4: int| k3 <= k4 <= bytes.len() && #[trigger] T3::spec_encodes(m.3, bytes.subrange(k3, k4)) && (exists|k5: int| k4 <= k5 <= bytes.len() && #[trigger] T4::spec_encodes(m.4, bytes.subrange(k4, k5)) && (exists|k6: int| k5 <= k6 <= bytes.len() && #[trigger] T5::spec_encodes(m.5, bytes.subrange(k5, k6)) && (exists|k7: int| k6 <= k7 <= bytes.len() && #[trigger] T6::spec_encodes(m.6, bytes.subrange(k6, k7)) && (exists|k8: int| k7 <= k8 <= bytes.len() && #[trigger] T7::spec_encodes(m.7, bytes.subrange(k7, k8)) && (exists|k9: int| k8 <= k9 <= bytes.len() && #[trigger] T8::spec_encodes(m.8, bytes.subrange(k8, k9)) && (T9::spec_encodes(m.9, bytes.subrange(k9, bytes.len() as int))))))));
    let k5 = choose|k5: int| k4 <= k5 <= bytes.len() && #[trigger] T4::spec_encodes(m.4, bytes.subrange(k4, k5)) && (exists|k6: int| k5 <= k6 <= bytes.len() && #[trigger] T5::spec_encodes(m.5, bytes.subrange(k5, k6)) && (exists|k7: int| k6 <= k7 <= bytes.len() && #[trigger] T6::spec_encodes(m.6, bytes.subrange(k6, k7)) && (exists|k8: int| k7 <= k8 <= bytes.len() && #[trigger] T7::spec_encodes(m.7, bytes.subrange(k7, k8)) && (exists|k9: int| k8 <= k9 <= bytes.len() && #[trigger] T8::spec_encodes(m.8, bytes.subrange(k8, k9)) && (T9::spec_encodes(m.9, bytes.subrange(k9, bytes.len() as int)))))));
    let k6 = choose|k6: int| k5 <= k6 <= bytes.len() && #[trigger] T5::spec_encodes(m.5, bytes.subrange(k5, k6)) && (exists|k7: int| k6 <= k7 <= bytes.len() && #[trigger] T6::spec_encodes(m.6, bytes.subrange(k6, k7)) && (exists|k8: int| k7 <= k8 <= bytes.len() && #[trigger] T7::spec_encodes(m.7, bytes.subrange(k7, k8)) && (exists|k9: int| k8 <= k9 <= bytes.len() && #[trigger] T8::spec_encodes(m.8, bytes.subrange(k8, k9)) && (T9::spec_encodes(m.9, bytes.subrange(k9, bytes.len() as int))))));
    let k7 = choose|k7: int| k6 <= k7 <= bytes.len() && #[trigger] T6::spec_encodes(m.6, bytes.subrange(k6, k7)) && (exists|k8: int| k7 <= k8 <= bytes.len() && #[trigger] T7::spec_encodes(m.7, bytes.subrange(k7, k8)) && (exists|k9: int| k8 <= k9 <= bytes.len() && #[trigger] T8::spec_encodes(m.8, bytes.subrange(k8, k9)) && (T9::spec_encodes(m.9, bytes.subrange(k9, bytes.len() as int)))));
    let k8 = choose|k8: int| k7 <= k8 <= bytes.len() && #[trigger] T7::spec_encodes(m.7, bytes.subrange(k7, k8)) && (exists|k9: int| k8 <= k9 <= bytes.len() && #[trigger] T8::spec_encodes(m.8, bytes.subrange(k8, k9)) && (T9::spec_encodes(m.9, bytes.subrange(k9, bytes.len() as int))));
    let k9 = choose|k9: int| k8 <= k9 <= bytes.len() && #[trigger] T8::spec_encodes(m.8, bytes.subrange(k8, k9)) && (T9::spec_encodes(m.9, bytes.subrange(k9, bytes.len() as int)));
    seq![0int, k1, k2, k3, k4, k5, k6, k7, k8, k9, bytes.len() as int]
}

/// A tuple of 11 fields is encoded by its fields' encodings put one after
/// another in field order.
#[verifier::spinoff_prover]
#[verifier::rlimit(60)]
pub proof fn lemma_tuple11_encodes_fields_in_order<T0: WireFormat, T1: WireFormat, T2: WireFormat, T3: WireFormat, T4: WireFormat, T5: WireFormat, T6: WireFormat, T7: WireFormat, T8: WireFormat, T9: WireFormat, T10: WireFormat>(m: (T0::Model, T1::Model, T2::Model, T3::Model, T4::Model, T5::Model, T6::Model, T7::Model, T8::Model, T9::Model, T10::Model), b0: Seq<u8>, b1: Seq<u8>, b2: Seq<u8>, b3: Seq<u8>, b4: Seq<u8>, b5: Seq<u8>, b6: Seq<u8>, b7: Seq<u8>, b8: Seq<u8>, b9: Seq<u8>, b10: Seq<u8>)
    requires
        T0::spec_encodes(m.0, b0),
        T1::spec_encodes(m.1, b1),
        T2::spec_encodes(m.2, b2),
        T3::spec_encodes(m.3, b3),
        T4::spec_encodes(m.4, b4),
        T5::spec_encodes(m.5, b5),
        T6::spec_encodes(m.6, b6),
        T7::spec_encodes(m.7, b7),
        T8::spec_encodes(m.8, b8),
        T9::spec_encodes(m.9, b9),
        T10::spec_encodes(m.10, b10),
    ensures
        <(T0, T1, T2, T3, T4, T5, T6, T7, T8, T9, T10) as WireFormat>::spec_encodes(m, b0 + b1 + b2 + b3 + b4 + b5 + b6 + b7 + b8 + b9 + b10),
{
    let bytes = b0 + b1 + b2 + b3 + b4 + b5 + b6 + b7 + b8 + b9 + b10;
    assert(bytes.subrange(0, (b0.len()) as int) =~= b0);
    assert(bytes.subrange((b0.len()) as int, (b0.len() + b1.len()) as int) =~= b1);
    assert(bytes.subrange((b0.len() + b1.len()) as int, (b0.len() + b1.len() + b2.len()) as int) =~= b2);
    assert(bytes.subrange((b0.len() + b1.len() + b2.len()) as int, (b0.len() + b1.len() + b2.len() + b3.len()) as int) =~= b3);
    assert(bytes.subrange((b0.len() + b1.len() + b2.len() + b3.len()) as int, (b0.len() + b1.len() + b2.len() + b3.len() + b4.len()) as int) =~= b4);
    assert(bytes.subrange((b0.len() + b1.len() + b2.len() + b3.len() + b4.len()) as int, (b0.len() + b1.len() + b2.len() + b3.len() + b4.len() + b5.len()) as int) =~= b5);
    assert(bytes.subrange((b0.len() + b1.len() + b2.len() + b3.len() + b4.len() + b5.len()) as int, (b0.len() + b1.len() + b2.len() + b3.len() + b4.len() + b5.len() + b6.len()) as int) =~= b6);
    assert(bytes.subrange((b0.len() + b1.len() + b2.len() + b3.len() + b4.len() + b5.len() + b6.len()) as int, (b0.len() + b1.len() + b2.len() + b3.len() + b4.len() + b5.len() + b6.len() + b7.len()) as int) =~= b7);
    assert(bytes.subrange((b0.len() + b1.len() + b2.len() + b3.len() + b4.len() + b5.len() + b6.len() + b7.len()) as int, (b0.len() + b1.len() + b2.len() + b3.len() + b4.len() + b5.len() + b6.len() + b7.len() + b8.len()) as int) =~= b8);
    assert(bytes.subrange((b0.len() + b1.len() + b2.len() + b3.len() + b4.len() + b5.len() + b6.len() + b7.len() + b8.len()) as int, (b0.len() + b1.len() + b2.len() + b3.len() + b4.len() + b5.len() + b6.len() + b7.len() + b8.len() + b9.len()) as int) =~= b9);
    assert(bytes.subrange((b0.len() + b1.len() + b2.len() + b3.len() + b4.len() + b5.len() + b6.len() + b7.len() + b8.len() + b9.len()) as int, bytes.len() as int) =~= b10);
    let k1: int = (b0.len()) as int;
    let k2: int = (b0.len() + b1.len()) as int;
    let k3: int = (b0.len() + b1.len() + b2.len()) as int;
    let k4: int = (b0.len() + b1.len() + b2.len() + b3.len()) as int;
    let k5: int = (b0.len() + b1.len() + b2.len() + b3.len() + b4.len()) as int;
    let k6: int = (b0.len() + b1.len() + b2.len() + b3.len() + b4.len() + b5.len()) as int;
    let k7: int = (b0.len() + b1.len() + b2.len() + b3.len() + b4.len() + b5.len() + b6.len()) as int;
    let k8: int = (b0.len() + b1.len() + b2.len() + b3.len() + b4.len() + b5.len() + b6.len() + b7.len()) as int;
    let k9: int = (b0.len() + b1.len() + b2.len() + b3.len() + b4.len() + b5.len() + b6.len() + b7.len() + b8.len()) as int;
    let k10: int = (b0.len() + b1.len() + b2.len() + b3.len() + b4.len() + b5.len() + b6.len() + b7.len() + b8.len() + b9.len()) as int;
    assert(exists|k10: int| k9 <= k10 <= bytes.len() && #[trigger] T9::spec_encodes(m.9, bytes.subrange(k9, k10)) && (T10::spec_encodes(m.10, bytes.subrange(k10, bytes.len() as int))));
    assert(exists|k9: int| k8 <= k9 <= bytes.len() && #[trigger] T8::spec_encodes(m.8, bytes.subrange(k8, k9)) && (exists|k10: int| k9 <= k10 <= bytes.len() && #[trigger] T9::spec_encodes(m.9, bytes.subrange(k9, k10)) && (T10::spec_encodes(m.10, bytes.subrange(k10, bytes.len() as int)))));
    assert(exists|k8: int| k7 <= k8 <= bytes.len() && #[trigger] T7::spec_encodes(m.7, bytes.subrange(k7, k8)) && (exists|k9: int| k8 <= k9 <= bytes.len() && #[trigger] T8::spec_encodes(m.8, bytes.subrange(k8, k9)) && (exists|k10: int| k9 <= k10 <= bytes.len() && #[trigger] T9::spec_encodes(m.9, bytes.subrange(k9, k10)) && (T10::spec_encodes(m.10, bytes.subrange(k10, bytes.len() as int))))));
    assert(exists|k7: int| k6 <= k7 <= bytes.len() && #[trigger] T6::spec_encodes(m.6, bytes.subrange(k6, k7)) && (exists|k8: int| k7 <= k8 <= bytes.len() && #[trigger] T7::spec_encodes(m.7, bytes.subrange(k7, k8)) && (exists|k9: int| k8 <= k9 <= bytes.len() && #[trigger] T8::spec_encodes(m.8, bytes.subrange(k8, k9)) && (exists|k10: int| k9 <= k10 <= bytes.len() && #[trigger] T9::spec_encodes(m.9, bytes.subrange(k9, k10)) && (T10::spec_encodes(m.10, bytes.subrange(k10, bytes.len() as int)))))));
    assert(exists|k6: int| k5 <= k6 <= bytes.len() && #[trigger] T5::spec_encodes(m.5, bytes.subrange(k5, k6)) && (exists|k7: int| k6 <= k7 <= bytes.len() && #[trigger] T6::spec_encodes(m.6, bytes.subrange(k6, k7)) && (exists|k8: int| k7 <= k8 <= bytes.len() && #[trigger] T7::spec_encodes(m.7, bytes.subrange(k7, k8)) && (exists|k9: int| k8 <= k9 <= bytes.len() && #[trigger] T8::spec_encodes(m.8, bytes.subrange(k8, k9)) && (exists|k10: int| k9 <= k10 <= bytes.len() && #[trigger] T9::spec_encodes(m.9, bytes.subrange(k9, k10)) && (T10::spec_encodes(m.10, bytes.subrange(k10, bytes.len() as int))))))));
    assert(exists|k5: int| k4 <= k5 <= bytes.len() && #[trigger] T4::spec_encodes(m.4, bytes.subrange(k4, k5)) && (exists|k6: int| k5 <= k6 <= bytes.len() && #[trigger] T5::spec_encodes(m.5, bytes.subrange(k5, k6)) && (exists|k7: int| k6 <= k7 <= bytes.len() && #[trigger] T6::spec_encodes(m.6, bytes.subrange(k6, k7)) && (exists|k8: int| k7 <= k8 <= bytes.len() && #[trigger] T7::spec_encodes(m.7, bytes.subrange(k7, k8)) && (exists|k9: int| k8 <= k9 <= bytes.len() && #[trigger] T8::spec_encodes(m.8, bytes.subrange(k8, k9)) && (exists|k10: int| k9 <= k10 <= bytes.len() && #[trigger] T9::spec_encodes(m.9, bytes.subrange(k9, k10)) && (T10::spec_encodes(m.10, bytes.subrange(k10, bytes.len() as int)))))))));
    assert(exists|k4: int| k3 <= k4 <= bytes.len() && #[trigger] T3::spec_encodes(m.3, bytes.subrange(k3, k4)) && (exists|k5: int| k4 <= k5 <= bytes.len() && #[trigger] T4::spec_encodes(m.4, bytes.subrange(k4, k5)) && (exists|k6: int| k5 <= k6 <= bytes.len() && #[trigger] T5::spec_encodes(m.5, bytes.subrange(k5, k6)) && (exists|k7: int| k6 <= k7 <= bytes.len() && #[trigger] T6::spec_encodes(m.6, bytes.subrange(k6, k7)) && (exists|k8: int| k7 <= k8 <= bytes.len() && #[trigger] T7::spec_encodes(m.7, bytes.subrange(k7, k8)) && (exists|k9: int| k8 <= k9 <= bytes.len() && #[trigger] T8::spec_encodes(m.8, bytes.subrange(k8, k9)) && (exists|k10: int| k9 <= k10 <= bytes.len() && #[trigger] T9::spec_encodes(m.9, bytes.subrange(k9, k10)) && (T10::spec_encodes(m.10, bytes.subrange(k10, bytes.len() as int))))))))));
    assert(exists|k3: int| k2 <= k3 <= bytes.len() && #[trigger] T2::spec_encodes(m.2, bytes.subrange(k2, k3)) && (exists|k4: int| k3 <= k4 <= bytes.len() && #[trigger] T3::spec_encodes(m.3, bytes.subrange(k3, k4)) && (exists|k5: int| k4 <= k5 <= bytes.len() && #[trigger] T4::spec_encodes(m.4, bytes.subrange(k4, k5)) && (exists|k6: int| k5 <= k6 <= bytes.len() && #[trigger] T5::spec_encodes(m.5, bytes.subrange(k5, k6)) && (exists|k7: int| k6 <= k7 <= bytes.len() && #[trigger] T6::spec_encodes(m.6, bytes.subrange(k6, k7)) && (exists|k8: int| k7 <= k8 <= bytes.len() && #[trigger] T7::spec_encodes(m.7, bytes.subrange(k7, k8)) && (exists|k9: int| k8 <= k9 <= bytes.len() && #[trigger] T8::spec_encodes(m.8, bytes.subrange(k8, k9)) && (exists|k10: int| k9 <= k10 <= bytes.len() && #[trigger] T9::spec_encodes(m.9, bytes.subrange(k9, k10)) && (T10::spec_encodes(m.10, bytes.subrange(k10, bytes.len() as int)))))))))));
    assert(exists|k2: int| k1 <= k2 <= bytes.len() && #[trigger] T1::spec_encodes(m.1, bytes.subrange(k1, k2)) && (exists|k3: int| k2 <= k3 <= bytes.len() && #[trigger] T2::spec_encodes(m.2, bytes.subrange(k2, k3)) && (exists|k4: int| k3 <= k4 <= bytes.len() && #[trigger] T3::spec_encodes(m.3, bytes.subrange(k3, k4)) && (exists|k5: int| k4 <= k5 <= bytes.len() && #[trigger] T4::spec_encodes(m.4, bytes.subrange(k4, k5)) && (exists|k6: int| k5 <= k6 <= bytes.len() && #[trigger] T5::spec_encodes(m.5, bytes.subrange(k5, k6)) && (exists|k7: int| k6 <= k7 <= bytes.len() && #[trigger] T6::spec_encodes(m.6, bytes.subrange(k6, k7)) && (exists|k8: int| k7 <= k8 <= bytes.len() && #[trigger] T7::spec_encodes(m.7, bytes.subrange(k7, k8)) && (exists|k9: int| k8 <= k9 <= bytes.len() && #[trigger] T8::spec_encodes(m.8, bytes.subrange(k8, k9)) && (exists|k10: int| k9 <= k10 <= bytes.len() && #[trigger] T9::spec_encodes(m.9, bytes.subrange(k9, k10)) && (T10::spec_encodes(m.10, bytes.subrange(k10, bytes.len() as int))))))))))));
    assert(exists|k1: int| 0 <= k1 <= bytes.len() && #[trigger] T0::spec_encodes(m.0, bytes.subrange(0, k1)) && (exists|k2: int| k1 <= k2 <= bytes.len() && #[trigger] T1::spec_encodes(m.1, bytes.subrange(k1, k2)) && (exists|k3: int| k2 <= k3 <= bytes.len() && #[trigger] T2::spec_encodes(m.2, bytes.subrange(k2, k3)) && (exists|k4: int| k3 <= k4 <= bytes.len() && #[trigger] T3::spec_encodes(m.3, bytes.subrange(k3, k4)) && (exists|k5: int| k4 <= k5 <= bytes.len() && #[trigger] T4::spec_encodes(m.4, bytes.subrange(k4, k5)) && (exists|k6: int| k5 <= k6 <= bytes.len() && #[trigger] T5::spec_encodes(m.5, bytes.subrange(k5, k6)) && (exists|k7: int| k6 <= k7 <= bytes.len() && #[trigger] T6::spec_encodes(m.6, bytes.subrange(k6, k7)) && (exists|k8: int| k7 <= k8 <= bytes.len() && #[trigger] T7::spec_encodes(m.7, bytes.subrange(k7, k8)) && (exists|k9: int| k8 <= k9 <= bytes.len() && #[trigger] T8::spec_encodes(m.8, bytes.subrange(k8, k9)) && (exists|k10: int| k9 <= k10 <= bytes.len() && #[trigger] T9::spec_encodes(m.9, bytes.subrange(k9, k10)) && (T10::spec_encodes(m.10, bytes.subrange(k10, bytes.len() as int)))))))))))));
}

/// An encoding of a tuple of 11 fields cuts into its fields' encodings, in
/// field order, at the positions `cuts`.
#[verifier::spinoff_prover]
#[verifier::rlimit(60)]
pub proof fn lemma_tuple11_cuts_into_fields<T0: WireFormat, T1: WireFormat, T2: WireFormat, T3: WireFormat, T4: WireFormat, T5: WireFormat, T6: WireFormat, T7: WireFormat, T8: WireFormat, T9: WireFormat, T10: WireFormat>(m: (T0::Model, T1::Model, T2::Model, T3::Model, T4::Model, T5::Model, T6::Model, T7::Model, T8::Model, T9::Model, T10::Model), bytes: Seq<u8>) -> (cuts: Seq<int>)
    requires
        <(T0, T1, T2, T3, T4, T5, T6, T7, T8, T9, T10) as WireFormat>::spec_encodes(m, bytes),
    ensures
        cuts.len() == 12,
        cuts[0] == 0,
        cuts[11] == bytes.len(),
        cuts[0] <= cuts[1],
        cuts[1] <= cuts[2],
        cuts[2] <= cuts[3],
        cuts[3] <= cuts[4],
        cuts[4] <= cuts[5],
        cuts[5] <= cuts[6],
        cuts[6] <= cuts[7],
        cuts[7] <= cuts[8],
        cuts[8] <= cuts[9],
        cuts[9] <= cuts[10],
        cuts[10] <= cuts[11],
        T0::spec_encodes(m.0, bytes.subrange(cuts[0], cuts[1])),
        T1::spec_encodes(m.1, bytes.subrange(cuts[1], cuts[2])),
        T2::spec_encodes(m.2, bytes.subrange(cuts[2], cuts[3])),
        T3::spec_encodes(m.3, bytes.subrange(cuts[3], cuts[4])),
        T4::spec_encodes(m.4, bytes.subrange(cuts[4], cuts[5])),
        T5::spec_encodes(m.5, bytes.subrange(cuts[5], cuts[6])),
        T6::spec_encodes(m.6, bytes.subrange(cuts[6], cuts[7])),
        T7::spec_encodes(m.7, bytes.subrange(cuts[7], cuts[8])),
        T8::spec_encodes(m.8, bytes.subrange(cuts[8], cuts[9])),
        T9::spec_encodes(m.9, bytes.subrange(cuts[9], cuts[10])),
        T10::spec_encodes(m.10, bytes.subrange(cuts[10], cuts[11])),
{
    let k1 = choose|k1: int| 0 <= k1 <= bytes.len() && #[trigger] T0::spec_encodes(m.0, bytes.subrange(0, k1)) && (exists|k2: int| k1 <= k2 <= bytes.len() && #[trigger] T1::spec_encodes(m.1, bytes.subrange(k1, k2)) && (exists|k3: int| k2 <= k3 <= bytes.len() && #[trigger] T2::spec_encodes(m.2, bytes.subrange(k2, k3)) && (exists|k4: int| k3 <= k4 <= bytes.len() && #[trigger] T3::spec_encodes(m.3, bytes.subrange(k3, k4)) && (exists|k5: int| k4 <= k5 <= bytes.len() && #[trigger] T4::spec_encodes(m.4, bytes.subrange(k4, k5)) && (exists|k6: int| k5 <= k6 <= bytes.len() && #[trigger] T5::spec_encodes(m.5, bytes.subrange(k5, k6)) && (exists|k7: int| k6 <= k7 <= bytes.len() && #[trigger] T6::spec_encodes(m.6, bytes.subrange(k6, k7)) && (exists|k8: int| k7 <= k8 <= bytes.len() && #[trigger] T7::spec_encodes(m.7, bytes.subrange(k7, k8)) && (exists|k9: int| k8 <= k9 <= bytes.len() && #[trigger] T8::spec_encodes(m.8, bytes.subrange(k8, k9)) && (exists|k10: int| k9 <= k10 <= bytes.len() && #[trigger] T9::spec_encodes(m.9, bytes.subrange(k9, k10)) && (T10::spec_encodes(m.10, bytes.subrange(k10, bytes.len() as int))))))))))));
    let k2 = choose|k2: int| k1 <= k2 <= bytes.len() && #[trigger] T1::spec_encodes(m.1, bytes.subrange(k1, k2)) && (exists|k3: int| k2 <= k3 <= bytes.len() && #[trigger] T2::spec_encodes(m.2, bytes.subrange(k2, k3)) && (exists|k4: int| k3 <= k4 <= bytes.len() && #[trigger] T3::spec_encodes(m.3, bytes.subrange(k3, k4)) && (exists|k5: int| k4 <= k5 <= bytes.len() && #[trigger] T4::spec_encodes(m.4, bytes.subrange(k4, k5)) && (exists|k6: int| k5 <= k6 <= bytes.len() && #[trigger] T5::spec_encodes(m.5, bytes.subrange(k5, k6)) && (exists|k7: int| k6 <= k7 <= bytes.len() && #[trigger] T6::spec_encodes(m.6, bytes.subrange(k6, k7)) && (exists|k8: int| k7 <= k8 <= bytes.len() && #[trigger] T7::spec_encodes(m.7, bytes.subrange(k7, k8)) && (exists|k9: int| k8 <= k9 <= bytes.len() && #[trigger] T8::spec_encodes(m.8, bytes.subrange(k8, k9)) && (exists|k10: int| k9 <= k10 <= bytes.len() && #[trigger] T9::spec_encodes(m.9, bytes.subrange(k9, k10)) && (T10::spec_encodes(m.10, bytes.subrange(k10, bytes.len() as int)))))))))));
    let k3 = choose|k3: int| k2 <= k3 <= bytes.len() && #[trigger] T2::spec_encodes(m.2, bytes.subrange(k2, k3)) && (exists|k4: int| k3 <= k4 <= bytes.len() && #[trigger] T3::spec_encodes(m.3, bytes.subrange(k3, k4)) && (exists|k5: int| k4 <= k5 <= bytes.len() && #[trigger] T4::spec_encodes(m.4, bytes.subrange(k4, k5)) && (exists|k6: int| k5 <= k6 <= bytes.len() && #[trigger] T5::spec_encodes(m.5, bytes.subrange(k5, k6)) && (exists|k7: int| k6 <= k7 <= bytes.len() && #[trigger] T6::spec_encodes(m.6, bytes.subrange(k6, k7)) && (exists|k8: int| k7 <= k8 <= bytes.len() && #[trigger] T7::spec_encodes(m.7, bytes.subrange(k7, k8)) && (exists|k9: int| k8 <= k9 <= bytes.len() && #[trigger] T8::spec_encodes(m.8, bytes.subrange(k8, k9)) && (exists|k10: int| k9 <= k10 <= bytes.len() && #[trigger] T9::spec_encodes(m.9, bytes.subrange(k9, k10)) && (T10::spec_encodes(m.10, bytes.subrange(k10, bytes.len() as int))))))))));
    let k4 = choose|k4: int| k3 <= k4 <= bytes.len() && #[trigger] T3::spec_encodes(m.3, bytes.subrange(k3, k4)) && (exists|k5: int| k4 <= k5 <= bytes.len() && #[trigger] T4::spec_encodes(m.4, bytes.subrange(k4, k5)) && (exists|k6: int| k5 <= k6 <= bytes.len() && #[trigger] T5::spec_encodes(m.5, bytes.subrange(k5, k6)) && (exists|k7: int| k6 <= k7 <= bytes.len() && #[trigger] T6::spec_encodes(m.6, bytes.subrange(k6, k7)) && (exists|k8: int| k7 <= k8 <= bytes.len() && #[trigger] T7::spec_encodes(m.7, bytes.subrange(k7, k8)) && (exists|k9: int| k8 <= k9 <= bytes.len() && #[trigger] T8::spec_encodes(m.8, bytes.subrange(k8, k9)) && (exists|k10: int| k9 <= k10 <= bytes.len() && #[trigger] T9::spec_encodes(m.9, bytes.subrange(k9, k10)) && (T10::spec_encodes(m.10, bytes.subrange(k10, bytes.len() as int)))))))));
    let k5 = choose|k5: int| k4 <= k5 <= bytes.len() && #[trigger] T4::spec_encodes(m.4, bytes.subrange(k4, k5)) && (exists|k6: int| k5 <= k6 <= bytes.len() && #[trigger] T5::spec_encodes(m.5, bytes.subrange(k5, k6)) && (exists|k7: int| k6 <= k7 <= bytes.len() && #[trigger] T6::spec_encodes(m.6, bytes.subrange(k6, k7)) && (exists|k8: int| k7 <= k8 <= bytes.len() && #[trigger] T7::spec_encodes(m.7, bytes.subrange(k7, k8)) && (exists|k9: int| k8 <= k9 <= bytes.len() && #[trigger] T8::spec_encodes(m.8, bytes.subrange(k8, k9)) && (exists|k10: int| k9 <= k10 <= bytes.len() && #[trigger] T9::spec_encodes(m.9, bytes.subrange(k9, k10)) && (T10::spec_encodes(m.10, bytes.subrange(k10, bytes.len() as int))))))));
    let k6 = choose|k6: int| k5 <= k6 <= bytes.len() && #[trigger] T5::spec_encodes(m.5, bytes.subrange(k5, k6)) && (exists|k7: int| k6 <= k7 <= bytes.len() && #[trigger] T6::spec_encodes(m.6, bytes.subrange(k6, k7)) && (exists|k8: int| k7 <= k8 <= bytes.len() && #[trigger] T7::spec_encodes(m.7, bytes.subrange(k7, k8)) && (exists|k9: int| k8 <= k9 <= bytes.len() && #[trigger] T8::spec_encodes(m.8, bytes.subrange(k8, k9)) && (exists|k10: int| k9 <= k10 <= bytes.len() && #[trigger] T9::spec_encodes(m.9, bytes.subrange(k9, k10)) && (T10::spec_encodes(m.10, bytes.subrange(k10, bytes.len() as int)))))));
    let k7 = choose|k7: int| k6 <= k7 <= bytes.len() && #[trigger] T6::spec_encodes(m.6, bytes.subrange(k6, k7)) && (exists|k8: int| k7 <= k8 <= bytes.len() && #[trigger] T7::spec_encodes(m.7, bytes.subrange(k7, k8)) && (exists|k9: int| k8 <= k9 <= bytes.len() && #[trigger] T8::spec_encodes(m.8, bytes.subrange(k8, k9)) && (exists|k10: int| k9 <= k10 <= bytes.len() && #[trigger] T9::spec_encodes(m.9, bytes.subrange(k9, k10)) && (T10::spec_encodes(m.10, bytes.subrange(k10, bytes.len() as int))))));
    let k8 = choose|k8: int| k7 <= k8 <= bytes.len() && #[trigger] T7::spec_encodes(m.7, bytes.subrange(k7, k8)) && (exists|k9: int| k8 <= k9 <= bytes.len() && #[trigger] T8::spec_encodes(m.8, bytes.subrange(k8, k9)) && (exists|k10: int| k9 <= k10 <= bytes.len() && #[trigger] T9::spec_encodes(m.9, bytes.subrange(k9, k10)) && (T10::spec_encodes(m.10, bytes.subrange(k10, bytes.len() as int)))));
    let k9 = choose|k9: int| k8 <= k9 <= bytes.len() && #[trigger] T8::spec_encodes(m.8, bytes.subrange(k8, k9)) && (exists|k10: int| k9 <= k10 <= bytes.len() && #[trigger] T9::spec_encodes(m.9, bytes.subrange(k9, k10)) && (T10::spec_encodes(m.10, bytes.subrange(k10, bytes.len() as int))));
    let k10 = choose|k10: int| k9 <= k10 <= bytes.len() && #[trigger] T9::spec_encodes(m.9, bytes.subrange(k9, k10)) && (T10::spec_encodes(m.10, bytes.subrange(k10, bytes.len() as int)));
    seq![0int, k1, k2, k3, k4, k5, k6, k7, k8, k9, k10, bytes.len() as int]
}

/// A tuple of 12 fields is encoded by its fields' encodings put one after
/// another in field order.
#[verifier::spinoff_prover]
#[verifier::rlimit(60)]
pub proof fn lemma_tuple12_encodes_fields_in_order<T0: WireFormat, T1: WireFormat, T2: WireFormat, T3: WireFormat, T4: WireFormat, T5: WireFormat, T6: WireFormat, T7: WireFormat, T8: WireFormat, T9: WireFormat, T10: WireFormat, T11: WireFormat>(m: (T0::Model, T1::Model, T2::Model, T3::Model, T4::Model, T5::Model, T6::Model, T7::Model, T8::Model, T9::Model, T10::Model, T11::Model), b0: Seq<u8>, b1: Seq<u8>, b2: Seq<u8>, b3: Seq<u8>, b4: Seq<u8>, b5: Seq<u8>, b6: Seq<u8>, b7: Seq<u8>, b8: Seq<u8>, b9: Seq<u8>, b10: Seq<u8>, b11: Seq<u8>)
    requires
        T0::spec_encodes(m.0, b0),
        T1::spec_encodes(m.1, b1),
        T2::spec_encodes(m.2, b2),
        T3::spec_encodes(m.3, b3),
        T4::spec_encodes(m.4, b4),
        T5::spec_encodes(m.5, b5),
        T6::spec_encodes(m.6, b6),
        T7::spec_encodes(m.7, b7),
        T8::spec_encodes(m.8, b8),
        T9::spec_encodes(m.9, b9),
        T10::spec_encodes(m.10, b10),
        T11::spec_encodes(m.11, b11),
    ensures
        <(T0, T1, T2, T3, T4, T5, T6, T7, T8, T9, T10, T11) as WireFormat>::spec_encodes(m, b0 + b1 + b2 + b3 + b4 + b5 + b6 + b7 + b8 + b9 + b10 + b11),
{
    let bytes = b0 + b1 + b2 + b3 + b4 + b5 + b6 + b7 + b8 + b9 + b10 + b11;
    assert(bytes.subrange(0, (b0.len()) as int) =~= b0);
    assert(bytes.subrange((b0.len()) as int, (b0.len() + b1.len()) as int) =~= b1);
    assert(bytes.subrange((b0.len() + b1.len()) as int, (b0.len() + b1.len() + b2.len()) as int) =~= b2);
    assert(bytes.subrange((b0.len() + b1.len() + b2.len()) as int, (b0.len() + b1.len() + b2.len() + b3.len()) as int) =~= b3);
    assert(bytes.subrange((b0.len() + b1.len() + b2.len() + b3.len()) as int, (b0.len() + b1.len() + b2.len() + b3.len() + b4.len()) as int) =~= b4);
    assert(bytes.subrange((b0.len() + b1.len() + b2.len() + b3.len() + b4.len()) as int, (b0.len() + b1.len() + b2.len() + b3.len() + b4.len() + b5.len()) as int) =~= b5);
    assert(bytes.subrange((b0.len() + b1.len() + b2.len() + b3.len() + b4.len() + b5.len()) as int, (b0.len() + b1.len() + b2.len() + b3.len() + b4.len() + b5.len() + b6.len()) as int) =~= b6);
    assert(bytes.subrange((b0.len() + b1.len() + b2.len() + b3.len() + b4.len() + b5.len() + b6.len()) as int, (b0.len() + b1.len() + b2.len() + b3.len() + b4.len() + b5.len() + b6.len() + b7.len()) as int) =~= b7);
    assert(bytes.subrange((b0.len() + b1.len() + b2.len() + b3.len() + b4.len() + b5.len() + b6.len() + b7.len()) as int, (b0.len() + b1.len() + b2.len() + b3.len() + b4.len() + b5.len() + b6.len() + b7.len() + b8.len()) as int) =~= b8);
    assert(bytes.subrange((b0.len() + b1.len() + b2.len() + b3.len() + b4.len() + b5.len() + b6.len() + b7.len() + b8.len()) as int, (b0.len() + b1.len() + b2.len() + b3.len() + b4.len() + b5.len() + b6.len() + b7.len() + b8.len() + b9.len()) as int) =~= b9);
    assert(bytes.subrange((b0.len() + b1.len() + b2.len() + b3.len() + b4.len() + b5.len() + b6.len() + b7.len() + b8.len() + b9.len()) as int, (b0.len() + b1.len() + b2.len() + b3.len() + b4.len() + b5.len() + b6.len() + b7.len() + b8.len() + b9.len() + b10.len()) as int) =~= b10);
    assert(bytes.subrange((b0.len() + b1.len() + b2.len() + b3.len() + b4.len() + b5.len() + b6.len() + b7.len() + b8.len() + b9.len() + b10.len()) as int, bytes.len() as int) =~= b11);
    let k1: int = (b0.len()) as int;
    let k2: int = (b0.len() + b1.len()) as int;
    let k3: int = (b0.len() + b1.len() + b2.len()) as int;
    let k4: int = (b0.len() + b1.len() + b2.len() + b3.len()) as int;
    let k5: int = (b0.len() + b1.len() + b2.len() + b3.len() + b4.len()) as int;
    let k6: int = (b0.len() + b1.len() + b2.len() + b3.len() + b4.len() + b5.len()) as int;
    let k7: int = (b0.len() + b1.len() + b2.len() + b3.len() + b4.len() + b5.len() + b6.len()) as int;
    let k8: int = (b0.len() + b1.len() + b2.len() + b3.len() + b4.len() + b5.len() + b6.len() + b7.len()) as int;
    let k9: int = (b0.len() + b1.len() + b2.len() + b3.len() + b4.len() + b5.len() + b6.len() + b7.len() + b8.len()) as int;
    let k10: int = (b0.len() + b1.len() + b2.len() + b3.len() + b4.len() + b5.len() + b6.len() + b7.len() + b8.len() + b9.len()) as int;
    let k11: int = (b0.len() + b1.len() + b2.len() + b3.len() + b4.len() + b5.len() + b6.len() + b7.len() + b8.len() + b9.len() + b10.len()) as int;
    assert(exists|k11: int| k10 <= k11 <= bytes.len() && #[trigger] T10::spec_encodes(m.10, bytes.subrange(k10, k11)) && (T11::spec_encodes(m.11, bytes.subrange(k11, bytes.len() as int))));
    assert(exists|k10: int| k9 <= k10 <= bytes.len() && #[trigger] T9::spec_encodes(m.9, bytes.subrange(k9, k10)) && (exists|k11: int| k10 <= k11 <= bytes.len() && #[trigger] T10::spec_encodes(m.10, bytes.subrange(k10, k11)) && (T11::spec_encodes(m.11, bytes.subrange(k11, bytes.len() as int)))));
    assert(exists|k9: int| k8 <= k9 <= bytes.len() && #[trigger] T8::spec_encodes(m.8, bytes.subrange(k8, k9)) && (exists|k10: int| k9 <= k10 <= bytes.len() && #[trigger] T9::spec_encodes(m.9, bytes.subrange(k9, k10)) && (exists|k11: int| k10 <= k11 <= bytes.len() && #[trigger] T10::spec_encodes(m.10, bytes.subrange(k10, k11)) && (T11::spec_encodes(m.11, bytes.subrange(k11, bytes.len() as int))))));
    assert(exists|k8: int| k7 <= k8 <= bytes.len() && #[trigger] T7::spec_encodes(m.7, bytes.subrange(k7, k8)) && (exists|k9: int| k8 <= k9 <= bytes.len() && #[trigger] T8::spec_encodes(m.8, bytes.subrange(k8, k9)) && (exists|k10: int| k9 <= k10 <= bytes.len() && #[trigger] T9::spec_encodes(m.9, bytes.subrange(k9, k10)) && (exists|k11: int| k10 <= k11 <= bytes.len() && #[trigger] T10::spec_encodes(m.10, bytes.subrange(k10, k11)) && (T11::spec_encodes(m.11, bytes.subrange(k11, bytes.len() as int)))))));
    assert(exists|k7: int| k6 <= k7 <= bytes.len() && #[trigger] T6::spec_encodes(m.6, bytes.subrange(k6, k7)) && (exists|k8: int| k7 <= k8 <= bytes.len() && #[trigger] T7::spec_encodes(m.7, bytes.subrange(k7, k8)) && (exists|k9: int| k8 <= k9 <= bytes.len() && #[trigger] T8::spec_encodes(m.8, bytes.subrange(k8, k9)) && (exists|k10: int| k9 <= k10 <= bytes.len() && #[trigger] T9::spec_encodes(m.9, bytes.subrange(k9, k10)) && (exists|k11: int| k10 <= k11 <= bytes.len() && #[trigger] T10::spec_encodes(m.10, bytes.subrange(k10, k11)) && (T11::spec_encodes(m.11, bytes.subrange(k11, bytes.len() as int))))))));
    assert(exists|k6: int| k5 <= k6 <= bytes.len() && #[trigger] T5::spec_encodes(m.5, bytes.subrange(k5, k6)) && (exists|k7: int| k6 <= k7 <= bytes.len() && #[trigger] T6::spec_encodes(m.6, bytes.subrange(k6, k7)) && (exists|k8: int| k7 <= k8 <= bytes.len() && #[trigger] T7::spec_encodes(m.7, bytes.subrange(k7, k8)) && (exists|k9: int| k8 <= k9 <= bytes.len() && #[trigger] T8::spec_encodes(m.8, bytes.subrange(k8, k9)) && (exists|k10: int| k9 <= k10 <= bytes.len() && #[trigger] T9::spec_encodes(m.9, bytes.subrange(k9, k10)) && (exists|k11: int| k10 <= k11 <= bytes.len() && #[trigger] T10::spec_encodes(m.10, bytes.subrange(k10, k11)) && (T11::spec_encodes(m.11, bytes.subrange(k11, bytes.len() as int)))))))));
    assert(exists|k5: int| k4 <= k5 <= bytes.len() && #[trigger] T4::spec_encodes(m.4, bytes.subrange(k4, k5)) && (exists|k6: int| k5 <= k6 <= bytes.len() && #[trigger] T5::spec_encodes(m.5, bytes.subrange(k5, k6)) && (exists|k7: int| k6 <= k7 <= bytes.len() && #[trigger] T6::spec_encodes(m.6, bytes.subrange(k6, k7)) && (exists|k8: int| k7 <= k8 <= bytes.len() && #[trigger] T7::spec_encodes(m.7, bytes.subrange(k7, k8)) && (exists|k9: int| k8 <= k9 <= bytes.len() && #[trigger] T8::spec_encodes(m.8, bytes.subrange(k8, k9)) && (exists|k10: int| k9 <= k10 <= bytes.len() && #[trigger] T9::spec_encodes(m.9, bytes.subrange(k9, k10)) && (exists|k11: int| k10 <= k11 <= bytes.len() && #[trigger] T10::spec_encodes(m.10, bytes.subrange(k10, k11)) && (T11::spec_encodes(m.11, bytes.subrange(k11, bytes.len() as int))))))))));
    assert(exists|k4: int| k3 <= k4 <= bytes.len() && #[trigger] T3::spec_encodes(m.3, bytes.subrange(k3, k4)) && (exists|k5: int| k4 <= k5 <= bytes.len() && #[trigger] T4::spec_encodes(m.4, bytes.subrange(k4, k5)) && (exists|k6: int| k5 <= k6 <= bytes.len() && #[trigger] T5::spec_encodes(m.5, bytes.subrange(k5, k6)) && (exists|k7: int| k6 <= k7 <= bytes.len() && #[trigger] T6::spec_encodes(m.6, bytes.subrange(k6, k7)) && (exists|k8: int| k7 <= k8 <= bytes.len() && #[trigger] T7::spec_encodes(m.7, bytes.subrange(k7, k8)) && (exists|k9: int| k8 <= k9 <= bytes.len() && #[trigger] T8::spec_encodes(m.8, bytes.subrange(k8, k9)) && (exists|k10: int| k9 <= k10 <= bytes.len() && #[trigger] T9::spec_encodes(m.9, bytes.subrange(k9, k10)) && (exists|k11: int| k10 <= k11 <= bytes.len() && #[trigger] T10::spec_encodes(m.10, bytes.subrange(k10, k11)) && (T11::spec_encodes(m.11, bytes.subrange(k11, bytes.len() as int)))))))))));
    assert(exists|k3: int| k2 <= k3 <= bytes.len() && #[trigger] T2::spec_encodes(m.2, bytes.subrange(k2, k3)) && (exists|k4: int| k3 <= k4 <= bytes.len() && #[trigger] T3::spec_encodes(m.3, bytes.subrange(k3, k4)) && (exists|k5: int| k4 <= k5 <= bytes.len() && #[trigger] T4::spec_encodes(m.4, bytes.subrange(k4, k5)) && (exists|k6: int| k5 <= k6 <= bytes.len() && #[trigger] T5::spec_encodes(m.5, bytes.subrange(k5, k6)) && (exists|k7: int| k6 <= k7 <= bytes.len() && #[trigger] T6::spec_encodes(m.6, bytes.subrange(k6, k7)) && (exists|k8: int| k7 <= k8 <= bytes.len() && #[trigger] T7::spec_encodes(m.7, bytes.subrange(k7, k8)) && (exists|k9: int| k8 <= k9 <= bytes.len() && #[trigger] T8::spec_encodes(m.8, bytes.subrange(k8, k9)) && (exists|k10: int| k9 <= k10 <= bytes.len() && #[trigger] T9::spec_encodes(m.9, bytes.subrange(k9, k10)) && (exists|k11: int| k10 <= k11 <= bytes.len() && #[trigger] T10::spec_encodes(m.10, bytes.subrange(k10, k11)) && (T11::spec_encodes(m.11, bytes.subrange(k11, bytes.len() as int))))))))))));
    assert(exists|k2: int| k1 <= k2 <= bytes.len() && #[trigger] T1::spec_encodes(m.1, bytes.subrange(k1, k2)) && (exists|k3: int| k2 <= k3 <= bytes.len() && #[trigger] T2::spec_encodes(m.2, bytes.subrange(k2, k3)) && (exists|k4: int| k3 <= k4 <= bytes.len() && #[trigger] T3::spec_encodes(m.3, bytes.subrange(k3, k4)) && (exists|k5: int| k4 <= k5 <= bytes.len() && #[trigger] T4::spec_encodes(m.4, bytes.subrange(k4, k5)) && (exists|k6: int| k5 <= k6 <= bytes.len() && #[trigger] T5::spec_encodes(m.5, bytes.subrange(k5, k6)) && (exists|k7: int| k6 <= k7 <= bytes.len() && #[trigger] T6::spec_encodes(m.6, bytes.subrange(k6, k7)) && (exists|k8: int| k7 <= k8 <= bytes.len() && #[trigger] T7::spec_encodes(m.7, bytes.subrange(k7, k8)) && (exists|k9: int| k8 <= k9 <= bytes.len() && #[trigger] T8::spec_encodes(m.8, bytes.subrange(k8, k9)) && (exists|k10: int| k9 <= k10 <= bytes.len() && #[trigger] T9::spec_encodes(m.9, bytes.subrange(k9, k10)) && (exists|k11: int| k10 <= k11 <= bytes.len() && #[trigger] T10::spec_encodes(m.10, bytes.subrange(k10, k11)) && (T11::spec_encodes(m.11, bytes.subrange(k11, bytes.len() as int)))))))))))));
    assert(exists|k1: int| 0 <= k1 <= bytes.len() && #[trigger] T0::spec_encodes(m.0, bytes.subrange(0, k1)) && (exists|k2: int| k1 <= k2 <= bytes.len() && #[trigger] T1::spec_encodes(m.1, bytes.subrange(k1, k2)) && (exists|k3: int| k2 <= k3 <= bytes.len() && #[trigger] T2::spec_encodes(m.2, bytes.subrange(k2, k3)) && (exists|k4: int| k3 <= k4 <= bytes.len() && #[trigger] T3::spec_encodes(m.3, bytes.subrange(k3, k4)) && (exists|k5: int| k4 <= k5 <= bytes.len() && #[trigger] T4::spec_encodes(m.4, bytes.subrange(k4, k5)) && (exists|k6: int| k5 <= k6 <= bytes.len() && #[trigger] T5::spec_encodes(m.5, bytes.subrange(k5, k6)) && (exists|k7: int| k6 <= k7 <= bytes.len() && #[trigger] T6::spec_encodes(m.6, bytes.subrange(k6, k7)) && (exists|k8: int| k7 <= k8 <= bytes.len() && #[trigger] T7::spec_encodes(m.7, bytes.subrange(k7, k8)) && (exists|k9: int| k8 <= k9 <= bytes.len() && #[trigger] T8::spec_encodes(m.8, bytes.subrange(k8, k9)) && (exists|k10: int| k9 <= k10 <= bytes.len() && #[trigger] T9::spec_encodes(m.9, bytes.subrange(k9, k10)) && (exists|k11: int| k10 <= k11 <= bytes.len() && #[trigger] T10::spec_encodes(m.10, bytes.subrange(k10, k11)) && (T11::spec_encodes(m.11, bytes.subrange(k11, bytes.len() as int))))))))))))));
}

/// An encoding of a tuple of 12 fields cuts into its fields' encodings, in
/// field order, at the positions `cuts`.
#[verifier::spinoff_prover]
#[verifier::rlimit(60)]
pub proof fn lemma_tuple12_cuts_into_fields<T0: WireFormat, T1: WireFormat, T2: WireFormat, T3: WireFormat, T4: WireFormat, T5: WireFormat, T6: WireFormat, T7: WireFormat, T8: WireFormat, T9: WireFormat, T10: WireFormat, T11: WireFormat>(m: (T0::Model, T1::Model, T2::Model, T3::Model, T4::Model, T5::Model, T6::Model, T7::Model, T8::Model, T9::Model, T10::Model, T11::Model), bytes: Seq<u8>) -> (cuts: Seq<int>)
    requires
        <(T0, T1, T2, T3, T4, T5, T6, T7, T8, T9, T10, T11) as WireFormat>::spec_encodes(m, bytes),
    ensures
        cuts.len() == 13,
        cuts[0] == 0,
        cuts[12] == bytes.len(),
        cuts[0] <= cuts[1],
        cuts[1] <= cuts[2],
        cuts[2] <= cuts[3],
        cuts[3] <= cuts[4],
        cuts[4] <= cuts[5],
        cuts[5] <= cuts[6],
        cuts[6] <= cuts[7],
        cuts[7] <= cuts[8],
        cuts[8] <= cuts[9],
        cuts[9] <= cuts[10],
        cuts[10] <= cuts[11],
        cuts[11] <= cuts[12],
        T0::spec_encodes(m.0, bytes.subrange(cuts[0], cuts[1])),
        T1::spec_encodes(m.1, bytes.subrange(cuts[1], cuts[2])),
        T2::spec_encodes(m.2, bytes.subrange(cuts[2], cuts[3])),
        T3::spec_encodes(m.3, bytes.subrange(cuts[3], cuts[4])),
        T4::spec_encodes(m.4, bytes.subrange(cuts[4], cuts[5])),
        T5::spec_encodes(m.5, bytes.subrange(cuts[5], cuts[6])),
        T6::spec_encodes(m.6, bytes.subrange(cuts[6], cuts[7])),
        T7::spec_encodes(m.7, bytes.subrange(cuts[7], cuts[8])),
        T8::spec_encodes(m.8, bytes.subrange(cuts[8], cuts[9])),
        T9::spec_encodes(m.9, bytes.subrange(cuts[9], cuts[10])),
        T10::spec_encodes(m.10, bytes.subrange(cuts[10], cuts[11])),
        T11::spec_encodes(m.11, bytes.subrange(cuts[11], cuts[12])),
{
    let k1 = choose|k1: int| 0 <= k1 <= bytes.len() && #[trigger] T0::spec_encodes(m.0, bytes.subrange(0, k1)) && (exists|k2: int| k1 <= k2 <= bytes.len() && #[trigger] T1::spec_encodes(m.1, bytes.subrange(k1, k2)) && (exists|k3: int| k2 <= k3 <= bytes.len() && #[trigger] T2::spec_encodes(m.2, bytes.subrange(k2, k3)) && (exists|k4: int| k3 <= k4 <= bytes.len() && #[trigger] T3::spec_encodes(m.3, bytes.subrange(k3, k4)) && (exists|k5: int| k4 <= k5 <= bytes.len() && #[trigger] T4::spec_encodes(m.4, bytes.subrange(k4, k5)) && (exists|k6: int| k5 <= k6 <= bytes.len() && #[trigger] T5::spec_encodes(m.5, bytes.subrange(k5, k6)) && (exists|k7: int| k6 <= k7 <= bytes.len() && #[trigger] T6::spec_encodes(m.6, bytes.subrange(k6, k7)) && (exists|k8: int| k7 <= k8 <= bytes.len() && #[trigger] T7::spec_encodes(m.7, bytes.subrange(k7, k8)) && (exists|k9: int| k8 <= k9 <= bytes.len() && #[trigger] T8::spec_encodes(m.8, bytes.subrange(k8, k9)) && (exists|k10: int| k9 <= k10 <= bytes.len() && #[trigger] T9::spec_encodes(m.9, bytes.subrange(k9, k10)) && (exists|k11: int| k10 <= k11 <= bytes.len() && #[trigger] T10::spec_encodes(m.10, bytes.subrange(k10, k11)) && (T11::spec_encodes(m.11, bytes.subrange(k11, bytes.len() as int)))))))))))));
    let k2 = choose|k2: int| k1 <= k2 <= bytes.len() && #[trigger] T1::spec_encodes(m.1, bytes.subrange(k1, k2)) && (exists|k3: int| k2 <= k3 <= bytes.len() && #[trigger] T2::spec_encodes(m.2, bytes.subrange(k2, k3)) && (exists|k4: int| k3 <= k4 <= bytes.len() && #[trigger] T3::spec_encodes(m.3, bytes.subrange(k3, k4)) && (exists|k5: int| k4 <= k5 <= bytes.len() && #[trigger] T4::spec_encodes(m.4, bytes.subrange(k4, k5)) && (exists|k6: int| k5 <= k6 <= bytes.len() && #[trigger] T5::spec_encodes(m.5, bytes.subrange(k5, k6)) && (exists|k7: int| k6 <= k7 <= bytes.len() && #[trigger] T6::spec_encodes(m.6, bytes.subrange(k6, k7)) && (exists|k8: int| k7 <= k8 <= bytes.len() && #[trigger] T7::spec_encodes(m.7, bytes.subrange(k7, k8)) && (exists|k9: int| k8 <= k9 <= bytes.len() && #[trigger] T8::spec_encodes(m.8, bytes.subrange(k8, k9)) && (exists|k10: int| k9 <= k10 <= bytes.len() && #[trigger] T9::spec_encodes(m.9, bytes.subrange(k9, k10)) && (exists|k11: int| k10 <= k11 <= bytes.len() && #[trigger] T10::spec_encodes(m.10, bytes.subrange(k10, k11)) && (T11::spec_encodes(m.11, bytes.subrange(k11, bytes.len() as int))))))))))));
    let k3 = choose|k3: int| k2 <= k3 <= bytes.len() && #[trigger] T2::spec_encodes(m.2, bytes.subrange(k2, k3)) && (exists|k4: int| k3 <= k4 <= bytes.len() && #[trigger] T3::spec_encodes(m.3, bytes.subrange(k3, k4)) && (exists|k5: int| k4 <= k5 <= bytes.len() && #[trigger] T4::spec_encodes(m.4, bytes.subrange(k4, k5)) && (exists|k6: int| k5 <= k6 <= bytes.len() && #[trigger] T5::spec_encodes(m.5, bytes.subrange(k5, k6)) && (exists|k7: int| k6 <= k7 <= bytes.len() && #[trigger] T6::spec_encodes(m.6, bytes.subrange(k6, k7)) && (exists|k8: int| k7 <= k8 <= bytes.len() && #[trigger] T7::spec_encodes(m.7, bytes.subrange(k7, k8)) && (exists|k9: int| k8 <= k9 <= bytes.len() && #[trigger] T8::spec_encodes(m.8, bytes.subrange(k8, k9)) && (exists|k10: int| k9 <= k10 <= bytes.len() && #[trigger] T9::spec_encodes(m.9, bytes.subrange(k9, k10)) && (exists|k11: int| k10 <= k11 <= bytes.len() && #[trigger] T10::spec_encodes(m.10, bytes.subrange(k10, k11)) && (T11::spec_encodes(m.11, bytes.subrange(k11, bytes.len() as int)))))))))));
    let k4 = choose|k4: int| k3 <= k4 <= bytes.len() && #[trigger] T3::spec_encodes(m.3, bytes.subrange(k3, k4)) && (exists|k5: int| k4 <= k5 <= bytes.len() && #[trigger] T4::spec_encodes(m.4, bytes.subrange(k4, k5)) && (exists|k6: int| k5 <= k6 <= bytes.len() && #[trigger] T5::spec_encodes(m.5, bytes.subrange(k5, k6)) && (exists|k7: int| k6 <= k7 <= bytes.len() && #[trigger] T6::spec_encodes(m.6, bytes.subrange(k6, k7)) && (exists|k8: int| k7 <= k8 <= bytes.len() && #[trigger] T7::spec_encodes(m.7, bytes.subrange(k7, k8)) && (exists|k9: int| k8 <= k9 <= bytes.len() && #[trigger] T8::spec_encodes(m.8, bytes.subrange(k8, k9)) && (exists|k10: int| k9 <= k10 <= bytes.len() && #[trigger] T9::spec_encodes(m.9, bytes.subrange(k9, k10)) && (exists|k11: int| k10 <= k11 <= bytes.len() && #[trigger] T10::spec_encodes(m.10, bytes.subrange(k10, k11)) && (T11::spec_encodes(m.11, bytes.subrange(k11, bytes.len() as int))))))))));
    let k5 = choose|k5: int| k4 <= k5 <= bytes.len() && #[trigger] T4::spec_encodes(m.4, bytes.subrange(k4, k5)) && (exists|k6: int| k5 <= k6 <= bytes.len() && #[trigger] T5::spec_encodes(m.5, bytes.subrange(k5, k6)) && (exists|k7: int| k6 <= k7 <= bytes.len() && #[trigger] T6::spec_encodes(m.6, bytes.subrange(k6, k7)) && (exists|k8: int| k7 <= k8 <= bytes.len() && #[trigger] T7::spec_encodes(m.7, bytes.subrange(k7, k8)) && (exists|k9: int| k8 <= k9 <= bytes.len() && #[trigger] T8::spec_encodes(m.8, bytes.subrange(k8, k9)) && (exists|k10: int| k9 <= k10 <= bytes.len() && #[trigger] T9::spec_encodes(m.9, bytes.subrange(k9, k10)) && (exists|k11: int| k10 <= k11 <= bytes.len() && #[trigger] T10::spec_encodes(m.10, bytes.subrange(k10, k11)) && (T11::spec_encodes(m.11, bytes.subrange(k11, bytes.len() as int)))))))));
    let k6 = choose|k6: int| k5 <= k6 <= bytes.len() && #[trigger] T5::spec_encodes(m.5, bytes.subrange(k5, k6)) && (exists|k7: int| k6 <= k7 <= bytes.len() && #[trigger] T6::spec_encodes(m.6, bytes.subrange(k6, k7)) && (exists|k8: int| k7 <= k8 <= bytes.len() && #[trigger] T7::spec_encodes(m.7, bytes.subrange(k7, k8)) && (exists|k9: int| k8 <= k9 <= bytes.len() && #[trigger] T8::spec_encodes(m.8, bytes.subrange(k8, k9)) && (exists|k10: int| k9 <= k10 <= bytes.len() && #[trigger] T9::spec_encodes(m.9, bytes.subrange(k9, k10)) && (exists|k11: int| k10 <= k11 <= bytes.len() && #[trigger] T10::spec_encodes(m.10, bytes.subrange(k10, k11)) && (T11::spec_encodes(m.11, bytes.subrange(k11, bytes.len() as int))))))));
    let k7 = choose|k7: int| k6 <= k7 <= bytes.len() && #[trigger] T6::spec_encodes(m.6, bytes.subrange(k6, k7)) && (exists|k8: int| k7 <= k8 <= bytes.len() && #[trigger] T7::spec_encodes(m.7, bytes.subrange(k7, k8)) && (exists|k9: int| k8 <= k9 <= bytes.len() && #[trigger] T8::spec_encodes(m.8, bytes.subrange(k8, k9)) && (exists|k10: int| k9 <= k10 <= bytes.len() && #[trigger] T9::spec_encodes(m.9, bytes.subrange(k9, k10)) && (exists|k11: int| k10 <= k11 <= bytes.len() && #[trigger] T10::spec_encodes(m.10, bytes.subrange(k10, k11)) && (T11::spec_encodes(m.11, bytes.subrange(k11, bytes.len() as int)))))));
    let k8 = choose|k8: int| k7 <= k8 <= bytes.len() && #[trigger] T7::spec_encodes(m.7, bytes.subrange(k7, k8)) && (exists|k9: int| k8 <= k9 <= bytes.len() && #[trigger] T8::spec_encodes(m.8, bytes.subrange(k8, k9)) && (exists|k10: int| k9 <= k10 <= bytes.len() && #[trigger] T9::spec_encodes(m.9, bytes.subrange(k9, k10)) && (exists|k11: int| k10 <= k11 <= bytes.len() && #[trigger] T10::spec_encodes(m.10, bytes.subrange(k10, k11)) && (T11::spec_encodes(m.11, bytes.subrange(k11, bytes.len() as int))))));
    let k9 = choose|k9: int| k8 <= k9 <= bytes.len() && #[trigger] T8::spec_encodes(m.8, bytes.subrange(k8, k9)) && (exists|k10: int| k9 <= k10 <= bytes.len() && #[trigger] T9::spec_encodes(m.9, bytes.subrange(k9, k10)) && (exists|k11: int| k10 <= k11 <= bytes.len() && #[trigger] T10::spec_encodes(m.10, bytes.subrange(k10, k11)) && (T11::spec_encodes(m.11, bytes.subrange(k11, bytes.len() as int)))));
    let k10 = choose|k10: int| k9 <= k10 <= bytes.len() && #[trigger] T9::spec_encodes(m.9, bytes.subrange(k9, k10)) && (exists|k11: int| k10 <= k11 <= bytes.len() && #[trigger] T10::spec_encodes(m.10, bytes.subrange(k10, k11)) && (T11::spec_encodes(m.11, bytes.subrange(k11, bytes.len() as int))));
    let k11 = choose|k11: int| k10 <= k11 <= bytes.len() && #[trigger] T10::spec_encodes(m.10, bytes.subrange(k10, k11)) && (T11::spec_encodes(m.11, bytes.subrange(k11, bytes.len() as int)));
    seq![0int, k1, k2, k3, k4, k5, k6, k7, k8, k9, k10, k11, bytes.len() as int]
}

/// A tuple of 13 fields is encoded by its fields' encodings put one after
/// another in field order.
#[verifier::spinoff_prover]
#[verifier::rlimit(60)]
pub proof fn lemma_tuple13_encodes_fields_in_order<T0: WireFormat, T1: WireFormat, T2: WireFormat, T3: WireFormat, T4: WireFormat, T5: WireFormat, T6: WireFormat, T7: WireFormat, T8: WireFormat, T9: WireFormat, T10: WireFormat, T11: WireFormat, T12: WireFormat>(m: (T0::Model, T1::Model, T2::Model, T3::Model, T4::Model, T5::Model, T6::Model, T7::Model, T8::Model, T9::Model, T10::Model, T11::Model, T12::Model), b0: Seq<u8>, b1: Seq<u8>, b2: Seq<u8>, b3: Seq<u8>, b4: Seq<u8>, b5: Seq<u8>, b6: Seq<u8>, b7: Seq<u8>, b8: Seq<u8>, b9: Seq<u8>, b10: Seq<u8>, b11: Seq<u8>, b12: Seq<u8>)
    requires
        T0::spec_encodes(m.0, b0),
        T1::spec_encodes(m.1, b1),
        T2::spec_encodes(m.2, b2),
        T3::spec_encodes(m.3, b3),
        T4::spec_encodes(m.4, b4),
        T5::spec_encodes(m.5, b5),
        T6::spec_encodes(m.6, b6),
        T7::spec_encodes(m.7, b7),
        T8::spec_encodes(m.8, b8),
        T9::spec_encodes(m.9, b9),
        T10::spec_encodes(m.10, b10),
        T11::spec_encodes(m.11, b11),
        T12::spec_encodes(m.12, b12),
    ensures
        <(T0, T1, T2, T3, T4, T5, T6, T7, T8, T9, T10, T11, T12) as WireFormat>::spec_encodes(m, b0 + b1 + b2 + b3 + b4 + b5 + b6 + b7 + b8 + b9 + b10 + b11 + b12),
{
    let bytes = b0 + b1 + b2 + b3 + b4 + b5 + b6 + b7 + b8 + b9 + b10 + b11 + b12;
    assert(bytes.subrange(0, (b0.len()) as int) =~= b0);
    assert(bytes.subrange((b0.len()) as int, (b0.len() + b1.len()) as int) =~= b1);
    assert(bytes.subrange((b0.len() + b1.len()) as int, (b0.len() + b1.len() + b2.len()) as int) =~= b2);
    assert(bytes.subrange((b0.len() + b1.len() + b2.len()) as int, (b0.len() + b1.len() + b2.len() + b3.len()) as int) =~= b3);
    assert(bytes.subrange((b0.len() + b1.len() + b2.len() + b3.len()) as int, (b0.len() + b1.len() + b2.len() + b3.len() + b4.len()) as int) =~= b4);
    assert(bytes.subrange((b0.len() + b1.len() + b2.len() + b3.len() + b4.len()) as int, (b0.len() + b1.len() + b2.len() + b3.len() + b4.len() + b5.len()) as int) =~= b5);
    assert(bytes.subrange((b0.len() + b1.len() + b2.len() + b3.len() + b4.len() + b5.len()) as int, (b0.len() + b1.len() + b2.len() + b3.len() + b4.len() + b5.len() + b6.len()) as int) =~= b6);
    assert(bytes.subrange((b0.len() + b1.len() + b2.len() + b3.len() + b4.len() + b5.len() + b6.len()) as int, (b0.len() + b1.len() + b2.len() + b3.len() + b4.len() + b5.len() + b6.len() + b7.len()) as int) =~= b7);
    assert(bytes.subrange((b0.len() + b1.len() + b2.len() + b3.len() + b4.len() + b5.len() + b6.len() + b7.len()) as int, (b0.len() + b1.len() + b2.len() + b3.len() + b4.len() + b5.len() + b6.len() + b7.len() + b8.len()) as int) =~= b8);
    assert(bytes.subrange((b0.len() + b1.len() + b2.len() + b3.len() + b4.len() + b5.len() + b6.len() + b7.len() + b8.len()) as int, (b0.len() + b1.len() + b2.len() + b3.len() + b4.len() + b5.len() + b6.len() + b7.len() + b8.len() + b9.len()) as int) =~= b9);
    assert(bytes.subrange((b0.len() + b1.len() + b2.len() + b3.len() + b4.len() + b5.len() + b6.len() + b7.len() + b8.len() + b9.len()) as int, (b0.len() + b1.len() + b2.len() + b3.len() + b4.len() + b5.len() + b6.len() + b7.len() + b8.len() + b9.len() + b10.len()) as int) =~= b10);
    assert(bytes.subrange((b0.len() + b1.len() + b2.len() + b3.len() + b4.len() + b5.len() + b6.len() + b7.len() + b8.len() + b9.len() + b10.len()) as int, (b0.len() + b1.len() + b2.len() + b3.len() + b4.len() + b5.len() + b6.len() + b7.len() + b8.len() + b9.len() + b10.len() + b11.len()) as int) =~= b11);
    assert(bytes.subrange((b0.len() + b1.len() + b2.len() + b3.len() + b4.len() + b5.len() + b6.len() + b7.len() + b8.len() + b9.len() + b10.len() + b11.len()) as int, bytes.len() as int) =~= b12);
    let k1: int = (b0.len()) as int;
    let k2: int = (b0.len() + b1.len()) as int;
    let k3: int = (b0.len() + b1.len() + b2.len()) as int;
    let k4: int = (b0.len() + b1.len() + b2.len() + b3.len()) as int;
    let k5: int = (b0.len() + b1.len() + b2.len() + b3.len() + b4.len()) as int;
    let k6: int = (b0.len() + b1.len() + b2.len() + b3.len() + b4.len() + b5.len()) as int;
    let k7: int = (b0.len() + b1.len() + b2.len() + b3.len() + b4.len() + b5.len() + b6.len()) as int;
    let k8: int = (b0.len() + b1.len() + b2.len() + b3.len() + b4.len() + b5.len() + b6.len() + b7.len()) as int;
    let k9: int = (b0.len() + b1.len() + b2.len() + b3.len() + b4.len() + b5.len() + b6.len() + b7.len() + b8.len()) as int;
    let k10: int = (b0.len() + b1.len() + b2.len() + b3.len() + b4.len() + b5.len() + b6.len() + b7.len() + b8.len() + b9.len()) as int;
    let k11: int = (b0.len() + b1.len() + b2.len() + b3.len() + b4.len() + b5.len() + b6.len() + b7.len() + b8.len() + b9.len() + b10.len()) as int;
    let k12: int = (b0.len() + b1.len() + b2.len() + b3.len() + b4.len() + b5.len() + b6.len() + b7.len() + b8.len() + b9.len() + b10.len() + b11.len()) as int;
    assert(exists|k12: int| k11 <= k12 <= bytes.len() && #[trigger] T11::spec_encodes(m.11, bytes.subrange(k11, k12)) && (T12::spec_encodes(m.12, bytes.subrange(k12, bytes.len() as int))));
    assert(exists|k11: int| k10 <= k11 <= bytes.len() && #[trigger] T10::spec_encodes(m.10, bytes.subrange(k10, k11)) && (exists|k12: int| k11 <= k12 <= bytes.len() && #[trigger] T11::spec_encodes(m.11, bytes.subrange(k11, k12)) && (T12::spec_encodes(m.12, bytes.subrange(k12, bytes.len() as int)))));
    assert(exists|k10: int| k9 <= k10 <= bytes.len() && #[trigger] T9::spec_encodes(m.9, bytes.subrange(k9, k10)) && (exists|k11: int| k10 <= k11 <= bytes.len() && #[trigger] T10::spec_encodes(m.10, bytes.subrange(k10, k11)) && (exists|k12: int| k11 <= k12 <= bytes.len() && #[trigger] T11::spec_encodes(m.11, bytes.subrange(k11, k12)) && (T12::spec_encodes(m.12, bytes.subrange(k12, bytes.len() as int))))));
    assert(exists|k9: int| k8 <= k9 <= bytes.len() && #[trigger] T8::spec_encodes(m.8, bytes.subrange(k8, k9)) && (exists|k10: int| k9 <= k10 <= bytes.len() && #[trigger] T9::spec_encodes(m.9, bytes.subrange(k9, k10)) && (exists|k11: int| k10 <= k11 <= bytes.len() && #[trigger] T10::spec_encodes(m.10, bytes.subrange(k10, k11)) && (exists|k12: int| k11 <= k12 <= bytes.len() && #[trigger] T11::spec_encodes(m.11, bytes.subrange(k11, k12)) && (T12::spec_encodes(m.12, bytes.subrange(k12, bytes.len() as int)))))));
    assert(exists|k8: int| k7 <= k8 <= bytes.len() && #[trigger] T7::spec_encodes(m.7, bytes.subrange(k7, k8)) && (exists|k9: int| k8 <= k9 <= bytes.len() && #[trigger] T8::spec_encodes(m.8, bytes.subrange(k8, k9)) && (exists|k10: int| k9 <= k10 <= bytes.len() && #[trigger] T9::spec_encodes(m.9, bytes.subrange(k9, k10)) && (exists|k11: int| k10 <= k11 <= bytes.len() && #[trigger] T10::spec_encodes(m.10, bytes.subrange(k10, k11)) && (exists|k12: int| k11 <= k12 <= bytes.len() && #[trigger] T11::spec_encodes(m.11, bytes.subrange(k11, k12)) && (T12::spec_encodes(m.12, bytes.subrange(k12, bytes.len() as int))))))));
    assert(exists|k7: int| k6 <= k7 <= bytes.len() && #[trigger] T6::spec_encodes(m.6, bytes.subrange(k6, k7)) && (exists|k8: int| k7 <= k8 <= bytes.len() && #[trigger] T7::spec_encodes(m.7, bytes.subrange(k7, k8)) && (exists|k9: int| k8 <= k9 <= bytes.len() && #[trigger] T8::spec_encodes(m.8, bytes.subrange(k8, k9)) && (exists|k10: int| k9 <= k10 <= bytes.len() && #[trigger] T9::spec_encodes(m.9, bytes.subrange(k9, k10)) && (exists|k11: int| k10 <= k11 <= bytes.len() && #[trigger] T10::spec_encodes(m.10, bytes.subrange(k10, k11)) && (exists|k12: int| k11 <= k12 <= bytes.len() && #[trigger] T11::spec_encodes(m.11, bytes.subrange(k11, k12)) && (T12::spec_encodes(m.12, bytes.subrange(k12, bytes.len() as int)))))))));
    assert(exists|k6: int| k5 <= k6 <= bytes.len() && #[trigger] T5::spec_encodes(m.5, bytes.subrange(k5, k6)) && (exists|k7: int| k6 <= k7 <= bytes.len() && #[trigger] T6::spec_encodes(m.6, bytes.subrange(k6, k7)) && (exists|k8: int| k7 <= k8 <= bytes.len() && #[trigger] T7::spec_encodes(m.7, bytes.subrange(k7, k8)) && (exists|k9: int| k8 <= k9 <= bytes.len() && #[trigger] T8::spec_encodes(m.8, bytes.subrange(k8, k9)) && (exists|k10: int| k9 <= k10 <= bytes.len() && #[trigger] T9::spec_encodes(m.9, bytes.subrange(k9, k10)) && (exists|k11: int| k10 <= k11 <= bytes.len() && #[trigger] T10::spec_encodes(m.10, bytes.subrange(k10, k11)) && (exists|k12: int| k11 <= k12 <= bytes.len() && #[trigger] T11::spec_encodes(m.11, bytes.subrange(k11, k12)) && (T12::spec_encodes(m.12, bytes.subrange(k12, bytes.len() as int))))))))));
    assert(exists|k5: int| k4 <= k5 <= bytes.len() && #[trigger] T4::spec_encodes(m.4, bytes.subrange(k4, k5)) && (exists|k6: int| k5 <= k6 <= bytes.len() && #[trigger] T5::spec_encodes(m.5, bytes.subrange(k5, k6)) && (exists|k7: int| k6 <= k7 <= bytes.len() && #[trigger] T6::spec_encodes(m.6, bytes.subrange(k6, k7)) && (exists|k8: int| k7 <= k8 <= bytes.len() && #[trigger] T7::spec_encodes(m.7, bytes.subrange(k7, k8)) && (exists|k9: int| k8 <= k9 <= bytes.len() && #[trigger] T8::spec_encodes(m.8, bytes.subrange(k8, k9)) && (exists|k10: int| k9 <= k10 <= bytes.len() && #[trigger] T9::spec_encodes(m.9, bytes.subrange(k9, k10)) && (exists|k11: int| k10 <= k11 <= bytes.len() && #[trigger] T10::spec_encodes(m.10, bytes.subrange(k10, k11)) && (exists|k12: int| k11 <= k12 <= bytes.len() && #[trigger] T11::spec_encodes(m.11, bytes.subrange(k11, k12)) && (T12::spec_encodes(m.12, bytes.subrange(k12, bytes.len() as int)))))))))));
    assert(exists|k4: int| k3 <= k4 <= bytes.len() && #[trigger] T3::spec_encodes(m.3, bytes.subrange(k3, k4)) && (exists|k5: int| k4 <= k5 <= bytes.len() && #[trigger] T4::spec_encodes(m.4, bytes.subrange(k4, k5)) && (exists|k6: int| k5 <= k6 <= bytes.len() && #[trigger] T5::spec_encodes(m.5, bytes.subrange(k5, k6)) && (exists|k7: int| k6 <= k7 <= bytes.len() && #[trigger] T6::spec_encodes(m.6, bytes.subrange(k6, k7)) && (exists|k8: int| k7 <= k8 <= bytes.len() && #[trigger] T7::spec_encodes(m.7, bytes.subrange(k7, k8)) && (exists|k9: int| k8 <= k9 <= bytes.len() && #[trigger] T8::spec_encodes(m.8, bytes.subrange(k8, k9)) && (exists|k10: int| k9 <= k10 <= bytes.len() && #[trigger] T9::spec_encodes(m.9, bytes.subrange(k9, k10)) && (exists|k11: int| k10 <= k11 <= bytes.len() && #[trigger] T10::spec_encodes(m.10, bytes.subrange(k10, k11)) && (exists|k12: int| k11 <= k12 <= bytes.len() && #[trigger] T11::spec_encodes(m.11, bytes.subrange(k11, k12)) && (T12::spec_encodes(m.12, bytes.subrange(k12, bytes.len() as int))))))))))));
    assert(exists|k3: int| k2 <= k3 <= bytes.len() && #[trigger] T2::spec_encodes(m.2, bytes.subrange(k2, k3)) && (exists|k4: int| k3 <= k4 <= bytes.len() && #[trigger] T3::spec_encodes(m.3, bytes.subrange(k3, k4)) && (exists|k5: int| k4 <= k5 <= bytes.len() && #[trigger] T4::spec_encodes(m.4, bytes.subrange(k4, k5)) && (exists|k6: int| k5 <= k6 <= bytes.len() && #[trigger] T5::spec_encodes(m.5, bytes.subrange(k5, k6)) && (exists|k7: int| k6 <= k7 <= bytes.len() && #[trigger] T6::spec_encodes(m.6, bytes.subrange(k6, k7)) && (exists|k8: int| k7 <= k8 <= bytes.len() && #[trigger] T7::spec_encodes(m.7, bytes.subrange(k7, k8)) && (exists|k9: int| k8 <= k9 <= bytes.len() && #[trigger] T8::spec_encodes(m.8, bytes.subrange(k8, k9)) && (exists|k10: int| k9 <= k10 <= bytes.len() && #[trigger] T9::spec_encodes(m.9, bytes.subrange(k9, k10)) && (exists|k11: int| k10 <= k11 <= bytes.len() && #[trigger] T10::spec_encodes(m.10, bytes.subrange(k10, k11)) && (exists|k12: int| k11 <= k12 <= bytes.len() && #[trigger] T11::spec_encodes(m.11, bytes.subrange(k11, k12)) && (T12::spec_encodes(m.12, bytes.subrange(k12, bytes.len() as int)))))))))))));
    assert(exists|k2: int| k1 <= k2 <= bytes.len() && #[trigger] T1::spec_encodes(m.1, bytes.subrange(k1, k2)) && (exists|k3: int| k2 <= k3 <= bytes.len() && #[trigger] T2::spec_encodes(m.2, bytes.subrange(k2, k3)) && (exists|k4: int| k3 <= k4 <= bytes.len() && #[trigger] T3::spec_encodes(m.3, bytes.subrange(k3, k4)) && (exists|k5: int| k4 <= k5 <= bytes.len() && #[trigger] T4::spec_encodes(m.4, bytes.subrange(k4, k5)) && (exists|k6: int| k5 <= k6 <= bytes.len() && #[trigger] T5::spec_encodes(m.5, bytes.subrange(k5, k6)) && (exists|k7: int| k6 <= k7 <= bytes.len() && #[trigger] T6::spec_encodes(m.6, bytes.subrange(k6, k7)) && (exists|k8: int| k7 <= k8 <= bytes.len() && #[trigger] T7::spec_encodes(m.7, bytes.subrange(k7, k8)) && (exists|k9: int| k8 <= k9 <= bytes.len() && #[trigger] T8::spec_encodes(m.8, bytes.subrange(k8, k9)) && (exists|k10: int| k9 <= k10 <= bytes.len() && #[trigger] T9::spec_encodes(m.9, bytes.subrange(k9, k10)) && (exists|k11: int| k10 <= k11 <= bytes.len() && #[trigger] T10::spec_encodes(m.10, bytes.subrange(k10, k11)) && (exists|k12: int| k11 <= k12 <= bytes.len() && #[trigger] T11::spec_encodes(m.11, bytes.subrange(k11, k12)) && (T12::spec_encodes(m.12, bytes.subrange(k12, bytes.len() as int))))))))))))));
    assert(exists|k1: int| 0 <= k1 <= bytes.len() && #[trigger] T0::spec_encodes(m.0, bytes.subrange(0, k1)) && (exists|k2: int| k1 <= k2 <= bytes.len() && #[trigger] T1::spec_encodes(m.1, bytes.subrange(k1, k2)) && (exists|k3: int| k2 <= k3 <= bytes.len() && #[trigger] T2::spec_encodes(m.2, bytes.subrange(k2, k3)) && (exists|k4: int| k3 <= k4 <= bytes.len() && #[trigger] T3::spec_encodes(m.3, bytes.subrange(k3, k4)) && (exists|k5: int| k4 <= k5 <= bytes.len() && #[trigger] T4::spec_encodes(m.4, bytes.subrange(k4, k5)) && (exists|k6: int| k5 <= k6 <= bytes.len() && #[trigger] T5::spec_encodes(m.5, bytes.subrange(k5, k6)) && (exists|k7: int| k6 <= k7 <= bytes.len() && #[trigger] T6::spec_encodes(m.6, bytes.subrange(k6, k7)) && (exists|k8: int| k7 <= k8 <= bytes.len() && #[trigger] T7::spec_encodes(m.7, bytes.subrange(k7, k8)) && (exists|k9: int| k8 <= k9 <= bytes.len() && #[trigger] T8::spec_encodes(m.8, bytes.subrange(k8, k9)) && (exists|k10: int| k9 <= k10 <= bytes.len() && #[trigger] T9::spec_encodes(m.9, bytes.subrange(k9, k10)) && (exists|k11: int| k10 <= k11 <= bytes.len() && #[trigger] T10::spec_encodes(m.10, bytes.subrange(k10, k11)) && (exists|k12: int| k11 <= k12 <= bytes.len() && #[trigger] T11::spec_encodes(m.11, bytes.subrange(k11, k12)) && (T12::spec_encodes(m.12, bytes.subrange(k12, bytes.len() as int)))))))))))))));
}

/// An encoding of a tuple of 13 fields cuts into its fields' encodings, in
/// field order, at the positions `cuts`.
#[verifier::spinoff_prover]
#[verifier::rlimit(60)]
pub proof fn lemma_tuple13_cuts_into_fields<T0: WireFormat, T1: WireFormat, T2: WireFormat, T3: WireFormat, T4: WireFormat, T5: WireFormat, T6: WireFormat, T7: WireFormat, T8: WireFormat, T9: WireFormat, T10: WireFormat, T11: WireFormat, T12: WireFormat>(m: (T0::Model, T1::Model, T2::Model, T3::Model, T4::Model, T5::Model, T6::Model, T7::Model, T8::Model, T9::Model, T10::Model, T11::Model, T12::Model), bytes: Seq<u8>) -> (cuts: Seq<int>)
    requires
        <(T0, T1, T2, T3, T4, T5, T6, T7, T8, T9, T10, T11, T12) as WireFormat>::spec_encodes(m, bytes),
    ensures
        cuts.len() == 14,
        cuts[0] == 0,
        cuts[13] == bytes.len(),
        cuts[0] <= cuts[1],
        cuts[1] <= cuts[2],
        cuts[2] <= cuts[3],
        cuts[3] <= cuts[4],
        cuts[4] <= cuts[5],
        cuts[5] <= cuts[6],
        cuts[6] <= cuts[7],
        cuts[7] <= cuts[8],
        cuts[8] <= cuts[9],
        cuts[9] <= cuts[10],
        cuts[10] <= cuts[11],
        cuts[11] <= cuts[12],
        cuts[12] <= cuts[13],
        T0::spec_encodes(m.0, bytes.subrange(cuts[0], cuts[1])),
        T1::spec_encodes(m.1, bytes.subrange(cuts[1], cuts[2])),
        T2::spec_encodes(m.2, bytes.subrange(cuts[2], cuts[3])),
        T3::spec_encodes(m.3, bytes.subrange(cuts[3], cuts[4])),
        T4::spec_encodes(m.4, bytes.subrange(cuts[4], cuts[5])),
        T5::spec_encodes(m.5, bytes.subrange(cuts[5], cuts[6])),
        T6::spec_encodes(m.6, bytes.subrange(cuts[6], cuts[7])),
        T7::spec_encodes(m.7, bytes.subrange(cuts[7], cuts[8])),
        T8::spec_encodes(m.8, bytes.subrange(cuts[8], cuts[9])),
        T9::spec_encodes(m.9, bytes.subrange(cuts[9], cuts[10])),
        T10::spec_encodes(m.10, bytes.subrange(cuts[10], cuts[11])),
        T11::spec_encodes(m.11, bytes.subrange(cuts[11], cuts[12])),
        T12::spec_encodes(m.12, bytes.subrange(cuts[12], cuts[13])),
{
    let k1 = choose|k1: int| 0 <= k1 <= bytes.len() && #[trigger] T0::spec_encodes(m.0, bytes.subrange(0, k1)) && (exists|k2: int| k1 <= k2 <= bytes.len() && #[trigger] T1::spec_encodes(m.1, bytes.subrange(k1, k2)) && (exists|k3: int| k2 <= k3 <= bytes.len() && #[trigger] T2::spec_encodes(m.2, bytes.subrange(k2, k3)) && (exists|k4: int| k3 <= k4 <= bytes.len() && #[trigger] T3::spec_encodes(m.3, bytes.subrange(k3, k4)) && (exists|k5: int| k4 <= k5 <= bytes.len() && #[trigger] T4::spec_encodes(m.4, bytes.subrange(k4, k5)) && (exists|k6: int| k5 <= k6 <= bytes.len() && #[trigger] T5::spec_encodes(m.5, bytes.subrange(k5, k6)) && (exists|k7: int| k6 <= k7 <= bytes.len() && #[trigger] T6::spec_encodes(m.6, bytes.subrange(k6, k7)) && (exists|k8: int| k7 <= k8 <= bytes.len() && #[trigger] T7::spec_encodes(m.7, bytes.subrange(k7, k8)) && (exists|k9: int| k8 <= k9 <= bytes.len() && #[trigger] T8::spec_encodes(m.8, bytes.subrange(k8, k9)) && (exists|k10: int| k9 <= k10 <= bytes.len() && #[trigger] T9::spec_encodes(m.9, bytes.subrange(k9, k10)) && (exists|k11: int| k10 <= k11 <= bytes.len() && #[trigger] T10::spec_encodes(m.10, bytes.subrange(k10, k11)) && (exists|k12: int| k11 <= k12 <= bytes.len() && #[trigger] T11::spec_encodes(m.11, bytes.subrange(k11, k12)) && (T12::spec_encodes(m.12, bytes.subrange(k12, bytes.len() as int))))))))))))));
    let k2 = choose|k2: int| k1 <= k2 <= bytes.len() && #[trigger] T1::spec_encodes(m.1, bytes.subrange(k1, k2)) && (exists|k3: int| k2 <= k3 <= bytes.len() && #[trigger] T2::spec_encodes(m.2, bytes.subrange(k2, k3)) && (exists|k4: int| k3 <= k4 <= bytes.len() && #[trigger] T3::spec_encodes(m.3, bytes.subrange(k3, k4)) && (exists|k5: int| k4 <= k5 <= bytes.len() && #[trigger] T4::spec_encodes(m.4, bytes.subrange(k4, k5)) && (exists|k6: int| k5 <= k6 <= bytes.len() && #[trigger] T5::spec_encodes(m.5, bytes.subrange(k5, k6)) && (exists|k7: int| k6 <= k7 <= bytes.len() && #[trigger] T6::spec_encodes(m.6, bytes.subrange(k6, k7)) && (exists|k8: int| k7 <= k8 <= bytes.len() && #[trigger] T7::spec_encodes(m.7, bytes.subrange(k7, k8)) && (exists|k9: int| k8 <= k9 <= bytes.len() && #[trigger] T8::spec_encodes(m.8, bytes.subrange(k8, k9)) && (exists|k10: int| k9 <= k10 <= bytes.len() && #[trigger] T9::spec_encodes(m.9, bytes.subrange(k9, k10)) && (exists|k11: int| k10 <= k11 <= bytes.len() && #[trigger] T10::spec_encodes(m.10, bytes.subrange(k10, k11)) && (exists|k12: int| k11 <= k12 <= bytes.len() && #[trigger] T11::spec_encodes(m.11, bytes.subrange(k11, k12)) && (T12::spec_encodes(m.12, bytes.subrange(k12, bytes.len() as int)))))))))))));
    let k3 = choose|k3: int| k2 <= k3 <= bytes.len() && #[trigger] T2::spec_encodes(m.2, bytes.subrange(k2, k3)) && (exists|k4: int| k3 <= k4 <= bytes.len() && #[trigger] T3::spec_encodes(m.3, bytes.subrange(k3, k4)) && (exists|k5: int| k4 <= k5 <= bytes.len() && #[trigger] T4::spec_encodes(m.4, bytes.subrange(k4, k5)) && (exists|k6: int| k5 <= k6 <= bytes.len() && #[trigger] T5::spec_encodes(m.5, bytes.subrange(k5, k6)) && (exists|k7: int| k6 <= k7 <= bytes.len() && #[trigger] T6::spec_encodes(m.6, bytes.subrange(k6, k7)) && (exists|k8: int| k7 <= k8 <= bytes.len() && #[trigger] T7::spec_encodes(m.7, bytes.subrange(k7, k8)) && (exists|k9: int| k8 <= k9 <= bytes.len() && #[trigger] T8::spec_encodes(m.8, bytes.subrange(k8, k9)) && (exists|k10: int| k9 <= k10 <= bytes.len() && #[trigger] T9::spec_encodes(m.9, bytes.subrange(k9, k10)) && (exists|k11: int| k10 <= k11 <= bytes.len() && #[trigger] T10::spec_encodes(m.10, bytes.subrange(k10, k11)) && (exists|k12: int| k11 <= k12 <= bytes.len() && #[trigger] T11::spec_encodes(m.11, bytes.subrange(k11, k12)) && (T12::spec_encodes(m.12, bytes.subrange(k12, bytes.len() as int))))))))))));
    let k4 = choose|k4: int| k3 <= k4 <= bytes.len() && #[trigger] T3::spec_encodes(m.3, bytes.subrange(k3, k4)) && (exists|k5: int| k4 <= k5 <= bytes.len() && #[trigger] T4::spec_encodes(m.4, bytes.subrange(k4, k5)) && (exists|k6: int| k5 <= k6 <= bytes.len() && #[trigger] T5::spec_encodes(m.5, bytes.subrange(k5, k6)) && (exists|k7: int| k6 <= k7 <= bytes.len() && #[trigger] T6::spec_encodes(m.6, bytes.subrange(k6, k7)) && (exists|k8: int| k7 <= k8 <= bytes.len() && #[trigger] T7::spec_encodes(m.7, bytes.subrange(k7, k8)) && (exists|k9: int| k8 <= k9 <= bytes.len() && #[trigger] T8::spec_encodes(m.8, bytes.subrange(k8, k9)) && (exists|k10: int| k9 <= k10 <= bytes.len() && #[trigger] T9::spec_encodes(m.9, bytes.subrange(k9, k10)) && (exists|k11: int| k10 <= k11 <= bytes.len() && #[trigger] T10::spec_encodes(m.10, bytes.subrange(k10, k11)) && (exists|k12: int| k11 <= k12 <= bytes.len() && #[trigger] T11::spec_encodes(m.11, bytes.subrange(k11, k12)) && (T12::spec_encodes(m.12, bytes.subrange(k12, bytes.len() as int)))))))))));
    let k5 = choose|k5: int| k4 <= k5 <= bytes.len() && #[trigger] T4::spec_encodes(m.4, bytes.subrange(k4, k5)) && (exists|k6: int| k5 <= k6 <= bytes.len() && #[trigger] T5::spec_encodes(m.5, bytes.subrange(k5, k6)) && (exists|k7: int| k6 <= k7 <= bytes.len() && #[trigger] T6::spec_encodes(m.6, bytes.subrange(k6, k7)) && (exists|k8: int| k7 <= k8 <= bytes.len() && #[trigger] T7::spec_encodes(m.7, bytes.subrange(k7, k8)) && (exists|k9: int| k8 <= k9 <= bytes.len() && #[trigger] T8::spec_encodes(m.8, bytes.subrange(k8, k9)) && (exists|k10: int| k9 <= k10 <= bytes.len() && #[trigger] T9::spec_encodes(m.9, bytes.subrange(k9, k10)) && (exists|k11: int| k10 <= k11 <= bytes.len() && #[trigger] T10::spec_encodes(m.10, bytes.subrange(k10, k11)) && (exists|k12: int| k11 <= k12 <= bytes.len() && #[trigger] T11::spec_encodes(m.11, bytes.subrange(k11, k12)) && (T12::spec_encodes(m.12, bytes.subrange(k12, bytes.len() as int))))))))));
    let k6 = choose|k6: int| k5 <= k6 <= bytes.len() && #[trigger] T5::spec_encodes(m.5, bytes.subrange(k5, k6)) && (exists|k7: int| k6 <= k7 <= bytes.len() && #[trigger] T6::spec_encodes(m.6, bytes.subrange(k6, k7)) && (exists|k8: int| k7 <= k8 <= bytes.len() && #[trigger] T7::spec_encodes(m.7, bytes.subrange(k7, k8)) && (exists|k9: int| k8 <= k9 <= bytes.len() && #[trigger] T8::spec_encodes(m.8, bytes.subrange(k8, k9)) && (exists|k10: int| k9 <= k10 <= bytes.len() && #[trigger] T9::spec_encodes(m.9, bytes.subrange(k9, k10)) && (exists|k11: int| k10 <= k11 <= bytes.len() && #[trigger] T10::spec_encodes(m.10, bytes.subrange(k10, k11)) && (exists|k12: int| k11 <= k12 <= bytes.len() && #[trigger] T11::spec_encodes(m.11, bytes.subrange(k11, k12)) && (T12::spec_encodes(m.12, bytes.subrange(k12, bytes.len() as int)))))))));
    let k7 = choose|k7: int| k6 <= k7 <= bytes.len() && #[trigger] T6::spec_encodes(m.6, bytes.subrange(k6, k7)) && (exists|k8: int| k7 <= k8 <= bytes.len() && #[trigger] T7::spec_encodes(m.7, bytes.subrange(k7, k8)) && (exists|k9: int| k8 <= k9 <= bytes.len() && #[trigger] T8::spec_encodes(m.8, bytes.subrange(k8, k9)) && (exists|k10: int| k9 <= k10 <= bytes.len() && #[trigger] T9::spec_encodes(m.9, bytes.subrange(k9, k10)) && (exists|k11: int| k10 <= k11 <= bytes.len() && #[trigger] T10::spec_encodes(m.10, bytes.subrange(k10, k11)) && (exists|k12: int| k11 <= k12 <= bytes.len() && #[trigger] T11::spec_encodes(m.11, bytes.subrange(k11, k12)) && (T12::spec_encodes(m.12, bytes.subrange(k12, bytes.len() as int))))))));
    let k8 = choose|k8: int| k7 <= k8 <= bytes.len() && #[trigger] T7::spec_encodes(m.7, bytes.subrange(k7, k8)) && (exists|k9: int| k8 <= k9 <= bytes.len() && #[trigger] T8::spec_encodes(m.8, bytes.subrange(k8, k9)) && (exists|k10: int| k9 <= k10 <= bytes.len() && #[trigger] T9::spec_encodes(m.9, bytes.subrange(k9, k10)) && (exists|k11: int| k10 <= k11 <= bytes.len() && #[trigger] T10::spec_encodes(m.10, bytes.subrange(k10, k11)) && (exists|k12: int| k11 <= k12 <= bytes.len() && #[trigger] T11::spec_encodes(m.11, bytes.subrange(k11, k12)) && (T12::spec_encodes(m.12, bytes.subrange(k12, bytes.len() as int)))))));
    let k9 = choose|k9: int| k8 <= k9 <= bytes.len() && #[trigger] T8::spec_encodes(m.8, bytes.subrange(k8, k9)) && (exists|k10: int| k9 <= k10 <= bytes.len() && #[trigger] T9::spec_encodes(m.9, bytes.subrange(k9, k10)) && (exists|k11: int| k10 <= k11 <= bytes.len() && #[trigger] T10::spec_encodes(m.10, bytes.subrange(k10, k11)) && (exists|k12: int| k11 <= k12 <= bytes.len() && #[trigger] T11::spec_encodes(m.11, bytes.subrange(k11, k12)) && (T12::spec_encodes(m.12, bytes.subrange(k12, bytes.len() as int))))));
    let k10 = choose|k10: int| k9 <= k10 <= bytes.len() && #[trigger] T9::spec_encodes(m.9, bytes.subrange(k9, k10)) && (exists|k11: int| k10 <= k11 <= bytes.len() && #[trigger] T10::spec_encodes(m.10, bytes.subrange(k10, k11)) && (exists|k12: int| k11 <= k12 <= bytes.len() && #[trigger] T11::spec_encodes(m.11, bytes.subrange(k11, k12)) && (T12::spec_encodes(m.12, bytes.subrange(k12, bytes.len() as int)))));
    let k11 = choose|k11: int| k10 <= k11 <= bytes.len() && #[trigger] T10::spec_encodes(m.10, bytes.subrange(k10, k11)) && (exists|k12: int| k11 <= k12 <= bytes.len() && #[trigger] T11::spec_encodes(m.11, bytes.subrange(k11, k12)) && (T12::spec_encodes(m.12, bytes.subrange(k12, bytes.len() as int))));
    let k12 = choose|k12: int| k11 <= k12 <= bytes.len() && #[trigger] T11::spec_encodes(m.11, bytes.subrange(k11, k12)) && (T12::spec_encodes(m.12, bytes.subrange(k12, bytes.len() as int)));
    seq![0int, k1, k2, k3, k4, k5, k6, k7, k8, k9, k10, k11, k12, bytes.len() as int]
}

/// A tuple of 14 fields is encoded by its fields' encodings put one after
/// another in field order.
#[verifier::spinoff_prover]
#[verifier::rlimit(60)]
pub proof fn lemma_tuple14_encodes_fields_in_order<T0: WireFormat, T1: WireFormat, T2: WireFormat, T3: WireFormat, T4: WireFormat, T5: WireFormat, T6: WireFormat, T7: WireFormat, T8: WireFormat, T9: WireFormat, T10: WireFormat, T11: WireFormat, T12: WireFormat, T13: WireFormat>(m: (T0::Model, T1::Model, T2::Model, T3::Model, T4::Model, T5::Model, T6::Model, T7::Model, T8::Model, T9::Model, T10::Model, T11::Model, T12::Model, T13::Model), b0: Seq<u8>, b1: Seq<u8>, b2: Seq<u8>, b3: Seq<u8>, b4: Seq<u8>, b5: Seq<u8>, b6: Seq<u8>, b7: Seq<u8>, b8: Seq<u8>, b9: Seq<u8>, b10: Seq<u8>, b11: Seq<u8>, b12: Seq<u8>, b13: Seq<u8>)
    requires
        T0::spec_encodes(m.0, b0),
        T1::spec_encodes(m.1, b1),
        T2::spec_encodes(m.2, b2),
        T3::spec_encodes(m.3, b3),
        T4::spec_encodes(m.4, b4),
        T5::spec_encodes(m.5, b5),
        T6::spec_encodes(m.6, b6),
        T7::spec_encodes(m.7, b7),
        T8::spec_encodes(m.8, b8),
        T9::spec_encodes(m.9, b9),
        T10::spec_encodes(m.10, b10),
        T11::spec_encodes(m.11, b11),
        T12::spec_encodes(m.12, b12),
        T13::spec_encodes(m.13, b13),
    ensures
        <(T0, T1, T2, T3, T4, T5, T6, T7, T8, T9, T10, T11, T12, T13) as WireFormat>::spec_encodes(m, b0 + b1 + b2 + b3 + b4 + b5 + b6 + b7 + b8 + b9 + b10 + b11 + b12 + b13),
{
    let bytes = b0 + b1 + b2 + b3 + b4 + b5 + b6 + b7 + b8 + b9 + b10 + b11 + b12 + b13;
    assert(bytes.subrange(0, (b0.len()) as int) =~= b0);
    assert(bytes.subrange((b0.len()) as int, (b0.len() + b1.len()) as int) =~= b1);
    assert(bytes.subrange((b0.len() + b1.len()) as int, (b0.len() + b1.len() + b2.len()) as int) =~= b2);
    assert(bytes.subrange((b0.len() + b1.len() + b2.len()) as int, (b0.len() + b1.len() + b2.len() + b3.len()) as int) =~= b3);
    assert(bytes.subrange((b0.len() + b1.len() + b2.len() + b3.len()) as int, (b0.len() + b1.len() + b2.len() + b3.len() + b4.len()) as int) =~= b4);
    assert(bytes.subrange((b0.len() + b1.len() + b2.len() + b3.len() + b4.len()) as int, (b0.len() + b1.len() + b2.len() + b3.len() + b4.len() + b5.len()) as int) =~= b5);
    assert(bytes.subrange((b0.len() + b1.len() + b2.len() + b3.len() + b4.len() + b5.len()) as int, (b0.len() + b1.len() + b2.len() + b3.len() + b4.len() + b5.len() + b6.len()) as int) =~= b6);
    assert(bytes.subrange((b0.len() + b1.len() + b2.len() + b3.len() + b4.len() + b5.len() + b6.len()) as int, (b0.len() + b1.len() + b2.len() + b3.len() + b4.len() + b5.len() + b6.len() + b7.len()) as int) =~= b7);
    assert(bytes.subrange((b0.len() + b1.len() + b2.len() + b3.len() + b4.len() + b5.len() + b6.len() + b7.len()) as int, (b0.len() + b1.len() + b2.len() + b3.len() + b4.len() + b5.len() + b6.len() + b7.len() + b8.len()) as int) =~= b8);
    assert(bytes.subrange((b0.len() + b1.len() + b2.len() + b3.len() + b4.len() + b5.len() + b6.len() + b7.len() + b8.len()) as int, (b0.len() + b1.len() + b2.len() + b3.len() + b4.len() + b5.len() + b6.len() + b7.len() + b8.len() + b9.len()) as int) =~= b9);
    assert(bytes.subrange((b0.len() + b1.len() + b2.len() + b3.len() + b4.len() + b5.len() + b6.len() + b7.len() + b8.len() + b9.len()) as int, (b0.len() + b1.len() + b2.len() + b3.len() + b4.len() + b5.len() + b6.len() + b7.len() + b8.len() + b9.len() + b10.len()) as int) =~= b10);
    assert(bytes.subrange((b0.len() + b1.len() + b2.len() + b3.len() + b4.len() + b5.len() + b6.len() + b7.len() + b8.len() + b9.len() + b10.len()) as int, (b0.len() + b1.len() + b2.len() + b3.len() + b4.len() + b5.len() + b6.len() + b7.len() + b8.len() + b9.len() + b10.len() + b11.len()) as int) =~= b11);
    assert(bytes.subrange((b0.len() + b1.len() + b2.len() + b3.len() + b4.len() + b5.len() + b6.len() + b7.len() + b8.len() + b9.len() + b10.len() + b11.len()) as int, (b0.len() + b1.len() + b2.len() + b3.len() + b4.len() + b5.len() + b6.len() + b7.len() + b8.len() + b9.len() + b10.len() + b11.len() + b12.len()) as int) =~= b12);
    assert(bytes.subrange((b0.len() + b1.len() + b2.len() + b3.len() + b4.len() + b5.len() + b6.len() + b7.len() + b8.len() + b9.len() + b10.len() + b11.len() + b12.len()) as int, bytes.len() as int) =~= b13);
    let k1: int = (b0.len()) as int;
    let k2: int = (b0.len() + b1.len()) as int;
    let k3: int = (b0.len() + b1.len() + b2.len()) as int;
    let k4: int = (b0.len() + b1.len() + b2.len() + b3.len()) as int;
    let k5: int = (b0.len() + b1.len() + b2.len() + b3.len() + b4.len()) as int;
    let k6: int = (b0.len() + b1.len() + b2.len() + b3.len() + b4.len() + b5.len()) as int;
    let k7: int = (b0.len() + b1.len() + b2.len() + b3.len() + b4.len() + b5.len() + b6.len()) as int;
    let k8: int = (b0.len() + b1.len() + b2.len() + b3.len() + b4.len() + b5.len() + b6.len() + b7.len()) as int;
    let k9: int = (b0.len() + b1.len() + b2.len() + b3.len() + b4.len() + b5.len() + b6.len() + b7.len() + b8.len()) as int;
    let k10: int = (b0.len() + b1.len() + b2.len() + b3.len() + b4.len() + b5.len() + b6.len() + b7.len() + b8.len() + b9.len()) as int;
    let k11: int = (b0.len() + b1.len() + b2.len() + b3.len() + b4.len() + b5.len() + b6.len() + b7.len() + b8.len() + b9.len() + b10.len()) as int;
    let k12: int = (b0.len() + b1.len() + b2.len() + b3.len() + b4.len() + b5.len() + b6.len() + b7.len() + b8.len() + b9.len() + b10.len() + b11.len()) as int;
    let k13: int = (b0.len() + b1.len() + b2.len() + b3.len() + b4.len() + b5.len() + b6.len() + b7.len() + b8.len() + b9.len() + b10.len() + b11.len() + b12.len()) as int;
    assert(exists|k13: int| k12 <= k13 <= bytes.len() && #[trigger] T12::spec_encodes(m.12, bytes.subrange(k12, k13)) && (T13::spec_encodes(m.13, bytes.subrange(k13, bytes.len() as int))));
    assert(exists|k12: int| k11 <= k12 <= bytes.len() && #[trigger] T11::spec_encodes(m.11, bytes.subrange(k11, k12)) && (exists|k13: int| k12 <= k13 <= bytes.len() && #[trigger] T12::spec_encodes(m.12, bytes.subrange(k12, k13)) && (T13::spec_encodes(m.13, bytes.subrange(k13, bytes.len() as int)))));
    assert(exists|k11: int| k10 <= k11 <= bytes.len() && #[trigger] T10::spec_encodes(m.10, bytes.subrange(k10, k11)) && (exists|k12: int| k11 <= k12 <= bytes.len() && #[trigger] T11::spec_encodes(m.11, bytes.subrange(k11, k12)) && (exists|k13: int| k12 <= k13 <= bytes.len() && #[trigger] T12::spec_encodes(m.12, bytes.subrange(k12, k13)) && (T13::spec_encodes(m.13, bytes.subrange(k13, bytes.len() as int))))));
    assert(exists|k10: int| k9 <= k10 <= bytes.len() && #[trigger] T9::spec_encodes(m.9, bytes.subrange(k9, k10)) && (exists|k11: int| k10 <= k11 <= bytes.len() && #[trigger] T10::spec_encodes(m.10, bytes.subrange(k10, k11)) && (exists|k12: int| k11 <= k12 <= bytes.len() && #[trigger] T11::spec_encodes(m.11, bytes.subrange(k11, k12)) && (exists|k13: int| k12 <= k13 <= bytes.len() && #[trigger] T12::spec_encodes(m.12, bytes.subrange(k12, k13)) && (T13::spec_encodes(m.13, bytes.subrange(k13, bytes.len() as int)))))));
    assert(exists|k9: int| k8 <= k9 <= bytes.len() && #[trigger] T8::spec_encodes(m.8, bytes.subrange(k8, k9)) && (exists|k10: int| k9 <= k10 <= bytes.len() && #[trigger] T9::spec_encodes(m.9, bytes.subrange(k9, k10)) && (exists|k11: int| k10 <= k11 <= bytes.len() && #[trigger] T10::spec_encodes(m.10, bytes.subrange(k10, k11)) && (exists|k12: int| k11 <= k12 <= bytes.len() && #[trigger] T11::spec_encodes(m.11, bytes.subrange(k11, k12)) && (exists|k13: int| k12 <= k13 <= bytes.len() && #[trigger] T12::spec_encodes(m.12, bytes.subrange(k12, k13)) && (T13::spec_encodes(m.13, bytes.subrange(k13, bytes.len() as int))))))));
    assert(exists|k8: int| k7 <= k8 <= bytes.len() && #[trigger] T7::spec_encodes(m.7, bytes.subrange(k7, k8)) && (exists|k9: int| k8 <= k9 <= bytes.len() && #[trigger] T8::spec_encodes(m.8, bytes.subrange(k8, k9)) && (exists|k10: int| k9 <= k10 <= bytes.len() && #[trigger] T9::spec_encodes(m.9, bytes.subrange(k9, k10)) && (exists|k11: int| k10 <= k11 <= bytes.len() && #[trigger] T10::spec_encodes(m.10, bytes.subrange(k10, k11)) && (exists|k12: int| k11 <= k12 <= bytes.len() && #[trigger] T11::spec_encodes(m.11, bytes.subrange(k11, k12)) && (exists|k13: int| k12 <= k13 <= bytes.len() && #[trigger] T12::spec_encodes(m.12, bytes.subrange(k12, k13)) && (T13::spec_encodes(m.13, bytes.subrange(k13, bytes.len() as int)))))))));
    assert(exists|k7: int| k6 <= k7 <= bytes.len() && #[trigger] T6::spec_encodes(m.6, bytes.subrange(k6, k7)) && (exists|k8: int| k7 <= k8 <= bytes.len() && #[trigger] T7::spec_encodes(m.7, bytes.subrange(k7, k8)) && (exists|k9: int| k8 <= k9 <= bytes.len() && #[trigger] T8::spec_encodes(m.8, bytes.subrange(k8, k9)) && (exists|k10: int| k9 <= k10 <= bytes.len() && #[trigger] T9::spec_encodes(m.9, bytes.subrange(k9, k10)) && (exists|k11: int| k10 <= k11 <= bytes.len() && #[trigger] T10::spec_encodes(m.10, bytes.subrange(k10, k11)) && (exists|k12: int| k11 <= k12 <= bytes.len() && #[trigger] T11::spec_encodes(m.11, bytes.subrange(k11, k12)) && (exists|k13: int| k12 <= k13 <= bytes.len() && #[trigger] T12::spec_encodes(m.12, bytes.subrange(k12, k13)) && (T13::spec_encodes(m.13, bytes.subrange(k13, bytes.len() as int))))))))));
    assert(exists|k6: int| k5 <= k6 <= bytes.len() && #[trigger] T5::spec_encodes(m.5, bytes.subrange(k5, k6)) && (exists|k7: int| k6 <= k7 <= bytes.len() && #[trigger] T6::spec_encodes(m.6, bytes.subrange(k6, k7)) && (exists|k8: int| k7 <= k8 <= bytes.len() && #[trigger] T7::spec_encodes(m.7, bytes.subrange(k7, k8)) && (exists|k9: int| k8 <= k9 <= bytes.len() && #[trigger] T8::spec_encodes(m.8, bytes.subrange(k8, k9)) && (exists|k10: int| k9 <= k10 <= bytes.len() && #[trigger] T9::spec_encodes(m.9, bytes.subrange(k9, k10)) && (exists|k11: int| k10 <= k11 <= bytes.len() && #[trigger] T10::spec_encodes(m.10, bytes.subrange(k10, k11)) && (exists|k12: int| k11 <= k12 <= bytes.len() && #[trigger] T11::spec_encodes(m.11, bytes.subrange(k11, k12)) && (exists|k13: int| k12 <= k13 <= bytes.len() && #[trigger] T12::spec_encodes(m.12, bytes.subrange(k12, k13)) && (T13::spec_encodes(m.13, bytes.subrange(k13, bytes.len() as int)))))))))));
    assert(exists|k5: int| k4 <= k5 <= bytes.len() && #[trigger] T4::spec_encodes(m.4, bytes.subrange(k4, k5)) && (exists|k6: int| k5 <= k6 <= bytes.len() && #[trigger] T5::spec_encodes(m.5, bytes.subrange(k5, k6)) && (exists|k7: int| k6 <= k7 <= bytes.len() && #[trigger] T6::spec_encodes(m.6, bytes.subrange(k6, k7)) && (exists|k8: int| k7 <= k8 <= bytes.len() && #[trigger] T7::spec_encodes(m.7, bytes.subrange(k7, k8)) && (exists|k9: int| k8 <= k9 <= bytes.len() && #[trigger] T8::spec_encodes(m.8, bytes.subrange(k8, k9)) && (exists|k10: int| k9 <= k10 <= bytes.len() && #[trigger] T9::spec_encodes(m.9, bytes.subrange(k9, k10)) && (exists|k11: int| k10 <= k11 <= bytes.len() && #[trigger] T10::spec_encodes(m.10, bytes.subrange(k10, k11)) && (exists|k12: int| k11 <= k12 <= bytes.len() && #[trigger] T11::spec_encodes(m.11, bytes.subrange(k11, k12)) && (exists|k13: int| k12 <= k13 <= bytes.len() && #[trigger] T12::spec_encodes(m.12, bytes.subrange(k12, k13)) && (T13::spec_encodes(m.13, bytes.subrange(k13, bytes.len() as int))))))))))));
    assert(exists|k4: int| k3 <= k4 <= bytes.len() && #[trigger] T3::spec_encodes(m.3, bytes.subrange(k3, k4)) && (exists|k5: int| k4 <= k5 <= bytes.len() && #[trigger] T4::spec_encodes(m.4, bytes.subrange(k4, k5)) && (exists|k6: int| k5 <= k6 <= bytes.len() && #[trigger] T5::spec_encodes(m.5, bytes.subrange(k5, k6)) && (exists|k7: int| k6 <= k7 <= bytes.len() && #[trigger] T6::spec_encodes(m.6, bytes.subrange(k6, k7)) && (exists|k8: int| k7 <= k8 <= bytes.len() && #[trigger] T7::spec_encodes(m.7, bytes.subrange(k7, k8)) && (exists|k9: int| k8 <= k9 <= bytes.len() && #[trigger] T8::spec_encodes(m.8, bytes.subrange(k8, k9)) && (exists|k10: int| k9 <= k10 <= bytes.len() && #[trigger] T9::spec_encodes(m.9, bytes.subrange(k9, k10)) && (exists|k11: int| k10 <= k11 <= bytes.len() && #[trigger] T10::spec_encodes(m.10, bytes.subrange(k10, k11)) && (exists|k12: int| k11 <= k12 <= bytes.len() && #[trigger] T11::spec_encodes(m.11, bytes.subrange(k11, k12)) && (exists|k13: int| k12 <= k13 <= bytes.len() && #[trigger] T12::spec_encodes(m.12, bytes.subrange(k12, k13)) && (T13::spec_encodes(m.13, bytes.subrange(k13, bytes.len() as int)))))))))))));
    assert(exists|k3: int| k2 <= k3 <= bytes.len() && #[trigger] T2::spec_encodes(m.2, bytes.subrange(k2, k3)) && (exists|k4: int| k3 <= k4 <= bytes.len() && #[trigger] T3::spec_encodes(m.3, bytes.subrange(k3, k4)) && (exists|k5: int| k4 <= k5 <= bytes.len() && #[trigger] T4::spec_encodes(m.4, bytes.subrange(k4, k5)) && (exists|k6: int| k5 <= k6 <= bytes.len() && #[trigger] T5::spec_encodes(m.5, bytes.subrange(k5, k6)) && (exists|k7: int| k6 <= k7 <= bytes.len() && #[trigger] T6::spec_encodes(m.6, bytes.subrange(k6, k7)) && (exists|k8: int| k7 <= k8 <= bytes.len() && #[trigger] T7::spec_encodes(m.7, bytes.subrange(k7, k8)) && (exists|k9: int| k8 <= k9 <= bytes.len() && #[trigger] T8::spec_encodes(m.8, bytes.subrange(k8, k9)) && (exists|k10: int| k9 <= k10 <= bytes.len() && #[trigger] T9::spec_encodes(m.9, bytes.subrange(k9, k10)) && (exists|k11: int| k10 <= k11 <= bytes.len() && #[trigger] T10::spec_encodes(m.10, bytes.subrange(k10, k11)) && (exists|k12: int| k11 <= k12 <= bytes.len() && #[trigger] T11::spec_encodes(m.11, bytes.subrange(k11, k12)) && (exists|k13: int| k12 <= k13 <= bytes.len() && #[trigger] T12::spec_encodes(m.12, bytes.subrange(k12, k13)) && (T13::spec_encodes(m.13, bytes.subrange(k13, bytes.len() as int))))))))))))));
    assert(exists|k2: int| k1 <= k2 <= bytes.len() && #[trigger] T1::spec_encodes(m.1, bytes.subrange(k1, k2)) && (exists|k3: int| k2 <= k3 <= bytes.len() && #[trigger] T2::spec_encodes(m.2, bytes.subrange(k2, k3)) && (exists|k4: int| k3 <= k4 <= bytes.len() && #[trigger] T3::spec_encodes(m.3, bytes.subrange(k3, k4)) && (exists|k5: int| k4 <= k5 <= bytes.len() && #[trigger] T4::spec_encodes(m.4, bytes.subrange(k4, k5)) && (exists|k6: int| k5 <= k6 <= bytes.len() && #[trigger] T5::spec_encodes(m.5, bytes.subrange(k5, k6)) && (exists|k7: int| k6 <= k7 <= bytes.len() && #[trigger] T6::spec_encodes(m.6, bytes.subrange(k6, k7)) && (exists|k8: int| k7 <= k8 <= bytes.len() && #[trigger] T7::spec_encodes(m.7, bytes.subrange(k7, k8)) && (exists|k9: int| k8 <= k9 <= bytes.len() && #[trigger] T8::spec_encodes(m.8, bytes.subrange(k8, k9)) && (exists|k10: int| k9 <= k10 <= bytes.len() && #[trigger] T9::spec_encodes(m.9, bytes.subrange(k9, k10)) && (exists|k11: int| k10 <= k11 <= bytes.len() && #[trigger] T10::spec_encodes(m.10, bytes.subrange(k10, k11)) && (exists|k12: int| k11 <= k12 <= bytes.len() && #[trigger] T11::spec_encodes(m.11, bytes.subrange(k11, k12)) && (exists|k13: int| k12 <= k13 <= bytes.len() && #[trigger] T12::spec_encodes(m.12, bytes.subrange(k12, k13)) && (T13::spec_encodes(m.13, bytes.subrange(k13, bytes.len() as int)))))))))))))));
    assert(exists|k1: int| 0 <= k1 <= bytes.len() && #[trigger] T0::spec_encodes(m.0, bytes.subrange(0, k1)) && (exists|k2: int| k1 <= k2 <= bytes.len() && #[trigger] T1::spec_encodes(m.1, bytes.subrange(k1, k2)) && (exists|k3: int| k2 <= k3 <= bytes.len() && #[trigger] T2::spec_encodes(m.2, bytes.subrange(k2, k3)) && (exists|k4: int| k3 <= k4 <= bytes.len() && #[trigger] T3::spec_encodes(m.3, bytes.subrange(k3, k4)) && (exists|k5: int| k4 <= k5 <= bytes.len() && #[trigger] T4::spec_encodes(m.4, bytes.subrange(k4, k5)) && (exists|k6: int| k5 <= k6 <= bytes.len() && #[trigger] T5::spec_encodes(m.5, bytes.subrange(k5, k6)) && (exists|k7: int| k6 <= k7 <= bytes.len() && #[trigger] T6::spec_encodes(m.6, bytes.subrange(k6, k7)) && (exists|k8: int| k7 <= k8 <= bytes.len() && #[trigger] T7::spec_encodes(m.7, bytes.subrange(k7, k8)) && (exists|k9: int| k8 <= k9 <= bytes.len() && #[trigger] T8::spec_encodes(m.8, bytes.subrange(k8, k9)) && (exists|k10: int| k9 <= k10 <= bytes.len() && #[trigger] T9::spec_encodes(m.9, bytes.subrange(k9, k10)) && (exists|k11: int| k10 <= k11 <= bytes.len() && #[trigger] T10::spec_encodes(m.10, bytes.subrange(k10, k11)) && (exists|k12: int| k11 <= k12 <= bytes.len() && #[trigger] T11::spec_encodes(m.11, bytes.subrange(k11, k12)) && (exists|k13: int| k12 <= k13 <= bytes.len() && #[trigger] T12::spec_encodes(m.12, bytes.subrange(k12, k13)) && (T13::spec_encodes(m.13, bytes.subrange(k13, bytes.len() as int))))))))))))))));
}

/// An encoding of a tuple of 14 fields cuts into its fields' encodings, in
/// field order, at the positions `cuts`.
#[verifier::spinoff_prover]
#[verifier::rlimit(60)]
pub proof fn lemma_tuple14_cuts_into_fields<T0: WireFormat, T1: WireFormat, T2: WireFormat, T3: WireFormat, T4: WireFormat, T5: WireFormat, T6: WireFormat, T7: WireFormat, T8: WireFormat, T9: WireFormat, T10: WireFormat, T11: WireFormat, T12: WireFormat, T13: WireFormat>(m: (T0::Model, T1::Model, T2::Model, T3::Model, T4::Model, T5::Model, T6::Model, T7::Model, T8::Model, T9::Model, T10::Model, T11::Model, T12::Model, T13::Model), bytes: Seq<u8>) -> (cuts: Seq<int>)
    requires
        <(T0, T1, T2, T3, T4, T5, T6, T7, T8, T9, T10, T11, T12, T13) as WireFormat>::spec_encodes(m, bytes),
    ensures
        cuts.len() == 15,
        cuts[0] == 0,
        cuts[14] == bytes.len(),
        cuts[0] <= cuts[1],
        cuts[1] <= cuts[2],
        cuts[2] <= cuts[3],
        cuts[3] <= cuts[4],
        cuts[4] <= cuts[5],
        cuts[5] <= cuts[6],
        cuts[6] <= cuts[7],
        cuts[7] <= cuts[8],
        cuts[8] <= cuts[9],
        cuts[9] <= cuts[10],
        cuts[10] <= cuts[11],
        cuts[11] <= cuts[12],
        cuts[12] <= cuts[13],
        cuts[13] <= cuts[14],
        T0::spec_encodes(m.0, bytes.subrange(cuts[0], cuts[1])),
        T1::spec_encodes(m.1, bytes.subrange(cuts[1], cuts[2])),
        T2::spec_encodes(m.2, bytes.subrange(cuts[2], cuts[3])),
        T3::spec_encodes(m.3, bytes.subrange(cuts[3], cuts[4])),
        T4::spec_encodes(m.4, bytes.subrange(cuts[4], cuts[5])),
        T5::spec_encodes(m.5, bytes.subrange(cuts[5], cuts[6])),
        T6::spec_encodes(m.6, bytes.subrange(cuts[6], cuts[7])),
        T7::spec_encodes(m.7, bytes.subrange(cuts[7], cuts[8])),
        T8::spec_encodes(m.8, bytes.subrange(cuts[8], cuts[9])),
        T9::spec_encodes(m.9, bytes.subrange(cuts[9], cuts[10])),
        T10::spec_encodes(m.10, bytes.subrange(cuts[10], cuts[11])),
        T11::spec_encodes(m.11, bytes.subrange(cuts[11], cuts[12])),
        T12::spec_encodes(m.12, bytes.subrange(cuts[12], cuts[13])),
        T13::spec_encodes(m.13, bytes.subrange(cuts[13], cuts[14])),
{
    let k1 = choose|k1: int| 0 <= k1 <= bytes.len() && #[trigger] T0::spec_encodes(m.0, bytes.subrange(0, k1)) && (exists|k2: int| k1 <= k2 <= bytes.len() && #[trigger] T1::spec_encodes(m.1, bytes.subrange(k1, k2)) && (exists|k3: int| k2 <= k3 <= bytes.len() && #[trigger] T2::spec_encodes(m.2, bytes.subrange(k2, k3)) && (exists|k4: int| k3 <= k4 <= bytes.len() && #[trigger] T3::spec_encodes(m.3, bytes.subrange(k3, k4)) && (exists|k5: int| k4 <= k5 <= bytes.len() && #[trigger] T4::spec_encodes(m.4, bytes.subrange(k4, k5)) && (exists|k6: int| k5 <= k6 <= bytes.len() && #[trigger] T5::spec_encodes(m.5, bytes.subrange(k5, k6)) && (exists|k7: int| k6 <= k7 <= bytes.len() && #[trigger] T6::spec_encodes(m.6, bytes.subrange(k6, k7)) && (exists|k8: int| k7 <= k8 <= bytes.len() && #[trigger] T7::spec_encodes(m.7, bytes.subrange(k7, k8)) && (exists|k9: int| k8 <= k9 <= bytes.len() && #[trigger] T8::spec_encodes(m.8, bytes.subrange(k8, k9)) && (exists|k10: int| k9 <= k10 <= bytes.len() && #[trigger] T9::spec_encodes(m.9, bytes.subrange(k9, k10)) && (exists|k11: int| k10 <= k11 <= bytes.len() && #[trigger] T10::spec_encodes(m.10, bytes.subrange(k10, k11)) && (exists|k12: int| k11 <= k12 <= bytes.len() && #[trigger] T11::spec_encodes(m.11, bytes.subrange(k11, k12)) && (exists|k13: int| k12 <= k13 <= bytes.len() && #[trigger] T12::spec_encodes(m.12, bytes.subrange(k12, k13)) && (T13::spec_encodes(m.13, bytes.subrange(k13, bytes.len() as int)))))))))))))));
    let k2 = choose|k2: int| k1 <= k2 <= bytes.len() && #[trigger] T1::spec_encodes(m.1, bytes.subrange(k1, k2)) && (exists|k3: int| k2 <= k3 <= bytes.len() && #[trigger] T2::spec_encodes(m.2, bytes.subrange(k2, k3)) && (exists|k4: int| k3 <= k4 <= bytes.len() && #[trigger] T3::spec_encodes(m.3, bytes.subrange(k3, k4)) && (exists|k5: int| k4 <= k5 <= bytes.len() && #[trigger] T4::spec_encodes(m.4, bytes.subrange(k4, k5)) && (exists|k6: int| k5 <= k6 <= bytes.len() && #[trigger] T5::spec_encodes(m.5, bytes.subrange(k5, k6)) && (exists|k7: int| k6 <= k7 <= bytes.len() && #[trigger] T6::spec_encodes(m.6, bytes.subrange(k6, k7)) && (exists|k8: int| k7 <= k8 <= bytes.len() && #[trigger] T7::spec_encodes(m.7, bytes.subrange(k7, k8)) && (exists|k9: int| k8 <= k9 <= bytes.len() && #[trigger] T8::spec_encodes(m.8, bytes.subrange(k8, k9)) && (exists|k10: int| k9 <= k10 <= bytes.len() && #[trigger] T9::spec_encodes(m.9, bytes.subrange(k9, k10)) && (exists|k11: int| k10 <= k11 <= bytes.len() && #[trigger] T10::spec_encodes(m.10, bytes.subrange(k10, k11)) && (exists|k12: int| k11 <= k12 <= bytes.len() && #[trigger] T11::spec_encodes(m.11, bytes.subrange(k11, k12)) && (exists|k13: int| k12 <= k13 <= bytes.len() && #[trigger] T12::spec_encodes(m.12, bytes.subrange(k12, k13)) && (T13::spec_encodes(m.13, bytes.subrange(k13, bytes.len() as int))))))))))))));
    let k3 = choose|k3: int| k2 <= k3 <= bytes.len() && #[trigger] T2::spec_encodes(m.2, bytes.subrange(k2, k3)) && (exists|k4: int| k3 <= k4 <= bytes.len() && #[trigger] T3::spec_encodes(m.3, bytes.subrange(k3, k4)) && (exists|k5: int| k4 <= k5 <= bytes.len() && #[trigger] T4::spec_encodes(m.4, bytes.subrange(k4, k5)) && (exists|k6: int| k5 <= k6 <= bytes.len() && #[trigger] T5::spec_encodes(m.5, bytes.subrange(k5, k6)) && (exists|k7: int| k6 <= k7 <= bytes.len() && #[trigger] T6::spec_encodes(m.6, bytes.subrange(k6, k7)) && (exists|k8: int| k7 <= k8 <= bytes.len() && #[trigger] T7::spec_encodes(m.7, bytes.subrange(k7, k8)) && (exists|k9: int| k8 <= k9 <= bytes.len() && #[trigger] T8::spec_encodes(m.8, bytes.subrange(k8, k9)) && (exists|k10: int| k9 <= k10 <= bytes.len() && #[trigger] T9::spec_encodes(m.9, bytes.subrange(k9, k10)) && (exists|k11: int| k10 <= k11 <= bytes.len() && #[trigger] T10::spec_encodes(m.10, bytes.subrange(k10, k11)) && (exists|k12: int| k11 <= k12 <= bytes.len() && #[trigger] T11::spec_encodes(m.11, bytes.subrange(k11, k12)) && (exists|k13: int| k12 <= k13 <= bytes.len() && #[trigger] T12::spec_encodes(m.12, bytes.subrange(k12, k13)) && (T13::spec_encodes(m.13, bytes.subrange(k13, bytes.len() as int)))))))))))));
    let k4 = choose|k4: int| k3 <= k4 <= bytes.len() && #[trigger] T3::spec_encodes(m.3, bytes.subrange(k3, k4)) && (exists|k5: int| k4 <= k5 <= bytes.len() && #[trigger] T4::spec_encodes(m.4, bytes.subrange(k4, k5)) && (exists|k6: int| k5 <= k6 <= bytes.len() && #[trigger] T5::spec_encodes(m.5, bytes.subrange(k5, k6)) && (exists|k7: int| k6 <= k7 <= bytes.len() && #[trigger] T6::spec_encodes(m.6, bytes.subrange(k6, k7)) && (exists|k8: int| k7 <= k8 <= bytes.len() && #[trigger] T7::spec_encodes(m.7, bytes.subrange(k7, k8)) && (exists|k9: int| k8 <= k9 <= bytes.len() && #[trigger] T8::spec_encodes(m.8, bytes.subrange(k8, k9)) && (exists|k10: int| k9 <= k10 <= bytes.len() && #[trigger] T9::spec_encodes(m.9, bytes.subrange(k9, k10)) && (exists|k11: int| k10 <= k11 <= bytes.len() && #[trigger] T10::spec_encodes(m.10, bytes.subrange(k10, k11)) && (exists|k12: int| k11 <= k12 <= bytes.len() && #[trigger] T11::spec_encodes(m.11, bytes.subrange(k11, k12)) && (exists|k13: int| k12 <= k13 <= bytes.len() && #[trigger] T12::spec_encodes(m.12, bytes.subrange(k12, k13)) && (T13::spec_encodes(m.13, bytes.subrange(k13, bytes.len() as int))))))))))));
    let k5 = choose|k5: int| k4 <= k5 <= bytes.len() && #[trigger] T4::spec_encodes(m.4, bytes.subrange(k4, k5)) && (exists|k6: int| k5 <= k6 <= bytes.len() && #[trigger] T5::spec_encodes(m.5, bytes.subrange(k5, k6)) && (exists|k7: int| k6 <= k7 <= bytes.len() && #[trigger] T6::spec_encodes(m.6, bytes.subrange(k6, k7)) && (exists|k8: int| k7 <= k8 <= bytes.len() && #[trigger] T7::spec_encodes(m.7, bytes.subrange(k7, k8)) && (exists|k9: int| k8 <= k9 <= bytes.len() && #[trigger] T8::spec_encodes(m.8, bytes.subrange(k8, k9)) && (exists|k10: int| k9 <= k10 <= bytes.len() && #[trigger] T9::spec_encodes(m.9, bytes.subrange(k9, k10)) && (exists|k11: int| k10 <= k11 <= bytes.len() && #[trigger] T10::spec_encodes(m.10, bytes.subrange(k10, k11)) && (exists|k12: int| k11 <= k12 <= bytes.len() && #[trigger] T11::spec_encodes(m.11, bytes.subrange(k11, k12)) && (exists|k13: int| k12 <= k13 <= bytes.len() && #[trigger] T12::spec_encodes(m.12, bytes.subrange(k12, k13)) && (T13::spec_encodes(m.13, bytes.subrange(k13, bytes.len() as int)))))))))));
    let k6 = choose|k6: int| k5 <= k6 <= bytes.len() && #[trigger] T5::spec_encodes(m.5, bytes.subrange(k5, k6)) && (exists|k7: int| k6 <= k7 <= bytes.len() && #[trigger] T6::spec_encodes(m.6, bytes.subrange(k6, k7)) && (exists|k8: int| k7 <= k8 <= bytes.len() && #[trigger] T7::spec_encodes(m.7, bytes.subrange(k7, k8)) && (exists|k9: int| k8 <= k9 <= bytes.len() && #[trigger] T8::spec_encodes(m.8, bytes.subrange(k8, k9)) && (exists|k10: int| k9 <= k10 <= bytes.len() && #[trigger] T9::spec_encodes(m.9, bytes.subrange(k9, k10)) && (exists|k11: int| k10 <= k11 <= bytes.len() && #[trigger] T10::spec_encodes(m.10, bytes.subrange(k10, k11)) && (exists|k12: int| k11 <= k12 <= bytes.len() && #[trigger] T11::spec_encodes(m.11, bytes.subrange(k11, k12)) && (exists|k13: int| k12 <= k13 <= bytes.len() && #[trigger] T12::spec_encodes(m.12, bytes.subrange(k12, k13)) && (T13::spec_encodes(m.13, bytes.subrange(k13, bytes.len() as int))))))))));
    let k7 = choose|k7: int| k6 <= k7 <= bytes.len() && #[trigger] T6::spec_encodes(m.6, bytes.subrange(k6, k7)) && (exists|k8: int| k7 <= k8 <= bytes.len() && #[trigger] T7::spec_encodes(m.7, bytes.subrange(k7, k8)) && (exists|k9: int| k8 <= k9 <= bytes.len() && #[trigger] T8::spec_encodes(m.8, bytes.subrange(k8, k9)) && (exists|k10: int| k9 <= k10 <= bytes.len() && #[trigger] T9::spec_encodes(m.9, bytes.subrange(k9, k10)) && (exists|k11: int| k10 <= k11 <= bytes.len() && #[trigger] T10::spec_encodes(m.10, bytes.subrange(k10, k11)) && (exists|k12: int| k11 <= k12 <= bytes.len() && #[trigger] T11::spec_encodes(m.11, bytes.subrange(k11, k12)) && (exists|k13: int| k12 <= k13 <= bytes.len() && #[trigger] T12::spec_encodes(m.12, bytes.subrange(k12, k13)) && (T13::spec_encodes(m.13, bytes.subrange(k13, bytes.len() as int)))))))));
    let k8 = choose|k8: int| k7 <= k8 <= bytes.len() && #[trigger] T7::spec_encodes(m.7, bytes.subrange(k7, k8)) && (exists|k9: int| k8 <= k9 <= bytes.len() && #[trigger] T8::spec_encodes(m.8, bytes.subrange(k8, k9)) && (exists|k10: int| k9 <= k10 <= bytes.len() && #[trigger] T9::spec_encodes(m.9, bytes.subrange(k9, k10)) && (exists|k11: int| k10 <= k11 <= bytes.len() && #[trigger] T10::spec_encodes(m.10, bytes.subrange(k10, k11)) && (exists|k12: int| k11 <= k12 <= bytes.len() && #[trigger] T11::spec_encodes(m.11, bytes.subrange(k11, k12)) && (exists|k13: int| k12 <= k13 <= bytes.len() && #[trigger] T12::spec_encodes(m.12, bytes.subrange(k12, k13)) && (T13::spec_encodes(m.13, bytes.subrange(k13, bytes.len() as int))))))));
    let k9 = choose|k9: int| k8 <= k9 <= bytes.len() && #[trigger] T8::spec_encodes(m.8, bytes.subrange(k8, k9)) && (exists|k10: int| k9 <= k10 <= bytes.len() && #[trigger] T9::spec_encodes(m.9, bytes.subrange(k9, k10)) && (exists|k11: int| k10 <= k11 <= bytes.len() && #[trigger] T10::spec_encodes(m.10, bytes.subrange(k10, k11)) && (exists|k12: int| k11 <= k12 <= bytes.len() && #[trigger] T11::spec_encodes(m.11, bytes.subrange(k11, k12)) && (exists|k13: int| k12 <= k13 <= bytes.len() && #[trigger] T12::spec_encodes(m.12, bytes.subrange(k12, k13)) && (T13::spec_encodes(m.13, bytes.subrange(k13, bytes.len() as int)))))));
    let k10 = choose|k10: int| k9 <= k10 <= bytes.len() && #[trigger] T9::spec_encodes(m.9, bytes.subrange(k9, k10)) && (exists|k11: int| k10 <= k11 <= bytes.len() && #[trigger] T10::spec_encodes(m.10, bytes.subrange(k10, k11)) && (exists|k12: int| k11 <= k12 <= bytes.len() && #[trigger] T11::spec_encodes(m.11, bytes.subrange(k11, k12)) && (exists|k13: int| k12 <= k13 <= bytes.len() && #[trigger] T12::spec_encodes(m.12, bytes.subrange(k12, k13)) && (T13::spec_encodes(m.13, bytes.subrange(k13, bytes.len() as int))))));
    let k11 = choose|k11: int| k10 <= k11 <= bytes.len() && #[trigger] T10::spec_encodes(m.10, bytes.subrange(k10, k11)) && (exists|k12: int| k11 <= k12 <= bytes.len() && #[trigger] T11::spec_encodes(m.11, bytes.subrange(k11, k12)) && (exists|k13: int| k12 <= k13 <= bytes.len() && #[trigger] T12::spec_encodes(m.12, bytes.subrange(k12, k13)) && (T13::spec_encodes(m.13, bytes.subrange(k13, bytes.len() as int)))));
    let k12 = choose|k12: int| k11 <= k12 <= bytes.len() && #[trigger] T11::spec_encodes(m.11, bytes.subrange(k11, k12)) && (exists|k13: int| k12 <= k13 <= bytes.len() && #[trigger] T12::spec_encodes(m.12, bytes.subrange(k12, k13)) && (T13::spec_encodes(m.13, bytes.subrange(k13, bytes.len() as int))));
    let k13 = choose|k13: int| k12 <= k13 <= bytes.len() && #[trigger] T12::spec_encodes(m.12, bytes.subrange(k12, k13)) && (T13::spec_encodes(m.13, bytes.subrange(k13, bytes.len() as int)));
    seq![0int, k1, k2, k3, k4, k5, k6, k7, k8, k9, k10, k11, k12, k13, bytes.len() as int]
}

/// A tuple of 15 fields is encoded by its fields' encodings put one after
/// another in field order.
#[verifier::spinoff_prover]
#[verifier::rlimit(60)]
pub proof fn lemma_tuple15_encodes_fields_in_order<T0: WireFormat, T1: WireFormat, T2: WireFormat, T3: WireFormat, T4: WireFormat, T5: WireFormat, T6: WireFormat, T7: WireFormat, T8: WireFormat, T9: WireFormat, T10: WireFormat, T11: WireFormat, T12: WireFormat, T13: WireFormat, T14: WireFormat>(m: (T0::Model, T1::Model, T2::Model, T3::Model, T4::Model, T5::Model, T6::Model, T7::Model, T8::Model, T9::Model, T10::Model, T11::Model, T12::Model, T13::Model, T14::Model), b0: Seq<u8>, b1: Seq<u8>, b2: Seq<u8>, b3: Seq<u8>, b4: Seq<u8>, b5: Seq<u8>, b6: Seq<u8>, b7: Seq<u8>, b8: Seq<u8>, b9: Seq<u8>, b10: Seq<u8>, b11: Seq<u8>, b12: Seq<u8>, b13: Seq<u8>, b14: Seq<u8>)
    requires
        T0::spec_encodes(m.0, b0),
        T1::spec_encodes(m.1, b1),
        T2::spec_encodes(m.2, b2),
        T3::spec_encodes(m.3, b3),
        T4::spec_encodes(m.4, b4),
        T5::spec_encodes(m.5, b5),
        T6::spec_encodes(m.6, b6),
        T7::spec_encodes(m.7, b7),
        T8::spec_encodes(m.8, b8),
        T9::spec_encodes(m.9, b9),
        T10::spec_encodes(m.10, b10),
        T11::spec_encodes(m.11, b11),
        T12::spec_encodes(m.12, b12),
        T13::spec_encodes(m.13, b13),
        T14::spec_encodes(m.14, b14),
    ensures
        <(T0, T1, T2, T3, T4, T5, T6, T7, T8, T9, T10, T11, T12, T13, T14) as WireFormat>::spec_encodes(m, b0 + b1 + b2 + b3 + b4 + b5 + b6 + b7 + b8 + b9 + b10 + b11 + b12 + b13 + b14),
{
    let bytes = b0 + b1 + b2 + b3 + b4 + b5 + b6 + b7 + b8 + b9 + b10 + b11 + b12 + b13 + b14;
    assert(bytes.subrange(0, (b0.len()) as int) =~= b0);
    assert(bytes.subrange((b0.len()) as int, (b0.len() + b1.len()) as int) =~= b1);
    assert(bytes.subrange((b0.len() + b1.len()) as int, (b0.len() + b1.len() + b2.len()) as int) =~= b2);
    assert(bytes.subrange((b0.len() + b1.len() + b2.len()) as int, (b0.len() + b1.len() + b2.len() + b3.len()) as int) =~= b3);
    assert(bytes.subrange((b0.len() + b1.len() + b2.len() + b3.len()) as int, (b0.len() + b1.len() + b2.len() + b3.len() + b4.len()) as int) =~= b4);
    assert(bytes.subrange((b0.len() + b1.len() + b2.len() + b3.len() + b4.len()) as int, (b0.len() + b1.len() + b2.len() + b3.len() + b4.len() + b5.len()) as int) =~= b5);
    assert(bytes.subrange((b0.len() + b1.len() + b2.len() + b3.len() + b4.len() + b5.len()) as int, (b0.len() + b1.len() + b2.len() + b3.len() + b4.len() + b5.len() + b6.len()) as int) =~= b6);
    assert(bytes.subrange((b0.len() + b1.len() + b2.len() + b3.len() + b4.len() + b5.len() + b6.len()) as int, (b0.len() + b1.len() + b2.len() + b3.len() + b4.len() + b5.len() + b6.len() + b7.len()) as int) =~= b7);
    assert(bytes.subrange((b0.len() + b1.len() + b2.len() + b3.len() + b4.len() + b5.len() + b6.len() + b7.len()) as int, (b0.len() + b1.len() + b2.len() + b3.len() + b4.len() + b5.len() + b6.len() + b7.len() + b8.len()) as int) =~= b8);
    assert(bytes.subrange((b0.len() + b1.len() + b2.len() + b3.len() + b4.len() + b5.len() + b6.len() + b7.len() + b8.len()) as int, (b0.len() + b1.len() + b2.len() + b3.len() + b4.len() + b5.len() + b6.len() + b7.len() + b8.len() + b9.len()) as int) =~= b9);
    assert(bytes.subrange((b0.len() + b1.len() + b2.len() + b3.len() + b4.len() + b5.len() + b6.len() + b7.len() + b8.len() + b9.len()) as int, (b0.len() + b1.len() + b2.len() + b3.len() + b4.len() + b5.len() + b6.len() + b7.len() + b8.len() + b9.len() + b10.len()) as int) =~= b10);
    assert(bytes.subrange((b0.len() + b1.len() + b2.len() + b3.len() + b4.len() + b5.len() + b6.len() + b7.len() + b8.len() + b9.len() + b10.len()) as int, (b0.len() + b1.len() + b2.len() + b3.len() + b4.len() + b5.len() + b6.len() + b7.len() + b8.len() + b9.len() + b10.len() + b11.len()) as int) =~= b11);
    assert(bytes.subrange((b0.len() + b1.len() + b2.len() + b3.len() + b4.len() + b5.len() + b6.len() + b7.len() + b8.len() + b9.len() + b10.len() + b11.len()) as int, (b0.len() + b1.len() + b2.len() + b3.len() + b4.len() + b5.len() + b6.len() + b7.len() + b8.len() + b9.len() + b10.len() + b11.len() + b12.len()) as int) =~= b12);
    assert(bytes.subrange((b0.len() + b1.len() + b2.len() + b3.len() + b4.len() + b5.len() + b6.len() + b7.len() + b8.len() + b9.len() + b10.len() + b11.len() + b12.len()) as int, (b0.len() + b1.len() + b2.len() + b3.len() + b4.len() + b5.len() + b6.len() + b7.len() + b8.len() + b9.len() + b10.len() + b11.len() + b12.len() + b13.len()) as int) =~= b13);
    assert(bytes.subrange((b0.len() + b1.len() + b2.len() + b3.len() + b4.len() + b5.len() + b6.len() + b7.len() + b8.len() + b9.len() + b10.len() + b11.len() + b12.len() + b13.len()) as int, bytes.len() as int) =~= b14);
    let k1: int = (b0.len()) as int;
    let k2: int = (b0.len() + b1.len()) as int;
    let k3: int = (b0.len() + b1.len() + b2.len()) as int;
    let k4: int = (b0.len() + b1.len() + b2.len() + b3.len()) as int;
    let k5: int = (b0.len() + b1.len() + b2.len() + b3.len() + b4.len()) as int;
    let k6: int = (b0.len() + b1.len() + b2.len() + b3.len() + b4.len() + b5.len()) as int;
    let k7: int = (b0.len() + b1.len() + b2.len() + b3.len() + b4.len() + b5.len() + b6.len()) as int;
    let k8: int = (b0.len() + b1.len() + b2.len() + b3.len() + b4.len() + b5.len() + b6.len() + b7.len()) as int;
    let k9: int = (b0.len() + b1.len() + b2.len() + b3.len() + b4.len() + b5.len() + b6.len() + b7.len() + b8.len()) as int;
    let k10: int = (b0.len() + b1.len() + b2.len() + b3.len() + b4.len() + b5.len() + b6.len() + b7.len() + b8.len() + b9.len()) as int;
    let k11: int = (b0.len() + b1.len() + b2.len() + b3.len() + b4.len() + b5.len() + b6.len() + b7.len() + b8.len() + b9.len() + b10.len()) as int;
    let k12: int = (b0.len() + b1.len() + b2.len() + b3.len() + b4.len() + b5.len() + b6.len() + b7.len() + b8.len() + b9.len() + b10.len() + b11.len()) as int;
    let k13: int = (b0.len() + b1.len() + b2.len() + b3.len() + b4.len() + b5.len() + b6.len() + b7.len() + b8.len() + b9.len() + b10.len() + b11.len() + b12.len()) as int;
    let k14: int = (b0.len() + b1.len() + b2.len() + b3.len() + b4.len() + b5.len() + b6.len() + b7.len() + b8.len() + b9.len() + b10.len() + b11.len() + b12.len() + b13.len()) as int;
    assert(exists|k14: int| k13 <= k14 <= bytes.len() && #[trigger] T13::spec_encodes(m.13, bytes.subrange(k13, k14)) && (T14::spec_encodes(m.14, bytes.subrange(k14, bytes.len() as int))));
    assert(exists|k13: int| k12 <= k13 <= bytes.len() && #[trigger] T12::spec_encodes(m.12, bytes.subrange(k12, k13)) && (exists|k14: int| k13 <= k14 <= bytes.len() && #[trigger] T13::spec_encodes(m.13, bytes.subrange(k13, k14)) && (T14::spec_encodes(m.14, bytes.subrange(k14, bytes.len() as int)))));
    assert(exists|k12: int| k11 <= k12 <= bytes.len() && #[trigger] T11::spec_encodes(m.11, bytes.subrange(k11, k12)) && (exists|k13: int| k12 <= k13 <= bytes.len() && #[trigger] T12::spec_encodes(m.12, bytes.subrange(k12, k13)) && (exists|k14: int| k13 <= k14 <= bytes.len() && #[trigger] T13::spec_encodes(m.13, bytes.subrange(k13, k14)) && (T14::spec_encodes(m.14, bytes.subrange(k14, bytes.len() as int))))));
    assert(exists|k11: int| k10 <= k11 <= bytes.len() && #[trigger] T10::spec_encodes(m.10, bytes.subrange(k10, k11)) && (exists|k12: int| k11 <= k12 <= bytes.len() && #[trigger] T11::spec_encodes(m.11, bytes.subrange(k11, k12)) && (exists|k13: int| k12 <= k13 <= bytes.len() && #[trigger] T12::spec_encodes(m.12, bytes.subrange(k12, k13)) && (exists|k14: int| k13 <= k14 <= bytes.len() && #[trigger] T13::spec_encodes(m.13, bytes.subrange(k13, k14)) && (T14::spec_encodes(m.14, bytes.subrange(k14, bytes.len() as int)))))));
    assert(exists|k10: int| k9 <= k10 <= bytes.len() && #[trigger] T9::spec_encodes(m.9, bytes.subrange(k9, k10)) && (exists|k11: int| k10 <= k11 <= bytes.len() && #[trigger] T10::spec_encodes(m.10, bytes.subrange(k10, k11)) && (exists|k12: int| k11 <= k12 <= bytes.len() && #[trigger] T11::spec_encodes(m.11, bytes.subrange(k11, k12)) && (exists|k13: int| k12 <= k13 <= bytes.len() && #[trigger] T12::spec_encodes(m.12, bytes.subrange(k12, k13)) && (exists|k14: int| k13 <= k14 <= bytes.len() && #[trigger] T13::spec_encodes(m.13, bytes.subrange(k13, k14)) && (T14::spec_encodes(m.14, bytes.subrange(k14, bytes.len() as int))))))));
    assert(exists|k9: int| k8 <= k9 <= bytes.len() && #[trigger] T8::spec_encodes(m.8, bytes.subrange(k8, k9)) && (exists|k10: int| k9 <= k10 <= bytes.len() && #[trigger] T9::spec_encodes(m.9, bytes.subrange(k9, k10)) && (exists|k11: int| k10 <= k11 <= bytes.len() && #[trigger] T10::spec_encodes(m.10, bytes.subrange(k10, k11)) && (exists|k12: int| k11 <= k12 <= bytes.len() && #[trigger] T11::spec_encodes(m.11, bytes.subrange(k11, k12)) && (exists|k13: int| k12 <= k13 <= bytes.len() && #[trigger] T12::spec_encodes(m.12, bytes.subrange(k12, k13)) && (exists|k14: int| k13 <= k14 <= bytes.len() && #[trigger] T13::spec_encodes(m.13, bytes.subrange(k13, k14)) && (T14::spec_encodes(m.14, bytes.subrange(k14, bytes.len() as int)))))))));
    assert(exists|k8: int| k7 <= k8 <= bytes.len() && #[trigger] T7::spec_encodes(m.7, bytes.subrange(k7, k8)) && (exists|k9: int| k8 <= k9 <= bytes.len() && #[trigger] T8::spec_encodes(m.8, bytes.subrange(k8, k9)) && (exists|k10: int| k9 <= k10 <= bytes.len() && #[trigger] T9::spec_encodes(m.9, bytes.subrange(k9, k10)) && (exists|k11: int| k10 <= k11 <= bytes.len() && #[trigger] T10::spec_encodes(m.10, bytes.subrange(k10, k11)) && (exists|k12: int| k11 <= k12 <= bytes.len() && #[trigger] T11::spec_encodes(m.11, bytes.subrange(k11, k12)) && (exists|k13: int| k12 <= k13 <= bytes.len() && #[trigger] T12::spec_encodes(m.12, bytes.subrange(k12, k13)) && (exists|k14: int| k13 <= k14 <= bytes.len() && #[trigger] T13::spec_encodes(m.13, bytes.subrange(k13, k14)) && (T14::spec_encodes(m.14, bytes.subrange(k14, bytes.len() as int))))))))));
    assert(exists|k7: int| k6 <= k7 <= bytes.len() && #[trigger] T6::spec_encodes(m.6, bytes.subrange(k6, k7)) && (exists|k8: int| k7 <= k8 <= bytes.len() && #[trigger] T7::spec_encodes(m.7, bytes.subrange(k7, k8)) && (exists|k9: int| k8 <= k9 <= bytes.len() && #[trigger] T8::spec_encodes(m.8, bytes.subrange(k8, k9)) && (exists|k10: int| k9 <= k10 <= bytes.len() && #[trigger] T9::spec_encodes(m.9, bytes.subrange(k9, k10)) && (exists|k11: int| k10 <= k11 <= bytes.len() && #[trigger] T10::spec_encodes(m.10, bytes.subrange(k10, k11)) && (exists|k12: int| k11 <= k12 <= bytes.len() && #[trigger] T11::spec_encodes(m.11, bytes.subrange(k11, k12)) && (exists|k13: int| k12 <= k13 <= bytes.len() && #[trigger] T12::spec_encodes(m.12, bytes.subrange(k12, k13)) && (exists|k14: int| k13 <= k14 <= bytes.len() && #[trigger] T13::spec_encodes(m.13, bytes.subrange(k13, k14)) && (T14::spec_encodes(m.14, bytes.subrange(k14, bytes.len() as int)))))))))));
    assert(exists|k6: int| k5 <= k6 <= bytes.len() && #[trigger] T5::spec_encodes(m.5, bytes.subrange(k5, k6)) && (exists|k7: int| k6 <= k7 <= bytes.len() && #[trigger] T6::spec_encodes(m.6, bytes.subrange(k6, k7)) && (exists|k8: int| k7 <= k8 <= bytes.len() && #[trigger] T7::spec_encodes(m.7, bytes.subrange(k7, k8)) && (exists|k9: int| k8 <= k9 <= bytes.len() && #[trigger] T8::spec_encodes(m.8, bytes.subrange(k8, k9)) && (exists|k10: int| k9 <= k10 <= bytes.len() && #[trigger] T9::spec_encodes(m.9, bytes.subrange(k9, k10)) && (exists|k11: int| k10 <= k11 <= bytes.len() && #[trigger] T10::spec_encodes(m.10, bytes.subrange(k10, k11)) && (exists|k12: int| k11 <= k12 <= bytes.len() && #[trigger] T11::spec_encodes(m.11, bytes.subrange(k11, k12)) && (exists|k13: int| k12 <= k13 <= bytes.len() && #[trigger] T12::spec_encodes(m.12, bytes.subrange(k12, k13)) && (exists|k14: int| k13 <= k14 <= bytes.len() && #[trigger] T13::spec_encodes(m.13, bytes.subrange(k13, k14)) && (T14::spec_encodes(m.14, bytes.subrange(k14, bytes.len() as int))))))))))));
    assert(exists|k5: int| k4 <= k5 <= bytes.len() && #[trigger] T4::spec_encodes(m.4, bytes.subrange(k4, k5)) && (exists|k6: int| k5 <= k6 <= bytes.len() && #[trigger] T5::spec_encodes(m.5, bytes.subrange(k5, k6)) && (exists|k7: int| k6 <= k7 <= bytes.len() && #[trigger] T6::spec_encodes(m.6, bytes.subrange(k6, k7)) && (exists|k8: int| k7 <= k8 <= bytes.len() && #[trigger] T7::spec_encodes(m.7, bytes.subrange(k7, k8)) && (exists|k9: int| k8 <= k9 <= bytes.len() && #[trigger] T8::spec_encodes(m.8, bytes.subrange(k8, k9)) && (exists|k10: int| k9 <= k10 <= bytes.len() && #[trigger] T9::spec_encodes(m.9, bytes.subrange(k9, k10)) && (exists|k11: int| k10 <= k11 <= bytes.len() && #[trigger] T10::spec_encodes(m.10, bytes.subrange(k10, k11)) && (exists|k12: int| k11 <= k12 <= bytes.len() && #[trigger] T11::spec_encodes(m.11, bytes.subrange(k11, k12)) && (exists|k13: int| k12 <= k13 <= bytes.len() && #[trigger] T12::spec_encodes(m.12, bytes.subrange(k12, k13)) && (exists|k14: int| k13 <= k14 <= bytes.len() && #[trigger] T13::spec_encodes(m.13, bytes.subrange(k13, k14)) && (T14::spec_encodes(m.14, bytes.subrange(k14, bytes.len() as int)))))))))))));
    assert(exists|k4: int| k3 <= k4 <= bytes.len() && #[trigger] T3::spec_encodes(m.3, bytes.subrange(k3, k4)) && (exists|k5: int| k4 <= k5 <= bytes.len() && #[trigger] T4::spec_encodes(m.4, bytes.subrange(k4, k5)) && (exists|k6: int| k5 <= k6 <= bytes.len() && #[trigger] T5::spec_encodes(m.5, bytes.subrange(k5, k6)) && (exists|k7: int| k6 <= k7 <= bytes.len() && #[trigger] T6::spec_encodes(m.6, bytes.subrange(k6, k7)) && (exists|k8: int| k7 <= k8 <= bytes.len() && #[trigger] T7::spec_encodes(m.7, bytes.subrange(k7, k8)) && (exists|k9: int| k8 <= k9 <= bytes.len() && #[trigger] T8::spec_encodes(m.8, bytes.subrange(k8, k9)) && (exists|k10: int| k9 <= k10 <= bytes.len() && #[trigger] T9::spec_encodes(m.9, bytes.subrange(k9, k10)) && (exists|k11: int| k10 <= k11 <= bytes.len() && #[trigger] T10::spec_encodes(m.10, bytes.subrange(k10, k11)) && (exists|k12: int| k11 <= k12 <= bytes.len() && #[trigger] T11::spec_encodes(m.11, bytes.subrange(k11, k12)) && (exists|k13: int| k12 <= k13 <= bytes.len() && #[trigger] T12::spec_encodes(m.12, bytes.subrange(k12, k13)) && (exists|k14: int| k13 <= k14 <= bytes.len() && #[trigger] T13::spec_encodes(m.13, bytes.subrange(k13, k14)) && (T14::spec_encodes(m.14, bytes.subrange(k14, bytes.len() as int))))))))))))));
    assert(exists|k3: int| k2 <= k3 <= bytes.len() && #[trigger] T2::spec_encodes(m.2, bytes.subrange(k2, k3)) && (exists|k4: int| k3 <= k4 <= bytes.len() && #[trigger] T3::spec_encodes(m.3, bytes.subrange(k3, k4)) && (exists|k5: int| k4 <= k5 <= bytes.len() && #[trigger] T4::spec_encodes(m.4, bytes.subrange(k4, k5)) && (exists|k6: int| k5 <= k6 <= bytes.len() && #[trigger] T5::spec_encodes(m.5, bytes.subrange(k5, k6)) && (exists|k7: int| k6 <= k7 <= bytes.len() && #[trigger] T6::spec_encodes(m.6, bytes.subrange(k6, k7)) && (exists|k8: int| k7 <= k8 <= bytes.len() && #[trigger] T7::spec_encodes(m.7, bytes.subrange(k7, k8)) && (exists|k9: int| k8 <= k9 <= bytes.len() && #[trigger] T8::spec_encodes(m.8, bytes.subrange(k8, k9)) && (exists|k10: int| k9 <= k10 <= bytes.len() && #[trigger] T9::spec_encodes(m.9, bytes.subrange(k9, k10)) && (exists|k11: int| k10 <= k11 <= bytes.len() && #[trigger] T10::spec_encodes(m.10, bytes.subrange(k10, k11)) && (exists|k12: int| k11 <= k12 <= bytes.len() && #[trigger] T11::spec_encodes(m.11, bytes.subrange(k11, k12)) && (exists|k13: int| k12 <= k13 <= bytes.len() && #[trigger] T12::spec_encodes(m.12, bytes.subrange(k12, k13)) && (exists|k14: int| k13 <= k14 <= bytes.len() && #[trigger] T13::spec_encodes(m.13, bytes.subrange(k13, k14)) && (T14::spec_encodes(m.14, bytes.subrange(k14, bytes.len() as int)))))))))))))));
    assert(exists|k2: int| k1 <= k2 <= bytes.len() && #[trigger] T1::spec_encodes(m.1, bytes.subrange(k1, k2)) && (exists|k3: int| k2 <= k3 <= bytes.len() && #[trigger] T2::spec_encodes(m.2, bytes.subrange(k2, k3)) && (exists|k4: int| k3 <= k4 <= bytes.len() && #[trigger] T3::spec_encodes(m.3, bytes.subrange(k3, k4)) && (exists|k5: int| k4 <= k5 <= bytes.len() && #[trigger] T4::spec_encodes(m.4, bytes.subrange(k4, k5)) && (exists|k6: int| k5 <= k6 <= bytes.len() && #[trigger] T5::spec_encodes(m.5, bytes.subrange(k5, k6)) && (exists|k7: int| k6 <= k7 <= bytes.len() && #[trigger] T6::spec_encodes(m.6, bytes.subrange(k6, k7)) && (exists|k8: int| k7 <= k8 <= bytes.len() && #[trigger] T7::spec_encodes(m.7, bytes.subrange(k7, k8)) && (exists|k9: int| k8 <= k9 <= bytes.len() && #[trigger] T8::spec_encodes(m.8, bytes.subrange(k8, k9)) && (exists|k10: int| k9 <= k10 <= bytes.len() && #[trigger] T9::spec_encodes(m.9, bytes.subrange(k9, k10)) && (exists|k11: int| k10 <= k11 <= bytes.len() && #[trigger] T10::spec_encodes(m.10, bytes.subrange(k10, k11)) && (exists|k12: int| k11 <= k12 <= bytes.len() && #[trigger] T11::spec_encodes(m.11, bytes.subrange(k11, k12)) && (exists|k13: int| k12 <= k13 <= bytes.len() && #[trigger] T12::spec_encodes(m.12, bytes.subrange(k12, k13)) && (exists|k14: int| k13 <= k14 <= bytes.len() && #[trigger] T13::spec_encodes(m.13, bytes.subrange(k13, k14)) && (T14::spec_encodes(m.14, bytes.subrange(k14, bytes.len() as int))))))))))))))));
    assert(exists|k1: int| 0 <= k1 <= bytes.len() && #[trigger] T0::spec_encodes(m.0, bytes.subrange(0, k1)) && (exists|k2: int| k1 <= k2 <= bytes.len() && #[trigger] T1::spec_encodes(m.1, bytes.subrange(k1, k2)) && (exists|k3: int| k2 <= k3 <= bytes.len() && #[trigger] T2::spec_encodes(m.2, bytes.subrange(k2, k3)) && (exists|k4: int| k3 <= k4 <= bytes.len() && #[trigger] T3::spec_encodes(m.3, bytes.subrange(k3, k4)) && (exists|k5: int| k4 <= k5 <= bytes.len() && #[trigger] T4::spec_encodes(m.4, bytes.subrange(k4, k5)) && (exists|k6: int| k5 <= k6 <= bytes.len() && #[trigger] T5::spec_encodes(m.5, bytes.subrange(k5, k6)) && (exists|k7: int| k6 <= k7 <= bytes.len() && #[trigger] T6::spec_encodes(m.6, bytes.subrange(k6, k7)) && (exists|k8: int| k7 <= k8 <= bytes.len() && #[trigger] T7::spec_encodes(m.7, bytes.subrange(k7, k8)) && (exists|k9: int| k8 <= k9 <= bytes.len() && #[trigger] T8::spec_encodes(m.8, bytes.subrange(k8, k9)) && (exists|k10: int| k9 <= k10 <= bytes.len() && #[trigger] T9::spec_encodes(m.9, bytes.subrange(k9, k10)) && (exists|k11: int| k10 <= k11 <= bytes.len() && #[trigger] T10::spec_encodes(m.10, bytes.subrange(k10, k11)) && (exists|k12: int| k11 <= k12 <= bytes.len() && #[trigger] T11::spec_encodes(m.11, bytes.subrange(k11, k12)) && (exists|k13: int| k12 <= k13 <= bytes.len() && #[trigger] T12::spec_encodes(m.12, bytes.subrange(k12, k13)) && (exists|k14: int| k13 <= k14 <= bytes.len() && #[trigger] T13::spec_encodes(m.13, bytes.subrange(k13, k14)) && (T14::spec_encodes(m.14, bytes.subrange(k14, bytes.len() as int)))))))))))))))));
}

/// An encoding of a tuple of 15 fields cuts into its fields' encodings, in
/// field order, at the positions `cuts`.
#[verifier::spinoff_prover]
#[verifier::rlimit(60)]
pub proof fn lemma_tuple15_cuts_into_fields<T0: WireFormat, T1: WireFormat, T2: WireFormat, T3: WireFormat, T4: WireFormat, T5: WireFormat, T6: WireFormat, T7: WireFormat, T8: WireFormat, T9: WireFormat, T10: WireFormat, T11: WireFormat, T12: WireFormat, T13: WireFormat, T14: WireFormat>(m: (T0::Model, T1::Model, T2::Model, T3::Model, T4::Model, T5::Model, T6::Model, T7::Model, T8::Model, T9::Model, T10::Model, T11::Model, T12::Model, T13::Model, T14::Model), bytes: Seq<u8>) -> (cuts: Seq<int>)
    requires
        <(T0, T1, T2, T3, T4, T5, T6, T7, T8, T9, T10, T11, T12, T13, T14) as WireFormat>::spec_encodes(m, bytes),
    ensures
        cuts.len() == 16,
        cuts[0] == 0,
        cuts[15] == bytes.len(),
        cuts[0] <= cuts[1],
        cuts[1] <= cuts[2],
        cuts[2] <= cuts[3],
        cuts[3] <= cuts[4],
        cuts[4] <= cuts[5],
        cuts[5] <= cuts[6],
        cuts[6] <= cuts[7],
        cuts[7] <= cuts[8],
        cuts[8] <= cuts[9],
        cuts[9] <= cuts[10],
        cuts[10] <= cuts[11],
        cuts[11] <= cuts[12],
        cuts[12] <= cuts[13],
        cuts[13] <= cuts[14],
        cuts[14] <= cuts[15],
        T0::spec_encodes(m.0, bytes.subrange(cuts[0], cuts[1])),
        T1::spec_encodes(m.1, bytes.subrange(cuts[1], cuts[2])),
        T2::spec_encodes(m.2, bytes.subrange(cuts[2], cuts[3])),
        T3::spec_encodes(m.3, bytes.subrange(cuts[3], cuts[4])),
        T4::spec_encodes(m.4, bytes.subrange(cuts[4], cuts[5])),
        T5::spec_encodes(m.5, bytes.subrange(cuts[5], cuts[6])),
        T6::spec_encodes(m.6, bytes.subrange(cuts[6], cuts[7])),
        T7::spec_encodes(m.7, bytes.subrange(cuts[7], cuts[8])),
        T8::spec_encodes(m.8, bytes.subrange(cuts[8], cuts[9])),
        T9::spec_encodes(m.9, bytes.subrange(cuts[9], cuts[10])),
        T10::spec_encodes(m.10, bytes.subrange(cuts[10], cuts[11])),
        T11::spec_encodes(m.11, bytes.subrange(cuts[11], cuts[12])),
        T12::spec_encodes(m.12, bytes.subrange(cuts[12], cuts[13])),
        T13::spec_encodes(m.13, bytes.subrange(cuts[13], cuts[14])),
        T14::spec_encodes(m.14, bytes.subrange(cuts[14], cuts[15])),
{
    let k1 = choose|k1: int| 0 <= k1 <= bytes.len() && #[trigger] T0::spec_encodes(m.0, bytes.subrange(0, k1)) && (exists|k2: int| k1 <= k2 <= bytes.len() && #[trigger] T1::spec_encodes(m.1, bytes.subrange(k1, k2)) && (exists|k3: int| k2 <= k3 <= bytes.len() && #[trigger] T2::spec_encodes(m.2, bytes.subrange(k2, k3)) && (exists|k4: int| k3 <= k4 <= bytes.len() && #[trigger] T3::spec_encodes(m.3, bytes.subrange(k3, k4)) && (exists|k5: int| k4 <= k5 <= bytes.len() && #[trigger] T4::spec_encodes(m.4, bytes.subrange(k4, k5)) && (exists|k6: int| k5 <= k6 <= bytes.len() && #[trigger] T5::spec_encodes(m.5, bytes.subrange(k5, k6)) && (exists|k7: int| k6 <= k7 <= bytes.len() && #[trigger] T6::spec_encodes(m.6, bytes.subrange(k6, k7)) && (exists|k8: int| k7 <= k8 <= bytes.len() && #[trigger] T7::spec_encodes(m.7, bytes.subrange(k7, k8)) && (exists|k9: int| k8 <= k9 <= bytes.len() && #[trigger] T8::spec_encodes(m.8, bytes.subrange(k8, k9)) && (exists|k10: int| k9 <= k10 <= bytes.len() && #[trigger] T9::spec_encodes(m.9, bytes.subrange(k9, k10)) && (exists|k11: int| k10 <= k11 <= bytes.len() && #[trigger] T10::spec_encodes(m.10, bytes.subrange(k10, k11)) && (exists|k12: int| k11 <= k12 <= bytes.len() && #[trigger] T11::spec_encodes(m.11, bytes.subrange(k11, k12)) && (exists|k13: int| k12 <= k13 <= bytes.len() && #[trigger] T12::spec_encodes(m.12, bytes.subrange(k12, k13)) && (exists|k14: int| k13 <= k14 <= bytes.len() && #[trigger] T13::spec_encodes(m.13, bytes.subrange(k13, k14)) && (T14::spec_encodes(m.14, bytes.subrange(k14, bytes.len() as int))))))))))))))));
    let k2 = choose|k2: int| k1 <= k2 <= bytes.len() && #[trigger] T1::spec_encodes(m.1, bytes.subrange(k1, k2)) && (exists|k3: int| k2 <= k3 <= bytes.len() && #[trigger] T2::spec_encodes(m.2, bytes.subrange(k2, k3)) && (exists|k4: int| k3 <= k4 <= bytes.len() && #[trigger] T3::spec_encodes(m.3, bytes.subrange(k3, k4)) && (exists|k5: int| k4 <= k5 <= bytes.len() && #[trigger] T4::spec_encodes(m.4, bytes.subrange(k4, k5)) && (exists|k6: int| k5 <= k6 <= bytes.len() && #[trigger] T5::spec_encodes(m.5, bytes.subrange(k5, k6)) && (exists|k7: int| k6 <= k7 <= bytes.len() && #[trigger] T6::spec_encodes(m.6, bytes.subrange(k6, k7)) && (exists|k8: int| k7 <= k8 <= bytes.len() && #[trigger] T7::spec_encodes(m.7, bytes.subrange(k7, k8)) && (exists|k9: int| k8 <= k9 <= bytes.len() && #[trigger] T8::spec_encodes(m.8, bytes.subrange(k8, k9)) && (exists|k10: int| k9 <= k10 <= bytes.len() && #[trigger] T9::spec_encodes(m.9, bytes.subrange(k9, k10)) && (exists|k11: int| k10 <= k11 <= bytes.len() && #[trigger] T10::spec_encodes(m.10, bytes.subrange(k10, k11)) && (exists|k12: int| k11 <= k12 <= bytes.len() && #[trigger] T11::spec_encodes(m.11, bytes.subrange(k11, k12)) && (exists|k13: int| k12 <= k13 <= bytes.len() && #[trigger] T12::spec_encodes(m.12, bytes.subrange(k12, k13)) && (exists|k14: int| k13 <= k14 <= bytes.len() && #[trigger] T13::spec_encodes(m.13, bytes.subrange(k13, k14)) && (T14::spec_encodes(m.14, bytes.subrange(k14, bytes.len() as int)))))))))))))));
    let k3 = choose|k3: int| k2 <= k3 <= bytes.len() && #[trigger] T2::spec_encodes(m.2, bytes.subrange(k2, k3)) && (exists|k4: int| k3 <= k4 <= bytes.len() && #[trigger] T3::spec_encodes(m.3, bytes.subrange(k3, k4)) && (exists|k5: int| k4 <= k5 <= bytes.len() && #[trigger] T4::spec_encodes(m.4, bytes.subrange(k4, k5)) && (exists|k6: int| k5 <= k6 <= bytes.len() && #[trigger] T5::spec_encodes(m.5, bytes.subrange(k5, k6)) && (exists|k7: int| k6 <= k7 <= bytes.len() && #[trigger] T6::spec_encodes(m.6, bytes.subrange(k6, k7)) && (exists|k8: int| k7 <= k8 <= bytes.len() && #[trigger] T7::spec_encodes(m.7, bytes.subrange(k7, k8)) && (exists|k9: int| k8 <= k9 <= bytes.len() && #[trigger] T8::spec_encodes(m.8, bytes.subrange(k8, k9)) && (exists|k10: int| k9 <= k10 <= bytes.len() && #[trigger] T9::spec_encodes(m.9, bytes.subrange(k9, k10)) && (exists|k11: int| k10 <= k11 <= bytes.len() && #[trigger] T10::spec_encodes(m.10, bytes.subrange(k10, k11)) && (exists|k12: int| k11 <= k12 <= bytes.len() && #[trigger] T11::spec_encodes(m.11, bytes.subrange(k11, k12)) && (exists|k13: int| k12 <= k13 <= bytes.len() && #[trigger] T12::spec_encodes(m.12, bytes.subrange(k12, k13)) && (exists|k14: int| k13 <= k14 <= bytes.len() && #[trigger] T13::spec_encodes(m.13, bytes.subrange(k13, k14)) && (T14::spec_encodes(m.14, bytes.subrange(k14, bytes.len() as int))))))))))))));
    let k4 = choose|k4: int| k3 <= k4 <= bytes.len() && #[trigger] T3::spec_encodes(m.3, bytes.subrange(k3, k4)) && (exists|k5: int| k4 <= k5 <= bytes.len() && #[trigger] T4::spec_encodes(m.4, bytes.subrange(k4, k5)) && (exists|k6: int| k5 <= k6 <= bytes.len() && #[trigger] T5::spec_encodes(m.5, bytes.subrange(k5, k6)) && (exists|k7: int| k6 <= k7 <= bytes.len() && #[trigger] T6::spec_encodes(m.6, bytes.subrange(k6, k7)) && (exists|k8: int| k7 <= k8 <= bytes.len() && #[trigger] T7::spec_encodes(m.7, bytes.subrange(k7, k8)) && (exists|k9: int| k8 <= k9 <= bytes.len() && #[trigger] T8::spec_encodes(m.8, bytes.subrange(k8, k9)) && (exists|k10: int| k9 <= k10 <= bytes.len() && #[trigger] T9::spec_encodes(m.9, bytes.subrange(k9, k10)) && (exists|k11: int| k10 <= k11 <= bytes.len() && #[trigger] T10::spec_encodes(m.10, bytes.subrange(k10, k11)) && (exists|k12: int| k11 <= k12 <= bytes.len() && #[trigger] T11::spec_encodes(m.11, bytes.subrange(k11, k12)) && (exists|k13: int| k12 <= k13 <= bytes.len() && #[trigger] T12::spec_encodes(m.12, bytes.subrange(k12, k13)) && (exists|k14: int| k13 <= k14 <= bytes.len() && #[trigger] T13::spec_encodes(m.13, bytes.subrange(k13, k14)) && (T14::spec_encodes(m.14, bytes.subrange(k14, bytes.len() as int)))))))))))));
    let k5 = choose|k5: int| k4 <= k5 <= bytes.len() && #[trigger] T4::spec_encodes(m.4, bytes.subrange(k4, k5)) && (exists|k6: int| k5 <= k6 <= bytes.len() && #[trigger] T5::spec_encodes(m.5, bytes.subrange(k5, k6)) && (exists|k7: int| k6 <= k7 <= bytes.len() && #[trigger] T6::spec_encodes(m.6, bytes.subrange(k6, k7)) && (exists|k8: int| k7 <= k8 <= bytes.len() && #[trigger] T7::spec_encodes(m.7, bytes.subrange(k7, k8)) && (exists|k9: int| k8 <= k9 <= bytes.len() && #[trigger] T8::spec_encodes(m.8, bytes.subrange(k8, k9)) && (exists|k10: int| k9 <= k10 <= bytes.len() && #[trigger] T9::spec_encodes(m.9, bytes.subrange(k9, k10)) && (exists|k11: int| k10 <= k11 <= bytes.len() && #[trigger] T10::spec_encodes(m.10, bytes.subrange(k10, k11)) && (exists|k12: int| k11 <= k12 <= bytes.len() && #[trigger] T11::spec_encodes(m.11, bytes.subrange(k11, k12)) && (exists|k13: int| k12 <= k13 <= bytes.len() && #[trigger] T12::spec_encodes(m.12, bytes.subrange(k12, k13)) && (exists|k14: int| k13 <= k14 <= bytes.len() && #[trigger] T13::spec_encodes(m.13, bytes.subrange(k13, k14)) && (T14::spec_encodes(m.14, bytes.subrange(k14, bytes.len() as int))))))))))));
    let k6 = choose|k6: int| k5 <= k6 <= bytes.len() && #[trigger] T5::spec_encodes(m.5, bytes.subrange(k5, k6)) && (exists|k7: int| k6 <= k7 <= bytes.len() && #[trigger] T6::spec_encodes(m.6, bytes.subrange(k6, k7)) && (exists|k8: int| k7 <= k8 <= bytes.len() && #[trigger] T7::spec_encodes(m.7, bytes.subrange(k7, k8)) && (exists|k9: int| k8 <= k9 <= bytes.len() && #[trigger] T8::spec_encodes(m.8, bytes.subrange(k8, k9)) && (exists|k10: int| k9 <= k10 <= bytes.len() && #[trigger] T9::spec_encodes(m.9, bytes.subrange(k9, k10)) && (exists|k11: int| k10 <= k11 <= bytes.len() && #[trigger] T10::spec_encodes(m.10, bytes.subrange(k10, k11)) && (exists|k12: int| k11 <= k12 <= bytes.len() && #[trigger] T11::spec_encodes(m.11, bytes.subrange(k11, k12)) && (exists|k13: int| k12 <= k13 <= bytes.len() && #[trigger] T12::spec_encodes(m.12, bytes.subrange(k12, k13)) && (exists|k14: int| k13 <= k14 <= bytes.len() && #[trigger] T13::spec_encodes(m.13, bytes.subrange(k13, k14)) && (T14::spec_encodes(m.14, bytes.subrange(k14, bytes.len() as int)))))))))));
    let k7 = choose|k7: int| k6 <= k7 <= bytes.len() && #[trigger] T6::spec_encodes(m.6, bytes.subrange(k6, k7)) && (exists|k8: int| k7 <= k8 <= bytes.len() && #[trigger] T7::spec_encodes(m.7, bytes.subrange(k7, k8)) && (exists|k9: int| k8 <= k9 <= bytes.len() && #[trigger] T8::spec_encodes(m.8, bytes.subrange(k8, k9)) && (exists|k10: int| k9 <= k10 <= bytes.len() && #[trigger] T9::spec_encodes(m.9, bytes.subrange(k9, k10)) && (exists|k11: int| k10 <= k11 <= bytes.len() && #[trigger] T10::spec_encodes(m.10, bytes.subrange(k10, k11)) && (exists|k12: int| k11 <= k12 <= bytes.len() && #[trigger] T11::spec_encodes(m.11, bytes.subrange(k11, k12)) && (exists|k13: int| k12 <= k13 <= bytes.len() && #[trigger] T12::spec_encodes(m.12, bytes.subrange(k12, k13)) && (exists|k14: int| k13 <= k14 <= bytes.len() && #[trigger] T13::spec_encodes(m.13, bytes.subrange(k13, k14)) && (T14::spec_encodes(m.14, bytes.subrange(k14, bytes.len() as int))))))))));
    let k8 = choose|k8: int| k7 <= k8 <= bytes.len() && #[trigger] T7::spec_encodes(m.7, bytes.subrange(k7, k8)) && (exists|k9: int| k8 <= k9 <= bytes.len() && #[trigger] T8::spec_encodes(m.8, bytes.subrange(k8, k9)) && (exists|k10: int| k9 <= k10 <= bytes.len() && #[trigger] T9::spec_encodes(m.9, bytes.subrange(k9, k10)) && (exists|k11: int| k10 <= k11 <= bytes.len() && #[trigger] T10::spec_encodes(m.10, bytes.subrange(k10, k11)) && (exists|k12: int| k11 <= k12 <= bytes.len() && #[trigger] T11::spec_encodes(m.11, bytes.subrange(k11, k12)) && (exists|k13: int| k12 <= k13 <= bytes.len() && #[trigger] T12::spec_encodes(m.12, bytes.subrange(k12, k13)) && (exists|k14: int| k13 <= k14 <= bytes.len() && #[trigger] T13::spec_encodes(m.13, bytes.subrange(k13, k14)) && (T14::spec_encodes(m.14, bytes.subrange(k14, bytes.len() as int)))))))));
    let k9 = choose|k9: int| k8 <= k9 <= bytes.len() && #[trigger] T8::spec_encodes(m.8, bytes.subrange(k8, k9)) && (exists|k10: int| k9 <= k10 <= bytes.len() && #[trigger] T9::spec_encodes(m.9, bytes.subrange(k9, k10)) && (exists|k11: int| k10 <= k11 <= bytes.len() && #[trigger] T10::spec_encodes(m.10, bytes.subrange(k10, k11)) && (exists|k12: int| k11 <= k12 <= bytes.len() && #[trigger] T11::spec_encodes(m.11, bytes.subrange(k11, k12)) && (exists|k13: int| k12 <= k13 <= bytes.len() && #[trigger] T12::spec_encodes(m.12, bytes.subrange(k12, k13)) && (exists|k14: int| k13 <= k14 <= bytes.len() && #[trigger] T13::spec_encodes(m.13, bytes.subrange(k13, k14)) && (T14::spec_encodes(m.14, bytes.subrange(k14, bytes.len() as int))))))));
    let k10 = choose|k10: int| k9 <= k10 <= bytes.len() && #[trigger] T9::spec_encodes(m.9, bytes.subrange(k9, k10)) && (exists|k11: int| k10 <= k11 <= bytes.len() && #[trigger] T10::spec_encodes(m.10, bytes.subrange(k10, k11)) && (exists|k12: int| k11 <= k12 <= bytes.len() && #[trigger] T11::spec_encodes(m.11, bytes.subrange(k11, k12)) && (exists|k13: int| k12 <= k13 <= bytes.len() && #[trigger] T12::spec_encodes(m.12, bytes.subrange(k12, k13)) && (exists|k14: int| k13 <= k14 <= bytes.len() && #[trigger] T13::spec_encodes(m.13, bytes.subrange(k13, k14)) && (T14::spec_encodes(m.14, bytes.subrange(k14, bytes.len() as int)))))));
    let k11 = choose|k11: int| k10 <= k11 <= bytes.len() && #[trigger] T10::spec_encodes(m.10, bytes.subrange(k10, k11)) && (exists|k12: int| k11 <= k12 <= bytes.len() && #[trigger] T11::spec_encodes(m.11, bytes.subrange(k11, k12)) && (exists|k13: int| k12 <= k13 <= bytes.len() && #[trigger] T12::spec_encodes(m.12, bytes.subrange(k12, k13)) && (exists|k14: int| k13 <= k14 <= bytes.len() && #[trigger] T13::spec_encodes(m.13, bytes.subrange(k13, k14)) && (T14::spec_encodes(m.14, bytes.subrange(k14, bytes.len() as int))))));
    let k12 = choose|k12: int| k11 <= k12 <= bytes.len() && #[trigger] T11::spec_encodes(m.11, bytes.subrange(k11, k12)) && (exists|k13: int| k12 <= k13 <= bytes.len() && #[trigger] T12::spec_encodes(m.12, bytes.subrange(k12, k13)) && (exists|k14: int| k13 <= k14 <= bytes.len() && #[trigger] T13::spec_encodes(m.13, bytes.subrange(k13, k14)) && (T14::spec_encodes(m.14, bytes.subrange(k14, bytes.len() as int)))));
    let k13 = choose|k13: int| k12 <= k13 <= bytes.len() && #[trigger] T12::spec_encodes(m.12, bytes.subrange(k12, k13)) && (exists|k14: int| k13 <= k14 <= bytes.len() && #[trigger] T13::spec_encodes(m.13, bytes.subrange(k13, k14)) && (T14::spec_encodes(m.14, bytes.subrange(k14, bytes.len() as int))));
    let k14 = choose|k14: int| k13 <= k14 <= bytes.len() && #[trigger] T13::spec_encodes(m.13, bytes.subrange(k13, k14)) && (T14::spec_encodes(m.14, bytes.subrange(k14, bytes.len() as int)));
    seq![0int, k1, k2, k3, k4, k5, k6, k7, k8, k9, k10, k11, k12, k13, k14, bytes.len() as int]
}

/// A tuple of 16 fields is encoded by its fields' encodings put one after
/// another in field order.
#[verifier::spinoff_prover]
#[verifier::rlimit(60)]
pub proof fn lemma_tuple16_encodes_fields_in_order<T0: WireFormat, T1: WireFormat, T2: WireFormat, T3: WireFormat, T4: WireFormat, T5: WireFormat, T6: WireFormat, T7: WireFormat, T8: WireFormat, T9: WireFormat, T10: WireFormat, T11: WireFormat, T12: WireFormat, T13: WireFormat, T14: WireFormat, T15: WireFormat>(m: (T0::Model, T1::Model, T2::Model, T3::Model, T4::Model, T5::Model, T6::Model, T7::Model, T8::Model, T9::Model, T10::Model, T11::Model, T12::Model, T13::Model, T14::Model, T15::Model), b0: Seq<u8>, b1: Seq<u8>, b2: Seq<u8>, b3: Seq<u8>, b4: Seq<u8>, b5: Seq<u8>, b6: Seq<u8>, b7: Seq<u8>, b8: Seq<u8>, b9: Seq<u8>, b10: Seq<u8>, b11: Seq<u8>, b12: Seq<u8>, b13: Seq<u8>, b14: Seq<u8>, b15: Seq<u8>)
    requires
        T0::spec_encodes(m.0, b0),
        T1::spec_encodes(m.1, b1),
        T2::spec_encodes(m.2, b2),
        T3::spec_encodes(m.3, b3),
        T4::spec_encodes(m.4, b4),
        T5::spec_encodes(m.5, b5),
        T6::spec_encodes(m.6, b6),
        T7::spec_encodes(m.7, b7),
        T8::spec_encodes(m.8, b8),
        T9::spec_encodes(m.9, b9),
        T10::spec_encodes(m.10, b10),
        T11::spec_encodes(m.11, b11),
        T12::spec_encodes(m.12, b12),
        T13::spec_encodes(m.13, b13),
        T14::spec_encodes(m.14, b14),
        T15::spec_encodes(m.15, b15),
    ensures
        <(T0, T1, T2, T3, T4, T5, T6, T7, T8, T9, T10, T11, T12, T13, T14, T15) as WireFormat>::spec_encodes(m, b0 + b1 + b2 + b3 + b4 + b5 + b6 + b7 + b8 + b9 + b10 + b11 + b12 + b13 + b14 + b15),
{
    let bytes = b0 + b1 + b2 + b3 + b4 + b5 + b6 + b7 + b8 + b9 + b10 + b11 + b12 + b13 + b14 + b15;
    assert(bytes.subrange(0, (b0.len()) as int) =~= b0);
    assert(bytes.subrange((b0.len()) as int, (b0.len() + b1.len()) as int) =~= b1);
    assert(bytes.subrange((b0.len() + b1.len()) as int, (b0.len() + b1.len() + b2.len()) as int) =~= b2);
    assert(bytes.subrange((b0.len() + b1.len() + b2.len()) as int, (b0.len() + b1.len() + b2.len() + b3.len()) as int) =~= b3);
    assert(bytes.subrange((b0.len() + b1.len() + b2.len() + b3.len()) as int, (b0.len() + b1.len() + b2.len() + b3.len() + b4.len()) as int) =~= b4);
    assert(bytes.subrange((b0.len() + b1.len() + b2.len() + b3.len() + b4.len()) as int, (b0.len() + b1.len() + b2.len() + b3.len() + b4.len() + b5.len()) as int) =~= b5);
    assert(bytes.subrange((b0.len() + b1.len() + b2.len() + b3.len() + b4.len() + b5.len()) as int, (b0.len() + b1.len() + b2.len() + b3.len() + b4.len() + b5.len() + b6.len()) as int) =~= b6);
    assert(bytes.subrange((b0.len() + b1.len() + b2.len() + b3.len() + b4.len() + b5.len() + b6.len()) as int, (b0.len() + b1.len() + b2.len() + b3.len() + b4.len() + b5.len() + b6.len() + b7.len()) as int) =~= b7);
    assert(bytes.subrange((b0.len() + b1.len() + b2.len() + b3.len() + b4.len() + b5.len() + b6.len() + b7.len()) as int, (b0.len() + b1.len() + b2.len() + b3.len() + b4.len() + b5.len() + b6.len() + b7.len() + b8.len()) as int) =~= b8);
    assert(bytes.subrange((b0.len() + b1.len() + b2.len() + b3.len() + b4.len() + b5.len() + b6.len() + b7.len() + b8.len()) as int, (b0.len() + b1.len() + b2.len() + b3.len() + b4.len() + b5.len() + b6.len() + b7.len() + b8.len() + b9.len()) as int) =~= b9);
    assert(bytes.subrange((b0.len() + b1.len() + b2.len() + b3.len() + b4.len() + b5.len() + b6.len() + b7.len() + b8.len() + b9.len()) as int, (b0.len() + b1.len() + b2.len() + b3.len() + b4.len() + b5.len() + b6.len() + b7.len() + b8.len() + b9.len() + b10.len()) as int) =~= b10);
    assert(bytes.subrange((b0.len() + b1.len() + b2.len() + b3.len() + b4.len() + b5.len() + b6.len() + b7.len() + b8.len() + b9.len() + b10.len()) as int, (b0.len() + b1.len() + b2.len() + b3.len() + b4.len() + b5.len() + b6.len() + b7.len() + b8.len() + b9.len() + b10.len() + b11.len()) as int) =~= b11);
    assert(bytes.subrange((b0.len() + b1.len() + b2.len() + b3.len() + b4.len() + b5.len() + b6.len() + b7.len() + b8.len() + b9.len() + b10.len() + b11.len()) as int, (b0.len() + b1.len() + b2.len() + b3.len() + b4.len() + b5.len() + b6.len() + b7.len() + b8.len() + b9.len() + b10.len() + b11.len() + b12.len()) as int) =~= b12);
    assert(bytes.subrange((b0.len() + b1.len() + b2.len() + b3.len() + b4.len() + b5.len() + b6.len() + b7.len() + b8.len() + b9.len() + b10.len() + b11.len() + b12.len()) as int, (b0.len() + b1.len() + b2.len() + b3.len() + b4.len() + b5.len() + b6.len() + b7.len() + b8.len() + b9.len() + b10.len() + b11.len() + b12.len() + b13.len()) as int) =~= b13);
    assert(bytes.subrange((b0.len() + b1.len() + b2.len() + b3.len() + b4.len() + b5.len() + b6.len() + b7.len() + b8.len() + b9.len() + b10.len() + b11.len() + b12.len() + b13.len()) as int, (b0.len() + b1.len() + b2.len() + b3.len() + b4.len() + b5.len() + b6.len() + b7.len() + b8.len() + b9.len() + b10.len() + b11.len() + b12.len() + b13.len() + b14.len()) as int) =~= b14);
    assert(bytes.subrange((b0.len() + b1.len() + b2.len() + b3.len() + b4.len() + b5.len() + b6.len() + b7.len() + b8.len() + b9.len() + b10.len() + b11.len() + b12.len() + b13.len() + b14.len()) as int, bytes.len() as int) =~= b15);
    let k1: int = (b0.len()) as int;
    let k2: int = (b0.len() + b1.len()) as int;
    let k3: int = (b0.len() + b1.len() + b2.len()) as int;
    let k4: int = (b0.len() + b1.len() + b2.len() + b3.len()) as int;
    let k5: int = (b0.len() + b1.len() + b2.len() + b3.len() + b4.len()) as int;
    let k6: int = (b0.len() + b1.len() + b2.len() + b3.len() + b4.len() + b5.len()) as int;
    let k7: int = (b0.len() + b1.len() + b2.len() + b3.len() + b4.len() + b5.len() + b6.len()) as int;
    let k8: int = (b0.len() + b1.len() + b2.len() + b3.len() + b4.len() + b5.len() + b6.len() + b7.len()) as int;
    let k9: int = (b0.len() + b1.len() + b2.len() + b3.len() + b4.len() + b5.len() + b6.len() + b7.len() + b8.len()) as int;
    let k10: int = (b0.len() + b1.len() + b2.len() + b3.len() + b4.len() + b5.len() + b6.len() + b7.len() + b8.len() + b9.len()) as int;
    let k11: int = (b0.len() + b1.len() + b2.len() + b3.len() + b4.len() + b5.len() + b6.len() + b7.len() + b8.len() + b9.len() + b10.len()) as int;
    let k12: int = (b0.len() + b1.len() + b2.len() + b3.len() + b4.len() + b5.len() + b6.len() + b7.len() + b8.len() + b9.len() + b10.len() + b11.len()) as int;
    let k13: int = (b0.len() + b1.len() + b2.len() + b3.len() + b4.len() + b5.len() + b6.len() + b7.len() + b8.len() + b9.len() + b10.len() + b11.len() + b12.len()) as int;
    let k14: int = (b0.len() + b1.len() + b2.len() + b3.len() + b4.len() + b5.len() + b6.len() + b7.len() + b8.len() + b9.len() + b10.len() + b11.len() + b12.len() + b13.len()) as int;
    let k15: int = (b0.len() + b1.len() + b2.len() + b3.len() + b4.len() + b5.len() + b6.len() + b7.len() + b8.len() + b9.len() + b10.len() + b11.len() + b12.len() + b13.len() + b14.len()) as int;
    assert(exists|k15: int| k14 <= k15 <= bytes.len() && #[trigger] T14::spec_encodes(m.14, bytes.subrange(k14, k15)) && (T15::spec_encodes(m.15, bytes.subrange(k15, bytes.len() as int))));
    assert(exists|k14: int| k13 <= k14 <= bytes.len() && #[trigger] T13::spec_encodes(m.13, bytes.subrange(k13, k14)) && (exists|k15: int| k14 <= k15 <= bytes.len() && #[trigger] T14::spec_encodes(m.14, bytes.subrange(k14, k15)) && (T15::spec_encodes(m.15, bytes.subrange(k15, bytes.len() as int)))));
    assert(exists|k13: int| k12 <= k13 <= bytes.len() && #[trigger] T12::spec_encodes(m.12, bytes.subrange(k12, k13)) && (exists|k14: int| k13 <= k14 <= bytes.len() && #[trigger] T13::spec_encodes(m.13, bytes.subrange(k13, k14)) && (exists|k15: int| k14 <= k15 <= bytes.len() && #[trigger] T14::spec_encodes(m.14, bytes.subrange(k14, k15)) && (T15::spec_encodes(m.15, bytes.subrange(k15, bytes.len() as int))))));
    assert(exists|k12: int| k11 <= k12 <= bytes.len() && #[trigger] T11::spec_encodes(m.11, bytes.subrange(k11, k12)) && (exists|k13: int| k12 <= k13 <= bytes.len() && #[trigger] T12::spec_encodes(m.12, bytes.subrange(k12, k13)) && (exists|k14: int| k13 <= k14 <= bytes.len() && #[trigger] T13::spec_encodes(m.13, bytes.subrange(k13, k14)) && (exists|k15: int| k14 <= k15 <= bytes.len() && #[trigger] T14::spec_encodes(m.14, bytes.subrange(k14, k15)) && (T15::spec_encodes(m.15, bytes.subrange(k15, bytes.len() as int)))))));
    assert(exists|k11: int| k10 <= k11 <= bytes.len() && #[trigger] T10::spec_encodes(m.10, bytes.subrange(k10, k11)) && (exists|k12: int| k11 <= k12 <= bytes.len() && #[trigger] T11::spec_encodes(m.11, bytes.subrange(k11, k12)) && (exists|k13: int| k12 <= k13 <= bytes.len() && #[trigger] T12::spec_encodes(m.12, bytes.subrange(k12, k13)) && (exists|k14: int| k13 <= k14 <= bytes.len() && #[trigger] T13::spec_encodes(m.13, bytes.subrange(k13, k14)) && (exists|k15: int| k14 <= k15 <= bytes.len() && #[trigger] T14::spec_encodes(m.14, bytes.subrange(k14, k15)) && (T15::spec_encodes(m.15, bytes.subrange(k15, bytes.len() as int))))))));
    assert(exists|k10: int| k9 <= k10 <= bytes.len() && #[trigger] T9::spec_encodes(m.9, bytes.subrange(k9, k10)) && (exists|k11: int| k10 <= k11 <= bytes.len() && #[trigger] T10::spec_encodes(m.10, bytes.subrange(k10, k11)) && (exists|k12: int| k11 <= k12 <= bytes.len() && #[trigger] T11::spec_encodes(m.11, bytes.subrange(k11, k12)) && (exists|k13: int| k12 <= k13 <= bytes.len() && #[trigger] T12::spec_encodes(m.12, bytes.subrange(k12, k13)) && (exists|k14: int| k13 <= k14 <= bytes.len() && #[trigger] T13::spec_encodes(m.13, bytes.subrange(k13, k14)) && (exists|k15: int| k14 <= k15 <= bytes.len() && #[trigger] T14::spec_encodes(m.14, bytes.subrange(k14, k15)) && (T15::spec_encodes(m.15, bytes.subrange(k15, bytes.len() as int)))))))));
    assert(exists|k9: int| k8 <= k9 <= bytes.len() && #[trigger] T8::spec_encodes(m.8, bytes.subrange(k8, k9)) && (exists|k10: int| k9 <= k10 <= bytes.len() && #[trigger] T9::spec_encodes(m.9, bytes.subrange(k9, k10)) && (exists|k11: int| k10 <= k11 <= bytes.len() && #[trigger] T10::spec_encodes(m.10, bytes.subrange(k10, k11)) && (exists|k12: int| k11 <= k12 <= bytes.len() && #[trigger] T11::spec_encodes(m.11, bytes.subrange(k11, k12)) && (exists|k13: int| k12 <= k13 <= bytes.len() && #[trigger] T12::spec_encodes(m.12, bytes.subrange(k12, k13)) && (exists|k14: int| k13 <= k14 <= bytes.len() && #[trigger] T13::spec_encodes(m.13, bytes.subrange(k13, k14)) && (exists|k15: int| k14 <= k15 <= bytes.len() && #[trigger] T14::spec_encodes(m.14, bytes.subrange(k14, k15)) && (T15::spec_encodes(m.15, bytes.subrange(k15, bytes.len() as int))))))))));
    assert(exists|k8: int| k7 <= k8 <= bytes.len() && #[trigger] T7::spec_encodes(m.7, bytes.subrange(k7, k8)) && (exists|k9: int| k8 <= k9 <= bytes.len() && #[trigger] T8::spec_encodes(m.8, bytes.subrange(k8, k9)) && (exists|k10: int| k9 <= k10 <= bytes.len() && #[trigger] T9::spec_encodes(m.9, bytes.subrange(k9, k10)) && (exists|k11: int| k10 <= k11 <= bytes.len() && #[trigger] T10::spec_encodes(m.10, bytes.subrange(k10, k11)) && (exists|k12: int| k11 <= k12 <= bytes.len() && #[trigger] T11::spec_encodes(m.11, bytes.subrange(k11, k12)) && (exists|k13: int| k12 <= k13 <= bytes.len() && #[trigger] T12::spec_encodes(m.12, bytes.subrange(k12, k13)) && (exists|k14: int| k13 <= k14 <= bytes.len() && #[trigger] T13::spec_encodes(m.13, bytes.subrange(k13, k14)) && (exists|k15: int| k14 <= k15 <= bytes.len() && #[trigger] T14::spec_encodes(m.14, bytes.subrange(k14, k15)) && (T15::spec_encodes(m.15, bytes.subrange(k15, bytes.len() as int)))))))))));
    assert(exists|k7: int| k6 <= k7 <= bytes.len() && #[trigger] T6::spec_encodes(m.6, bytes.subrange(k6, k7)) && (exists|k8: int| k7 <= k8 <= bytes.len() && #[trigger] T7::spec_encodes(m.7, bytes.subrange(k7, k8)) && (exists|k9: int| k8 <= k9 <= bytes.len() && #[trigger] T8::spec_encodes(m.8, bytes.subrange(k8, k9)) && (exists|k10: int| k9 <= k10 <= bytes.len() && #[trigger] T9::spec_encodes(m.9, bytes.subrange(k9, k10)) && (exists|k11: int| k10 <= k11 <= bytes.len() && #[trigger] T10::spec_encodes(m.10, bytes.subrange(k10, k11)) && (exists|k12: int| k11 <= k12 <= bytes.len() && #[trigger] T11::spec_encodes(m.11, bytes.subrange(k11, k12)) && (exists|k13: int| k12 <= k13 <= bytes.len() && #[trigger] T12::spec_encodes(m.12, bytes.subrange(k12, k13)) && (exists|k14: int| k13 <= k14 <= bytes.len() && #[trigger] T13::spec_encodes(m.13, bytes.subrange(k13, k14)) && (exists|k15: int| k14 <= k15 <= bytes.len() && #[trigger] T14::spec_encodes(m.14, bytes.subrange(k14, k15)) && (T15::spec_encodes(m.15, bytes.subrange(k15, bytes.len() as int))))))))))));
    assert(exists|k6: int| k5 <= k6 <= bytes.len() && #[trigger] T5::spec_encodes(m.5, bytes.subrange(k5, k6)) && (exists|k7: int| k6 <= k7 <= bytes.len() && #[trigger] T6::spec_encodes(m.6, bytes.subrange(k6, k7)) && (exists|k8: int| k7 <= k8 <= bytes.len() && #[trigger] T7::spec_encodes(m.7, bytes.subrange(k7, k8)) && (exists|k9: int| k8 <= k9 <= bytes.len() && #[trigger] T8::spec_encodes(m.8, bytes.subrange(k8, k9)) && (exists|k10: int| k9 <= k10 <= bytes.len() && #[trigger] T9::spec_encodes(m.9, bytes.subrange(k9, k10)) && (exists|k11: int| k10 <= k11 <= bytes.len() && #[trigger] T10::spec_encodes(m.10, bytes.subrange(k10, k11)) && (exists|k12: int| k11 <= k12 <= bytes.len() && #[trigger] T11::spec_encodes(m.11, bytes.subrange(k11, k12)) && (exists|k13: int| k12 <= k13 <= bytes.len() && #[trigger] T12::spec_encodes(m.12, bytes.subrange(k12, k13)) && (exists|k14: int| k13 <= k14 <= bytes.len() && #[trigger] T13::spec_encodes(m.13, bytes.subrange(k13, k14)) && (exists|k15: int| k14 <= k15 <= bytes.len() && #[trigger] T14::spec_encodes(m.14, bytes.subrange(k14, k15)) && (T15::spec_encodes(m.15, bytes.subrange(k15, bytes.len() as int)))))))))))));
    assert(exists|k5: int| k4 <= k5 <= bytes.len() && #[trigger] T4::spec_encodes(m.4, bytes.subrange(k4, k5)) && (exists|k6: int| k5 <= k6 <= bytes.len() && #[trigger] T5::spec_encodes(m.5, bytes.subrange(k5, k6)) && (exists|k7: int| k6 <= k7 <= bytes.len() && #[trigger] T6::spec_encodes(m.6, bytes.subrange(k6, k7)) && (exists|k8: int| k7 <= k8 <= bytes.len() && #[trigger] T7::spec_encodes(m.7, bytes.subrange(k7, k8)) && (exists|k9: int| k8 <= k9 <= bytes.len() && #[trigger] T8::spec_encodes(m.8, bytes.subrange(k8, k9)) && (exists|k10: int| k9 <= k10 <= bytes.len() && #[trigger] T9::spec_encodes(m.9, bytes.subrange(k9, k10)) && (exists|k11: int| k10 <= k11 <= bytes.len() && #[trigger] T10::spec_encodes(m.10, bytes.subrange(k10, k11)) && (exists|k12: int| k11 <= k12 <= bytes.len() && #[trigger] T11::spec_encodes(m.11, bytes.subrange(k11, k12)) && (exists|k13: int| k12 <= k13 <= bytes.len() && #[trigger] T12::spec_encodes(m.12, bytes.subrange(k12, k13)) && (exists|k14: int| k13 <= k14 <= bytes.len() && #[trigger] T13::spec_encodes(m.13, bytes.subrange(k13, k14)) && (exists|k15: int| k14 <= k15 <= bytes.len() && #[trigger] T14::spec_encodes(m.14, bytes.subrange(k14, k15)) && (T15::spec_encodes(m.15, bytes.subrange(k15, bytes.len() as int))))))))))))));
    assert(exists|k4: int| k3 <= k4 <= bytes.len() && #[trigger] T3::spec_encodes(m.3, bytes.subrange(k3, k4)) && (exists|k5: int| k4 <= k5 <= bytes.len() && #[trigger] T4::spec_encodes(m.4, bytes.subrange(k4, k5)) && (exists|k6: int| k5 <= k6 <= bytes.len() && #[trigger] T5::spec_encodes(m.5, bytes.subrange(k5, k6)) && (exists|k7: int| k6 <= k7 <= bytes.len() && #[trigger] T6::spec_encodes(m.6, bytes.subrange(k6, k7)) && (exists|k8: int| k7 <= k8 <= bytes.len() && #[trigger] T7::spec_encodes(m.7, bytes.subrange(k7, k8)) && (exists|k9: int| k8 <= k9 <= bytes.len() && #[trigger] T8::spec_encodes(m.8, bytes.subrange(k8, k9)) && (exists|k10: int| k9 <= k10 <= bytes.len() && #[trigger] T9::spec_encodes(m.9, bytes.subrange(k9, k10)) && (exists|k11: int| k10 <= k11 <= bytes.len() && #[trigger] T10::spec_encodes(m.10, bytes.subrange(k10, k11)) && (exists|k12: int| k11 <= k12 <= bytes.len() && #[trigger] T11::spec_encodes(m.11, bytes.subrange(k11, k12)) && (exists|k13: int| k12 <= k13 <= bytes.len() && #[trigger] T12::spec_encodes(m.12, bytes.subrange(k12, k13)) && (exists|k14: int| k13 <= k14 <= bytes.len() && #[trigger] T13::spec_encodes(m.13, bytes.subrange(k13, k14)) && (exists|k15: int| k14 <= k15 <= bytes.len() && #[trigger] T14::spec_encodes(m.14, bytes.subrange(k14, k15)) && (T15::spec_encodes(m.15, bytes.subrange(k15, bytes.len() as int)))))))))))))));
    assert(exists|k3: int| k2 <= k3 <= bytes.len() && #[trigger] T2::spec_encodes(m.2, bytes.subrange(k2, k3)) && (exists|k4: int| k3 <= k4 <= bytes.len() && #[trigger] T3::spec_encodes(m.3, bytes.subrange(k3, k4)) && (exists|k5: int| k4 <= k5 <= bytes.len() && #[trigger] T4::spec_encodes(m.4, bytes.subrange(k4, k5)) && (exists|k6: int| k5 <= k6 <= bytes.len() && #[trigger] T5::spec_encodes(m.5, bytes.subrange(k5, k6)) && (exists|k7: int| k6 <= k7 <= bytes.len() && #[trigger] T6::spec_encodes(m.6, bytes.subrange(k6, k7)) && (exists|k8: int| k7 <= k8 <= bytes.len() && #[trigger] T7::spec_encodes(m.7, bytes.subrange(k7, k8)) && (exists|k9: int| k8 <= k9 <= bytes.len() && #[trigger] T8::spec_encodes(m.8, bytes.subrange(k8, k9)) && (exists|k10: int| k9 <= k10 <= bytes.len() && #[trigger] T9::spec_encodes(m.9, bytes.subrange(k9, k10)) && (exists|k11: int| k10 <= k11 <= bytes.len() && #[trigger] T10::spec_encodes(m.10, bytes.subrange(k10, k11)) && (exists|k12: int| k11 <= k12 <= bytes.len() && #[trigger] T11::spec_encodes(m.11, bytes.subrange(k11, k12)) && (exists|k13: int| k12 <= k13 <= bytes.len() && #[trigger] T12::spec_encodes(m.12, bytes.subrange(k12, k13)) && (exists|k14: int| k13 <= k14 <= bytes.len() && #[trigger] T13::spec_encodes(m.13, bytes.subrange(k13, k14)) && (exists|k15: int| k14 <= k15 <= bytes.len() && #[trigger] T14::spec_encodes(m.14, bytes.subrange(k14, k15)) && (T15::spec_encodes(m.15, bytes.subrange(k15, bytes.len() as int))))))))))))))));
    assert(exists|k2: int| k1 <= k2 <= bytes.len() && #[trigger] T1::spec_encodes(m.1, bytes.subrange(k1, k2)) && (exists|k3: int| k2 <= k3 <= bytes.len() && #[trigger] T2::spec_encodes(m.2, bytes.subrange(k2, k3)) && (exists|k4: int| k3 <= k4 <= bytes.len() && #[trigger] T3::spec_encodes(m.3, bytes.subrange(k3, k4)) && (exists|k5: int| k4 <= k5 <= bytes.len() && #[trigger] T4::spec_encodes(m.4, bytes.subrange(k4, k5)) && (exists|k6: int| k5 <= k6 <= bytes.len() && #[trigger] T5::spec_encodes(m.5, bytes.subrange(k5, k6)) && (exists|k7: int| k6 <= k7 <= bytes.len() && #[trigger] T6::spec_encodes(m.6, bytes.subrange(k6, k7)) && (exists|k8: int| k7 <= k8 <= bytes.len() && #[trigger] T7::spec_encodes(m.7, bytes.subrange(k7, k8)) && (exists|k9: int| k8 <= k9 <= bytes.len() && #[trigger] T8::spec_encodes(m.8, bytes.subrange(k8, k9)) && (exists|k10: int| k9 <= k10 <= bytes.len() && #[trigger] T9::spec_encodes(m.9, bytes.subrange(k9, k10)) && (exists|k11: int| k10 <= k11 <= bytes.len() && #[trigger] T10::spec_encodes(m.10, bytes.subrange(k10, k11)) && (exists|k12: int| k11 <= k12 <= bytes.len() && #[trigger] T11::spec_encodes(m.11, bytes.subrange(k11, k12)) && (exists|k13: int| k12 <= k13 <= bytes.len() && #[trigger] T12::spec_encodes(m.12, bytes.subrange(k12, k13)) && (exists|k14: int| k13 <= k14 <= bytes.len() && #[trigger] T13::spec_encodes(m.13, bytes.subrange(k13, k14)) && (exists|k15: int| k14 <= k15 <= bytes.len() && #[trigger] T14::spec_encodes(m.14, bytes.subrange(k14, k15)) && (T15::spec_encodes(m.15, bytes.subrange(k15, bytes.len() as int)))))))))))))))));
    assert(exists|k1: int| 0 <= k1 <= bytes.len() && #[trigger] T0::spec_encodes(m.0, bytes.subrange(0, k1)) && (exists|k2: int| k1 <= k2 <= bytes.len() && #[trigger] T1::spec_encodes(m.1, bytes.subrange(k1, k2)) && (exists|k3: int| k2 <= k3 <= bytes.len() && #[trigger] T2::spec_encodes(m.2, bytes.subrange(k2, k3)) && (exists|k4: int| k3 <= k4 <= bytes.len() && #[trigger] T3::spec_encodes(m.3, bytes.subrange(k3, k4)) && (exists|k5: int| k4 <= k5 <= bytes.len() && #[trigger] T4::spec_encodes(m.4, bytes.subrange(k4, k5)) && (exists|k6: int| k5 <= k6 <= bytes.len() && #[trigger] T5::spec_encodes(m.5, bytes.subrange(k5, k6)) && (exists|k7: int| k6 <= k7 <= bytes.len() && #[trigger] T6::spec_encodes(m.6, bytes.subrange(k6, k7)) && (exists|k8: int| k7 <= k8 <= bytes.len() && #[trigger] T7::spec_encodes(m.7, bytes.subrange(k7, k8)) && (exists|k9: int| k8 <= k9 <= bytes.len() && #[trigger] T8::spec_encodes(m.8, bytes.subrange(k8, k9)) && (exists|k10: int| k9 <= k10 <= bytes.len() && #[trigger] T9::spec_encodes(m.9, bytes.subrange(k9, k10)) && (exists|k11: int| k10 <= k11 <= bytes.len() && #[trigger] T10::spec_encodes(m.10, bytes.subrange(k10, k11)) && (exists|k12: int| k11 <= k12 <= bytes.len() && #[trigger] T11::spec_encodes(m.11, bytes.subrange(k11, k12)) && (exists|k13: int| k12 <= k13 <= bytes.len() && #[trigger] T12::spec_encodes(m.12, bytes.subrange(k12, k13)) && (exists|k14: int| k13 <= k14 <= bytes.len() && #[trigger] T13::spec_encodes(m.13, bytes.subrange(k13, k14)) && (exists|k15: int| k14 <= k15 <= bytes.len() && #[trigger] T14::spec_encodes(m.14, bytes.subrange(k14, k15)) && (T15::spec_encodes(m.15, bytes.subrange(k15, bytes.len() as int))))))))))))))))));
}

/// An encoding of a tuple of 16 fields cuts into its fields' encodings, in
/// field order, at the positions `cuts`.
#[verifier::spinoff_prover]
#[verifier::rlimit(60)]
pub proof fn lemma_tuple16_cuts_into_fields<T0: WireFormat, T1: WireFormat, T2: WireFormat, T3: WireFormat, T4: WireFormat, T5: WireFormat, T6: WireFormat, T7: WireFormat, T8: WireFormat, T9: WireFormat, T10: WireFormat, T11: WireFormat, T12: WireFormat, T13: WireFormat, T14: WireFormat, T15: WireFormat>(m: (T0::Model, T1::Model, T2::Model, T3::Model, T4::Model, T5::Model, T6::Model, T7::Model, T8::Model, T9::Model, T10::Model, T11::Model, T12::Model, T13::Model, T14::Model, T15::Model), bytes: Seq<u8>) -> (cuts: Seq<int>)
    requires
        <(T0, T1, T2, T3, T4, T5, T6, T7, T8, T9, T10, T11, T12, T13, T14, T15) as WireFormat>::spec_encodes(m, bytes),
    ensures
        cuts.len() == 17,
        cuts[0] == 0,
        cuts[16] == bytes.len(),
        cuts[0] <= cuts[1],
        cuts[1] <= cuts[2],
        cuts[2] <= cuts[3],
        cuts[3] <= cuts[4],
        cuts[4] <= cuts[5],
        cuts[5] <= cuts[6],
        cuts[6] <= cuts[7],
        cuts[7] <= cuts[8],
        cuts[8] <= cuts[9],
        cuts[9] <= cuts[10],
        cuts[10] <= cuts[11],
        cuts[11] <= cuts[12],
        cuts[12] <= cuts[13],
        cuts[13] <= cuts[14],
        cuts[14] <= cuts[15],
        cuts[15] <= cuts[16],
        T0::spec_encodes(m.0, bytes.subrange(cuts[0], cuts[1])),
        T1::spec_encodes(m.1, bytes.subrange(cuts[1], cuts[2])),
        T2::spec_encodes(m.2, bytes.subrange(cuts[2], cuts[3])),
        T3::spec_encodes(m.3, bytes.subrange(cuts[3], cuts[4])),
        T4::spec_encodes(m.4, bytes.subrange(cuts[4], cuts[5])),
        T5::spec_encodes(m.5, bytes.subrange(cuts[5], cuts[6])),
        T6::spec_encodes(m.6, bytes.subrange(cuts[6], cuts[7])),
        T7::spec_encodes(m.7, bytes.subrange(cuts[7], cuts[8])),
        T8::spec_encodes(m.8, bytes.subrange(cuts[8], cuts[9])),
        T9::spec_encodes(m.9, bytes.subrange(cuts[9], cuts[10])),
        T10::spec_encodes(m.10, bytes.subrange(cuts[10], cuts[11])),
        T11::spec_encodes(m.11, bytes.subrange(cuts[11], cuts[12])),
        T12::spec_encodes(m.12, bytes.subrange(cuts[12], cuts[13])),
        T13::spec_encodes(m.13, bytes.subrange(cuts[13], cuts[14])),
        T14::spec_encodes(m.14, bytes.subrange(cuts[14], cuts[15])),
        T15::spec_encodes(m.15, bytes.subrange(cuts[15], cuts[16])),
{
    let k1 = choose|k1: int| 0 <= k1 <= bytes.len() && #[trigger] T0::spec_encodes(m.0, bytes.subrange(0, k1)) && (exists|k2: int| k1 <= k2 <= bytes.len() && #[trigger] T1::spec_encodes(m.1, bytes.subrange(k1, k2)) && (exists|k3: int| k2 <= k3 <= bytes.len() && #[trigger] T2::spec_encodes(m.2, bytes.subrange(k2, k3)) && (exists|k4: int| k3 <= k4 <= bytes.len() && #[trigger] T3::spec_encodes(m.3, bytes.subrange(k3, k4)) && (exists|k5: int| k4 <= k5 <= bytes.len() && #[trigger] T4::spec_encodes(m.4, bytes.subrange(k4, k5)) && (exists|k6: int| k5 <= k6 <= bytes.len() && #[trigger] T5::spec_encodes(m.5, bytes.subrange(k5, k6)) && (exists|k7: int| k6 <= k7 <= bytes.len() && #[trigger] T6::spec_encodes(m.6, bytes.subrange(k6, k7)) && (exists|k8: int| k7 <= k8 <= bytes.len() && #[trigger] T7::spec_encodes(m.7, bytes.subrange(k7, k8)) && (exists|k9: int| k8 <= k9 <= bytes.len() && #[trigger] T8::spec_encodes(m.8, bytes.subrange(k8, k9)) && (exists|k10: int| k9 <= k10 <= bytes.len() && #[trigger] T9::spec_encodes(m.9, bytes.subrange(k9, k10)) && (exists|k11: int| k10 <= k11 <= bytes.len() && #[trigger] T10::spec_encodes(m.10, bytes.subrange(k10, k11)) && (exists|k12: int| k11 <= k12 <= bytes.len() && #[trigger] T11::spec_encodes(m.11, bytes.subrange(k11, k12)) && (exists|k13: int| k12 <= k13 <= bytes.len() && #[trigger] T12::spec_encodes(m.12, bytes.subrange(k12, k13)) && (exists|k14: int| k13 <= k14 <= bytes.len() && #[trigger] T13::spec_encodes(m.13, bytes.subrange(k13, k14)) && (exists|k15: int| k14 <= k15 <= bytes.len() && #[trigger] T14::spec_encodes(m.14, bytes.subrange(k14, k15)) && (T15::spec_encodes(m.15, bytes.subrange(k15, bytes.len() as int)))))))))))))))));
    let k2 = choose|k2: int| k1 <= k2 <= bytes.len() && #[trigger] T1::spec_encodes(m.1, bytes.subrange(k1, k2)) && (exists|k3: int| k2 <= k3 <= bytes.len() && #[trigger] T2::spec_encodes(m.2, bytes.subrange(k2, k3)) && (exists|k4: int| k3 <= k4 <= bytes.len() && #[trigger] T3::spec_encodes(m.3, bytes.subrange(k3, k4)) && (exists|k5: int| k4 <= k5 <= bytes.len() && #[trigger] T4::spec_encodes(m.4, bytes.subrange(k4, k5)) && (exists|k6: int| k5 <= k6 <= bytes.len() && #[trigger] T5::spec_encodes(m.5, bytes.subrange(k5, k6)) && (exists|k7: int| k6 <= k7 <= bytes.len() && #[trigger] T6::spec_encodes(m.6, bytes.subrange(k6, k7)) && (exists|k8: int| k7 <= k8 <= bytes.len() && #[trigger] T7::spec_encodes(m.7, bytes.subrange(k7, k8)) && (exists|k9: int| k8 <= k9 <= bytes.len() && #[trigger] T8::spec_encodes(m.8, bytes.subrange(k8, k9)) && (exists|k10: int| k9 <= k10 <= bytes.len() && #[trigger] T9::spec_encodes(m.9, bytes.subrange(k9, k10)) && (exists|k11: int| k10 <= k11 <= bytes.len() && #[trigger] T10::spec_encodes(m.10, bytes.subrange(k10, k11)) && (exists|k12: int| k11 <= k12 <= bytes.len() && #[trigger] T11::spec_encodes(m.11, bytes.subrange(k11, k12)) && (exists|k13: int| k12 <= k13 <= bytes.len() && #[trigger] T12::spec_encodes(m.12, bytes.subrange(k12, k13)) && (exists|k14: int| k13 <= k14 <= bytes.len() && #[trigger] T13::spec_encodes(m.13, bytes.subrange(k13, k14)) && (exists|k15: int| k14 <= k15 <= bytes.len() && #[trigger] T14::spec_encodes(m.14, bytes.subrange(k14, k15)) && (T15::spec_encodes(m.15, bytes.subrange(k15, bytes.len() as int))))))))))))))));
    let k3 = choose|k3: int| k2 <= k3 <= bytes.len() && #[trigger] T2::spec_encodes(m.2, bytes.subrange(k2, k3)) && (exists|k4: int| k3 <= k4 <= bytes.len() && #[trigger] T3::spec_encodes(m.3, bytes.subrange(k3, k4)) && (exists|k5: int| k4 <= k5 <= bytes.len() && #[trigger] T4::spec_encodes(m.4, bytes.subrange(k4, k5)) && (exists|k6: int| k5 <= k6 <= bytes.len() && #[trigger] T5::spec_encodes(m.5, bytes.subrange(k5, k6)) && (exists|k7: int| k6 <= k7 <= bytes.len() && #[trigger] T6::spec_encodes(m.6, bytes.subrange(k6, k7)) && (exists|k8: int| k7 <= k8 <= bytes.len() && #[trigger] T7::spec_encodes(m.7, bytes.subrange(k7, k8)) && (exists|k9: int| k8 <= k9 <= bytes.len() && #[trigger] T8::spec_encodes(m.8, bytes.subrange(k8, k9)) && (exists|k10: int| k9 <= k10 <= bytes.len() && #[trigger] T9::spec_encodes(m.9, bytes.subrange(k9, k10)) && (exists|k11: int| k10 <= k11 <= bytes.len() && #[trigger] T10::spec_encodes(m.10, bytes.subrange(k10, k11)) && (exists|k12: int| k11 <= k12 <= bytes.len() && #[trigger] T11::spec_encodes(m.11, bytes.subrange(k11, k12)) && (exists|k13: int| k12 <= k13 <= bytes.len() && #[trigger] T12::spec_encodes(m.12, bytes.subrange(k12, k13)) && (exists|k14: int| k13 <= k14 <= bytes.len() && #[trigger] T13::spec_encodes(m.13, bytes.subrange(k13, k14)) && (exists|k15: int| k14 <= k15 <= bytes.len() && #[trigger] T14::spec_encodes(m.14, bytes.subrange(k14, k15)) && (T15::spec_encodes(m.15, bytes.subrange(k15, bytes.len() as int)))))))))))))));
    let k4 = choose|k4: int| k3 <= k4 <= bytes.len() && #[trigger] T3::spec_encodes(m.3, bytes.subrange(k3, k4)) && (exists|k5: int| k4 <= k5 <= bytes.len() && #[trigger] T4::spec_encodes(m.4, bytes.subrange(k4, k5)) && (exists|k6: int| k5 <= k6 <= bytes.len() && #[trigger] T5::spec_encodes(m.5, bytes.subrange(k5, k6)) && (exists|k7: int| k6 <= k7 <= bytes.len() && #[trigger] T6::spec_encodes(m.6, bytes.subrange(k6, k7)) && (exists|k8: int| k7 <= k8 <= bytes.len() && #[trigger] T7::spec_encodes(m.7, bytes.subrange(k7, k8)) && (exists|k9: int| k8 <= k9 <= bytes.len() && #[trigger] T8::spec_encodes(m.8, bytes.subrange(k8, k9)) && (exists|k10: int| k9 <= k10 <= bytes.len() && #[trigger] T9::spec_encodes(m.9, bytes.subrange(k9, k10)) && (exists|k11: int| k10 <= k11 <= bytes.len() && #[trigger] T10::spec_encodes(m.10, bytes.subrange(k10, k11)) && (exists|k12: int| k11 <= k12 <= bytes.len() && #[trigger] T11::spec_encodes(m.11, bytes.subrange(k11, k12)) && (exists|k13: int| k12 <= k13 <= bytes.len() && #[trigger] T12::spec_encodes(m.12, bytes.subrange(k12, k13)) && (exists|k14: int| k13 <= k14 <= bytes.len() && #[trigger] T13::spec_encodes(m.13, bytes.subrange(k13, k14)) && (exists|k15: int| k14 <= k15 <= bytes.len() && #[trigger] T14::spec_encodes(m.14, bytes.subrange(k14, k15)) && (T15::spec_encodes(m.15, bytes.subrange(k15, bytes.len() as int))))))))))))));
    let k5 = choose|k5: int| k4 <= k5 <= bytes.len() && #[trigger] T4::spec_encodes(m.4, bytes.subrange(k4, k5)) && (exists|k6: int| k5 <= k6 <= bytes.len() && #[trigger] T5::spec_encodes(m.5, bytes.subrange(k5, k6)) && (exists|k7: int| k6 <= k7 <= bytes.len() && #[trigger] T6::spec_encodes(m.6, bytes.subrange(k6, k7)) && (exists|k8: int| k7 <= k8 <= bytes.len() && #[trigger] T7::spec_encodes(m.7, bytes.subrange(k7, k8)) && (exists|k9: int| k8 <= k9 <= bytes.len() && #[trigger] T8::spec_encodes(m.8, bytes.subrange(k8, k9)) && (exists|k10: int| k9 <= k10 <= bytes.len() && #[trigger] T9::spec_encodes(m.9, bytes.subrange(k9, k10)) && (exists|k11: int| k10 <= k11 <= bytes.len() && #[trigger] T10::spec_encodes(m.10, bytes.subrange(k10, k11)) && (exists|k12: int| k11 <= k12 <= bytes.len() && #[trigger] T11::spec_encodes(m.11, bytes.subrange(k11, k12)) && (exists|k13: int| k12 <= k13 <= bytes.len() && #[trigger] T12::spec_encodes(m.12, bytes.subrange(k12, k13)) && (exists|k14: int| k13 <= k14 <= bytes.len() && #[trigger] T13::spec_encodes(m.13, bytes.subrange(k13, k14)) && (exists|k15: int| k14 <= k15 <= bytes.len() && #[trigger] T14::spec_encodes(m.14, bytes.subrange(k14, k15)) && (T15::spec_encodes(m.15, bytes.subrange(k15, bytes.len() as int)))))))))))));
    let k6 = choose|k6: int| k5 <= k6 <= bytes.len() && #[trigger] T5::spec_encodes(m.5, bytes.subrange(k5, k6)) && (exists|k7: int| k6 <= k7 <= bytes.len() && #[trigger] T6::spec_encodes(m.6, bytes.subrange(k6, k7)) && (exists|k8: int| k7 <= k8 <= bytes.len() && #[trigger] T7::spec_encodes(m.7, bytes.subrange(k7, k8)) && (exists|k9: int| k8 <= k9 <= bytes.len() && #[trigger] T8::spec_encodes(m.8, bytes.subrange(k8, k9)) && (exists|k10: int| k9 <= k10 <= bytes.len() && #[trigger] T9::spec_encodes(m.9, bytes.subrange(k9, k10)) && (exists|k11: int| k10 <= k11 <= bytes.len() && #[trigger] T10::spec_encodes(m.10, bytes.subrange(k10, k11)) && (exists|k12: int| k11 <= k12 <= bytes.len() && #[trigger] T11::spec_encodes(m.11, bytes.subrange(k11, k12)) && (exists|k13: int| k12 <= k13 <= bytes.len() && #[trigger] T12::spec_encodes(m.12, bytes.subrange(k12, k13)) && (exists|k14: int| k13 <= k14 <= bytes.len() && #[trigger] T13::spec_encodes(m.13, bytes.subrange(k13, k14)) && (exists|k15: int| k14 <= k15 <= bytes.len() && #[trigger] T14::spec_encodes(m.14, bytes.subrange(k14, k15)) && (T15::spec_encodes(m.15, bytes.subrange(k15, bytes.len() as int))))))))))));
    let k7 = choose|k7: int| k6 <= k7 <= bytes.len() && #[trigger] T6::spec_encodes(m.6, bytes.subrange(k6, k7)) && (exists|k8: int| k7 <= k8 <= bytes.len() && #[trigger] T7::spec_encodes(m.7, bytes.subrange(k7, k8)) && (exists|k9: int| k8 <= k9 <= bytes.len() && #[trigger] T8::spec_encodes(m.8, bytes.subrange(k8, k9)) && (exists|k10: int| k9 <= k10 <= bytes.len() && #[trigger] T9::spec_encodes(m.9, bytes.subrange(k9, k10)) && (exists|k11: int| k10 <= k11 <= bytes.len() && #[trigger] T10::spec_encodes(m.10, bytes.subrange(k10, k11)) && (exists|k12: int| k11 <= k12 <= bytes.len() && #[trigger] T11::spec_encodes(m.11, bytes.subrange(k11, k12)) && (exists|k13: int| k12 <= k13 <= bytes.len() && #[trigger] T12::spec_encodes(m.12, bytes.subrange(k12, k13)) && (exists|k14: int| k13 <= k14 <= bytes.len() && #[trigger] T13::spec_encodes(m.13, bytes.subrange(k13, k14)) && (exists|k15: int| k14 <= k15 <= bytes.len() && #[trigger] T14::spec_encodes(m.14, bytes.subrange(k14, k15)) && (T15::spec_encodes(m.15, bytes.subrange(k15, bytes.len() as int)))))))))));
    let k8 = choose|k8: int| k7 <= k8 <= bytes.len() && #[trigger] T7::spec_encodes(m.7, bytes.subrange(k7, k8)) && (exists|k9: int| k8 <= k9 <= bytes.len() && #[trigger] T8::spec_encodes(m.8, bytes.subrange(k8, k9)) && (exists|k10: int| k9 <= k10 <= bytes.len() && #[trigger] T9::spec_encodes(m.9, bytes.subrange(k9, k10)) && (exists|k11: int| k10 <= k11 <= bytes.len() && #[trigger] T10::spec_encodes(m.10, bytes.subrange(k10, k11)) && (exists|k12: int| k11 <= k12 <= bytes.len() && #[trigger] T11::spec_encodes(m.11, bytes.subrange(k11, k12)) && (exists|k13: int| k12 <= k13 <= bytes.len() && #[trigger] T12::spec_encodes(m.12, bytes.subrange(k12, k13)) && (exists|k14: int| k13 <= k14 <= bytes.len() && #[trigger] T13::spec_encodes(m.13, bytes.subrange(k13, k14)) && (exists|k15: int| k14 <= k15 <= bytes.len() && #[trigger] T14::spec_encodes(m.14, bytes.subrange(k14, k15)) && (T15::spec_encodes(m.15, bytes.subrange(k15, bytes.len() as int))))))))));
    let k9 = choose|k9: int| k8 <= k9 <= bytes.len() && #[trigger] T8::spec_encodes(m.8, bytes.subrange(k8, k9)) && (exists|k10: int| k9 <= k10 <= bytes.len() && #[trigger] T9::spec_encodes(m.9, bytes.subrange(k9, k10)) && (exists|k11: int| k10 <= k11 <= bytes.len() && #[trigger] T10::spec_encodes(m.10, bytes.subrange(k10, k11)) && (exists|k12: int| k11 <= k12 <= bytes.len() && #[trigger] T11::spec_encodes(m.11, bytes.subrange(k11, k12)) && (exists|k13: int| k12 <= k13 <= bytes.len() && #[trigger] T12::spec_encodes(m.12, bytes.subrange(k12, k13)) && (exists|k14: int| k13 <= k14 <= bytes.len() && #[trigger] T13::spec_encodes(m.13, bytes.subrange(k13, k14)) && (exists|k15: int| k14 <= k15 <= bytes.len() && #[trigger] T14::spec_encodes(m.14, bytes.subrange(k14, k15)) && (T15::spec_encodes(m.15, bytes.subrange(k15, bytes.len() as int)))))))));
    let k10 = choose|k10: int| k9 <= k10 <= bytes.len() && #[trigger] T9::spec_encodes(m.9, bytes.subrange(k9, k10)) && (exists|k11: int| k10 <= k11 <= bytes.len() && #[trigger] T10::spec_encodes(m.10, bytes.subrange(k10, k11)) && (exists|k12: int| k11 <= k12 <= bytes.len() && #[trigger] T11::spec_encodes(m.11, bytes.subrange(k11, k12)) && (exists|k13: int| k12 <= k13 <= bytes.len() && #[trigger] T12::spec_encodes(m.12, bytes.subrange(k12, k13)) && (exists|k14: int| k13 <= k14 <= bytes.len() && #[trigger] T13::spec_encodes(m.13, bytes.subrange(k13, k14)) && (exists|k15: int| k14 <= k15 <= bytes.len() && #[trigger] T14::spec_encodes(m.14, bytes.subrange(k14, k15)) && (T15::spec_encodes(m.15, bytes.subrange(k15, bytes.len() as int))))))));
    let k11 = choose|k11: int| k10 <= k11 <= bytes.len() && #[trigger] T10::spec_encodes(m.10, bytes.subrange(k10, k11)) && (exists|k12: int| k11 <= k12 <= bytes.len() && #[trigger] T11::spec_encodes(m.11, bytes.subrange(k11, k12)) && (exists|k13: int| k12 <= k13 <= bytes.len() && #[trigger] T12::spec_encodes(m.12, bytes.subrange(k12, k13)) && (exists|k14: int| k13 <= k14 <= bytes.len() && #[trigger] T13::spec_encodes(m.13, bytes.subrange(k13, k14)) && (exists|k15: int| k14 <= k15 <= bytes.len() && #[trigger] T14::spec_encodes(m.14, bytes.subrange(k14, k15)) && (T15::spec_encodes(m.15, bytes.subrange(k15, bytes.len() as int)))))));
    let k12 = choose|k12: int| k11 <= k12 <= bytes.len() && #[trigger] T11::spec_encodes(m.11, bytes.subrange(k11, k12)) && (exists|k13: int| k12 <= k13 <= bytes.len() && #[trigger] T12::spec_encodes(m.12, bytes.subrange(k12, k13)) && (exists|k14: int| k13 <= k14 <= bytes.len() && #[trigger] T13::spec_encodes(m.13, bytes.subrange(k13, k14)) && (exists|k15: int| k14 <= k15 <= bytes.len() && #[trigger] T14::spec_encodes(m.14, bytes.subrange(k14, k15)) && (T15::spec_encodes(m.15, bytes.subrange(k15, bytes.len() as int))))));
    let k13 = choose|k13: int| k12 <= k13 <= bytes.len() && #[trigger] T12::spec_encodes(m.12, bytes.subrange(k12, k13)) && (exists|k14: int| k13 <= k14 <= bytes.len() && #[trigger] T13::spec_encodes(m.13, bytes.subrange(k13, k14)) && (exists|k15: int| k14 <= k15 <= bytes.len() && #[trigger] T14::spec_encodes(m.14, bytes.subrange(k14, k15)) && (T15::spec_encodes(m.15, bytes.subrange(k15, bytes.len() as int)))));
    let k14 = choose|k14: int| k13 <= k14 <= bytes.len() && #[trigger] T13::spec_encodes(m.13, bytes.subrange(k13, k14)) && (exists|k15: int| k14 <= k15 <= bytes.len() && #[trigger] T14::spec_encodes(m.14, bytes.subrange(k14, k15)) && (T15::spec_encodes(m.15, bytes.subrange(k15, bytes.len() as int))));
    let k15 = choose|k15: int| k14 <= k15 <= bytes.len() && #[trigger] T14::spec_encodes(m.14, bytes.subrange(k14, k15)) && (T15::spec_encodes(m.15, bytes.subrange(k15, bytes.len() as int)));
    seq![0int, k1, k2, k3, k4, k5, k6, k7, k8, k9, k10, k11, k12, k13, k14, k15, bytes.len() as int]
}

} // verus!
