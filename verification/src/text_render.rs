//! The text of a text render component: a fixed array of bytes, the UTF-8 of
//! the text followed by NUL bytes.
use vstd::prelude::*;
use vstd::string::*;
use vstd::utf8::*;
use core::str::Utf8Error;
use crate::snapshot_collections::vec_into_array;

verus! {

broadcast use vstd::utf8::group_utf8_lib;

#[verifier::external_type_specification]
#[verifier::external_body]
pub struct ExUtf8Error(Utf8Error);

/// The number of bytes that a text render component holds.
pub const TEXT_RENDER_SIZE: usize = 256;

/// The first `n` bytes of `bytes`, followed by zeros up to `n` bytes.
pub open spec fn padded_bytes(bytes: Seq<u8>, n: nat) -> Seq<u8> {
    Seq::new(n, |i: int| if i < bytes.len() { bytes[i] } else { 0u8 })
}

/// The UTF-8 bytes of `string`, cut or padded with zeros to `N` bytes.
pub fn str_to_u8array<const N: usize>(string: &str) -> (r: [u8; N])
    ensures
        r@ == padded_bytes(string.spec_bytes(), N as nat),
{
    let bytes = string.as_bytes();
    let mut v: Vec<u8> = Vec::new();
    let mut i: usize = 0;
    while i < N
        invariant
            bytes@ == string.spec_bytes(),
            i <= N,
            v@.len() == i,
            forall|j: int| 0 <= j < i ==> v@[j] == padded_bytes(string.spec_bytes(), N as nat)[j],
        decreases N - i,
    {
        if i < bytes.len() {
            v.push(bytes[i]);
        } else {
            v.push(0u8);
        }
        i = i + 1;
    }
    assert(v@ =~= padded_bytes(string.spec_bytes(), N as nat));
    vec_into_array::<u8, N>(v).unwrap()
}

/// `s` without the NUL characters at its start.
pub open spec fn trim_leading_nuls(s: Seq<char>) -> Seq<char>
    decreases s.len(),
{
    if s.len() > 0 && s[0] == '\0' {
        trim_leading_nuls(s.drop_first())
    } else {
        s
    }
}

/// `s` without the NUL characters at its end.
pub open spec fn trim_trailing_nuls(s: Seq<char>) -> Seq<char>
    decreases s.len(),
{
    if s.len() > 0 && s.last() == '\0' {
        trim_trailing_nuls(s.drop_last())
    } else {
        s
    }
}

/// `s` without the NUL characters at its two ends.
pub open spec fn trim_nuls(s: Seq<char>) -> Seq<char> {
    trim_trailing_nuls(trim_leading_nuls(s))
}

proof fn lemma_trim_leading(s: Seq<char>, i: int)
    requires
        0 <= i <= s.len(),
        forall|j: int| 0 <= j < i ==> s[j] == '\0',
    ensures
        trim_leading_nuls(s) == trim_leading_nuls(s.subrange(i, s.len() as int)),
    decreases i,
{
    if i == 0 {
        assert(s.subrange(0, s.len() as int) =~= s);
    } else {
        lemma_trim_leading(s.drop_first(), i - 1);
        assert(s.drop_first().subrange(i - 1, s.len() - 1) =~= s.subrange(i, s.len() as int));
    }
}

proof fn lemma_trim_trailing(s: Seq<char>, j: int)
    requires
        0 <= j <= s.len(),
        forall|k: int| j <= k < s.len() ==> s[k] == '\0',
    ensures
        trim_trailing_nuls(s) == trim_trailing_nuls(s.subrange(0, j)),
    decreases s.len() - j,
{
    if j == s.len() {
        assert(s.subrange(0, j) =~= s);
    } else {
        lemma_trim_trailing(s.drop_last(), j);
        assert(s.drop_last().subrange(0, j) =~= s.subrange(0, j));
    }
}

/// `s` without the NUL characters at its two ends.
fn trim_nul_chars(s: &str) -> (r: &str)
    ensures
        r@ == trim_nuls(s@),
{
    let n = s.unicode_len();
    let mut i: usize = 0;
    while i < n && s.get_char(i) == '\0'
        invariant
            n == s@.len(),
            i <= n,
            forall|j: int| 0 <= j < i ==> s@[j] == '\0',
        decreases n - i,
    {
        i = i + 1;
    }
    let mut j: usize = n;
    while j > i && s.get_char(j - 1) == '\0'
        invariant
            n == s@.len(),
            i <= j <= n,
            forall|k: int| j <= k < n ==> s@[k] == '\0',
        decreases j,
    {
        j = j - 1;
    }
    proof {
        lemma_trim_leading(s@, i as int);
        let rest = s@.subrange(i as int, n as int);
        assert(rest.len() == 0 || rest[0] != '\0');
        lemma_trim_trailing(rest, (j - i) as int);
        let kept = rest.subrange(0, (j - i) as int);
        assert(kept =~= s@.subrange(i as int, j as int));
        assert(kept.len() == 0 || kept.last() != '\0');
    }
    s.substring_char(i, j)
}

/// `std::str::from_utf8`: the text whose UTF-8 encoding is `bytes`, or an
/// error where `bytes` is not valid UTF-8.
#[verifier::external_body]
fn str_from_utf8(bytes: &[u8]) -> (r: Result<&str, Utf8Error>)
    ensures
        r is Ok <==> valid_utf8(bytes@),
        r matches Ok(s) ==> s@ == decode_utf8(bytes@),
{
    core::str::from_utf8(bytes)
}

/// The text that `u8_slice` holds: its UTF-8, without the NUL characters at
/// its two ends; an error where it is not UTF-8.
pub fn u8array_to_str(u8_slice: &[u8]) -> (r: Result<&str, Utf8Error>)
    ensures
        r is Ok <==> valid_utf8(u8_slice@),
        r matches Ok(s) ==> s@ == trim_nuls(decode_utf8(u8_slice@)),
{
    match str_from_utf8(u8_slice) {
        Ok(s) => Ok(trim_nul_chars(s)),
        Err(e) => Err(e),
    }
}

/// `k` NUL characters.
pub open spec fn nuls(k: nat) -> Seq<char> {
    Seq::new(k, |i: int| '\0')
}

proof fn lemma_encode_concat(a: Seq<char>, b: Seq<char>)
    ensures
        encode_utf8(a + b) == encode_utf8(a) + encode_utf8(b),
    decreases a.len(),
{
    if a.len() == 0 {
        assert(a + b =~= b);
        assert(encode_utf8(a) + encode_utf8(b) =~= encode_utf8(b));
    } else {
        lemma_encode_concat(a.drop_first(), b);
        assert((a + b).drop_first() =~= a.drop_first() + b);
        assert((a + b)[0] == a[0]);
        assert(encode_utf8(a + b) =~= encode_utf8(a) + encode_utf8(b));
    }
}

proof fn lemma_encode_nuls(k: nat)
    ensures
        encode_utf8(nuls(k)) == Seq::new(k, |i: int| 0u8),
    decreases k,
{
    if k > 0 {
        lemma_encode_nuls((k - 1) as nat);
        assert(nuls(k).drop_first() =~= nuls((k - 1) as nat));
        assert(nuls(k)[0] == '\0');
        assert(0u32 & 0x7F == 0u32) by (bit_vector);
        assert(encode_scalar('\0' as u32) =~= seq![0u8]);
        assert(seq![0u8] + Seq::new((k - 1) as nat, |i: int| 0u8) =~= Seq::new(k, |i: int| 0u8));
    }
}

proof fn lemma_trim_leading_shortens(s: Seq<char>)
    ensures
        trim_leading_nuls(s).len() <= s.len(),
        s.len() > 0 && s[0] == '\0' ==> trim_leading_nuls(s).len() < s.len(),
    decreases s.len(),
{
    if s.len() > 0 && s[0] == '\0' {
        lemma_trim_leading_shortens(s.drop_first());
    }
}

proof fn lemma_trim_trailing_shortens(s: Seq<char>)
    ensures
        trim_trailing_nuls(s).len() <= s.len(),
        s.len() > 0 && s.last() == '\0' ==> trim_trailing_nuls(s).len() < s.len(),
    decreases s.len(),
{
    if s.len() > 0 && s.last() == '\0' {
        lemma_trim_trailing_shortens(s.drop_last());
    }
}

/// A text that fits in `n` bytes and has no NUL character at either end
/// reads back from its padded bytes as itself.
pub proof fn lemma_text_array_reads_back(s: Seq<char>, n: nat)
    requires
        encode_utf8(s).len() <= n,
        trim_nuls(s) == s,
    ensures
        valid_utf8(padded_bytes(encode_utf8(s), n)),
        trim_nuls(decode_utf8(padded_bytes(encode_utf8(s), n))) == s,
{
    let k = (n - encode_utf8(s).len()) as nat;
    let t = s + nuls(k);
    lemma_encode_concat(s, nuls(k));
    lemma_encode_nuls(k);
    assert(padded_bytes(encode_utf8(s), n) =~= encode_utf8(t));
    assert(decode_utf8(encode_utf8(t)) == t);
    lemma_trim_leading_shortens(s);
    lemma_trim_trailing_shortens(trim_leading_nuls(s));
    assert forall|j: int| s.len() <= j < t.len() implies t[j] == '\0' by {}
    if s.len() == 0 {
        assert forall|j: int| 0 <= j < k implies t[j] == '\0' by {}
        lemma_trim_leading(t, k as int);
        assert(t.subrange(k as int, t.len() as int) =~= Seq::<char>::empty());
        assert(trim_nuls(t) =~= s);
    } else {
        assert(s[0] != '\0');
        assert(t[0] == s[0]);
        assert(trim_leading_nuls(t) == t);
        lemma_trim_trailing(t, s.len() as int);
        assert(t.subrange(0, s.len() as int) =~= s);
        assert(s.last() != '\0');
    }
}

} // verus!
