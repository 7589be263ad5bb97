//! Handles, hashes and status codes of text assets.
use vstd::bytes::*;
use vstd::prelude::*;
use crate::snapshot_scalars::{from_ne_u32, lemma_ne_u32, ne_u32};
use crate::graphics::{first_eight_bytes, hash_bytes};
use crate::snapshot::{
    Deserialize, Deserializer, Error, ReadUninit, Serialize, Serializer, WireFormat, WriteUninit,
};

verus! {

/// How text is aligned within its bounds.
#[derive(Debug, Clone, Copy, PartialEq, Eq, Structural, Default)]
pub enum TextAlignment {
    #[default]
    Left,
    Center,
    Right,
}

/// The alignment of text that does not say otherwise.
pub fn default_text_render_alignment() -> (r: TextAlignment)
    ensures
        r == TextAlignment::Left,
{
    TextAlignment::Left
}

/// A handle identifying a text asset; never 0.
#[derive(Clone, Copy, Debug, Hash, PartialEq, Eq, Structural, PartialOrd, Ord)]
pub struct TextId {
    id: u32,
}

/// The number 0, which no text has.
#[derive(Clone, Copy, Debug, PartialEq, Eq, Structural)]
pub struct ZeroTextId;

impl TextId {
    #[verifier::type_invariant]
    spec fn nonzero(self) -> bool {
        self.id != 0
    }

    pub closed spec fn value(self) -> u32 {
        self.id
    }

    pub fn get(&self) -> (r: u32)
        ensures
            r == self.value(),
            r != 0,
    {
        proof {
            use_type_invariant(self);
        }
        self.id
    }

    /// The message of the error for the number 0.
    pub fn zero_message() -> (r: &'static str)
        ensures
            r@ == "Value for TextId is 0, which is not allowed"@,
    {
        "Value for TextId is 0, which is not allowed"
    }
}

impl TryFrom<u32> for TextId {
    type Error = ZeroTextId;

    fn try_from(value: u32) -> (r: Result<TextId, ZeroTextId>) {
        if value == 0 {
            Err(ZeroTextId)
        } else {
            Ok(TextId { id: value })
        }
    }
}

impl vstd::std_specs::convert::TryFromSpecImpl<u32> for TextId {
    open spec fn obeys_try_from_spec() -> bool {
        true
    }

    closed spec fn try_from_spec(v: u32) -> Result<TextId, ZeroTextId> {
        if v == 0 {
            Err(ZeroTextId)
        } else {
            Ok(TextId { id: v })
        }
    }
}

/// A text handle is written as its number, a `u32` in the byte order of the
/// machine; the number 0 reads back as no handle.
impl WireFormat for TextId {
    type Model = u32;

    open spec fn model(&self) -> u32 {
        self.value()
    }

    open spec fn spec_encodes(m: u32, bytes: Seq<u8>) -> bool {
        m != 0 && bytes == ne_u32(m)
    }

    open spec fn spec_encodable(m: u32) -> bool {
        m != 0
    }

    open spec fn spec_decode(bytes: Seq<u8>) -> Option<(u32, nat)> {
        if bytes.len() < 4 {
            None
        } else {
            let v = from_ne_u32(bytes.subrange(0, 4));
            if v == 0 {
                None
            } else {
                Some((v, 4))
            }
        }
    }

    open spec fn spec_faithful() -> bool {
        true
    }

    proof fn lemma_round_trip(m: u32, bytes: Seq<u8>, rest: Seq<u8>) {
        lemma_ne_u32();
        assert((bytes + rest).subrange(0, 4) =~= bytes);
    }

    proof fn lemma_decode_bounded(bytes: Seq<u8>) {
    }
}

impl Serialize for TextId {
    fn serialize<W: WriteUninit>(&self, serializer: &mut Serializer<W>) -> (r:
        crate::snapshot::Result<()>) {
        let v = self.get();
        v.serialize(serializer)
    }
}

impl Deserialize for TextId {
    fn deserialize<R: ReadUninit>(deserializer: &mut Deserializer<R>) -> (r:
        crate::snapshot::Result<Self>) {
        let v = u32::deserialize(deserializer)?;
        if v == 0 {
            proof {
                lemma_ne_u32();
            }
            Err(Error::Deserialize(String::from_str("text id is 0")))
        } else {
            Ok(TextId { id: v })
        }
    }
}

/// Converting a number into a text handle fails exactly for 0, and otherwise
/// gives the handle of that number.
pub proof fn lemma_text_id_try_from(value: u32)
    ensures
        (value == 0) <==> <TextId as vstd::std_specs::convert::TryFromSpec<u32>>::try_from_spec(
            value,
        ) is Err,
        <TextId as vstd::std_specs::convert::TryFromSpec<u32>>::try_from_spec(value) matches Ok(
            t,
        ) ==> t.value() == value,
{
}

/// A hash of the current version of a text.
#[derive(Clone, Copy, Debug, Hash, PartialEq, Eq)]
pub struct TextHash([u8; 8]);

impl Default for TextHash {
    /// The hash of no text: eight zero bytes, as `create_empty` gives.
    fn default() -> (r: TextHash)
        ensures
            r.bytes() == seq![0u8, 0u8, 0u8, 0u8, 0u8, 0u8, 0u8, 0u8],
    {
        TextHash::create_empty()
    }
}

impl TextHash {
    pub closed spec fn bytes(&self) -> Seq<u8> {
        self.0@
    }

    /// Two hashes of the same bytes are the same hash: so `create_empty()` is
    /// `default()`.
    pub proof fn lemma_same_bytes(a: TextHash, b: TextHash)
        requires
            a.bytes() == b.bytes(),
        ensures
            a == b,
    {
        assert(a.0 =~= b.0);
    }

    /// The hash of no text: eight zero bytes.
    pub fn create_empty() -> (r: TextHash)
        ensures
            r.bytes() == seq![0u8, 0u8, 0u8, 0u8, 0u8, 0u8, 0u8, 0u8],
    {
        let r = TextHash([0u8; 8]);
        assert(r.bytes() =~= seq![0u8, 0u8, 0u8, 0u8, 0u8, 0u8, 0u8, 0u8]);
        r
    }

    /// The hash made of the first eight bytes of `bytes`, padded with zeros.
    pub fn from_slice(bytes: &[u8]) -> (r: TextHash)
        ensures
            r.bytes() == hash_bytes(bytes@),
    {
        TextHash(first_eight_bytes(bytes))
    }

    pub fn as_bytes(&self) -> (r: [u8; 8])
        ensures
            r@ == self.bytes(),
    {
        self.0
    }
}

/// The states of a text in the text asset manager.
#[derive(Debug, Clone, Copy, PartialEq, Eq, Structural, Hash)]
pub enum TextType {
    Pending,
    Engine,
    Loaded,
    Failed,
}

#[derive(Clone, Copy, Debug, PartialEq, Eq, Structural)]
pub enum CreatePendingTextStatus {
    Success,
    OutputPendingTextNull,
}

#[derive(Clone, Copy, Debug, PartialEq, Eq, Structural)]
pub enum GetTextTypeByIdStatus {
    Success,
    TextAssetManagerNull,
    TextTypeNull,
    TextIdNotFound,
}

#[derive(Clone, Copy, Debug, PartialEq, Eq, Structural)]
pub enum GetTextByIdStatus {
    Success,
    TextAssetManagerNull,
    OutputTextNull,
    TextIdNotFound,
    TextTypeIncorrect,
}

#[derive(Clone, Copy, Debug, PartialEq, Eq, Structural)]
pub enum GetTextTypeByPathStatus {
    Success,
    TextPathNull,
    TextAssetManagerNull,
    TextTypeNull,
    TextPathNotFound,
}

#[derive(Clone, Copy, Debug, PartialEq, Eq, Structural)]
pub enum GetTextByPathStatus {
    Success,
    TextPathNull,
    TextAssetManagerNull,
    OutputTextNull,
    TextIdNotFound,
    TextTypeIncorrect,
}

#[derive(Clone, Copy, Debug, PartialEq, Eq, Structural)]
pub enum LoadTextStatus {
    Success,
    TextAssetManagerNull,
    OutputPendingTextNull,
    LoadTextError,
}

#[derive(Clone, Copy, Debug, PartialEq, Eq, Structural)]
pub enum LoadTextByPendingTextStatus {
    Success,
    PendingTextNull,
    TextAssetManagerNull,
    LoadTextError,
}

} // verus!
