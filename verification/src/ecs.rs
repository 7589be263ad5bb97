//! The core types of the module API: API versions, entities, assets and
//! component data.
use vstd::bytes::*;
use vstd::prelude::*;
use crate::snapshot_scalars::{from_ne_u64, lemma_ne_u64, ne_u64};
use core::marker::PhantomData;
use crate::snapshot::{
    Deserialize, Deserializer, Error, ReadUninit, Serialize, Serializer,
    WireFormat, WriteUninit,
};

verus! {

/// An API version packed into 32 bits: the major version in the top 7 bits,
/// the minor version in the next 10 bits, and the patch in the low 15 bits.
pub open spec fn spec_make_api_version(major: u32, minor: u32, patch: u32) -> u32 {
    (major << 25u32) | (minor << 15u32) | patch
}

pub open spec fn spec_api_version_major(version: u32) -> u32 {
    version >> 25u32
}

pub open spec fn spec_api_version_minor(version: u32) -> u32 {
    (version >> 15u32) & 0x3ffu32
}

pub open spec fn spec_api_version_patch(version: u32) -> u32 {
    version & 0x7fffu32
}

/// The version of the engine API that this library supports: 0.0.20.
pub const ENGINE_VERSION: u32 = 20;

pub fn make_api_version(major: u32, minor: u32, patch: u32) -> (r: u32)
    ensures
        r == spec_make_api_version(major, minor, patch),
        major < 128 && minor < 1024 && patch < 32768 ==> r == major * 0x2000000 + minor * 0x8000
            + patch,
{
    let r = (major << 25) | (minor << 15) | patch;
    assert(major < 128 && minor < 1024 && patch < 32768 ==> (major << 25u32) | (minor << 15u32)
        | patch == major * 0x2000000 + minor * 0x8000 + patch) by (bit_vector);
    r
}

pub fn api_version_major(version: u32) -> (r: u32)
    ensures
        r == spec_api_version_major(version),
        r == version / 0x2000000,
{
    assert(version >> 25u32 == version / 0x2000000) by (bit_vector);
    version >> 25
}

pub fn api_version_minor(version: u32) -> (r: u32)
    ensures
        r == spec_api_version_minor(version),
        r == (version / 0x8000) % 1024,
{
    let mask: u32 = !(!0u32 << 10u32);
    assert(mask == 0x3ffu32) by (bit_vector)
        requires
            mask == !(!0u32 << 10u32),
    ;
    assert((version >> 15u32) & 0x3ffu32 == (version / 0x8000) % 1024) by (bit_vector);
    (version >> 15) & mask
}

pub fn api_version_patch(version: u32) -> (r: u32)
    ensures
        r == spec_api_version_patch(version),
        r == version % 32768,
{
    let mask: u32 = !(!0u32 << 15u32);
    assert(mask == 0x7fffu32) by (bit_vector)
        requires
            mask == !(!0u32 << 15u32),
    ;
    assert(version & 0x7fffu32 == version % 32768) by (bit_vector);
    version & mask
}

/// A module built for `version` can run on this engine: major, minor and
/// patch versions all agree (until the first public release, a patch may
/// break the API).
pub fn api_version_compatible(version: u32) -> (r: bool)
    ensures
        r == (spec_api_version_major(ENGINE_VERSION) == spec_api_version_major(version)
            && spec_api_version_minor(ENGINE_VERSION) == spec_api_version_minor(version)
            && spec_api_version_patch(ENGINE_VERSION) == spec_api_version_patch(version)),
        r == (version == ENGINE_VERSION),
{
    proof {
        lemma_api_version_split(version);
        lemma_api_version_split(ENGINE_VERSION);
    }
    api_version_major(ENGINE_VERSION) == api_version_major(version) && api_version_minor(
        ENGINE_VERSION,
    ) == api_version_minor(version) && api_version_patch(ENGINE_VERSION) == api_version_patch(
        version,
    )
}

/// Packing a version and reading it back gives its parts, as long as each part
/// fits in its bits.
pub proof fn lemma_api_version_round_trip(major: u32, minor: u32, patch: u32)
    requires
        major < 128,
        minor < 1024,
        patch < 32768,
    ensures
        spec_api_version_major(spec_make_api_version(major, minor, patch)) == major,
        spec_api_version_minor(spec_make_api_version(major, minor, patch)) == minor,
        spec_api_version_patch(spec_make_api_version(major, minor, patch)) == patch,
{
    assert(major < 128 && minor < 1024 && patch < 32768 ==> ((major << 25u32) | (minor << 15u32)
        | patch) >> 25u32 == major) by (bit_vector);
    assert(major < 128 && minor < 1024 && patch < 32768 ==> ((((major << 25u32) | (minor
        << 15u32) | patch) >> 15u32) & 0x3ffu32) == minor) by (bit_vector);
    assert(major < 128 && minor < 1024 && patch < 32768 ==> (((major << 25u32) | (minor << 15u32)
        | patch) & 0x7fffu32) == patch) by (bit_vector);
}

/// Every 32-bit value is the version made of its own parts.
pub proof fn lemma_api_version_split(version: u32)
    ensures
        spec_make_api_version(
            spec_api_version_major(version),
            spec_api_version_minor(version),
            spec_api_version_patch(version),
        ) == version,
        spec_api_version_major(version) < 128,
        spec_api_version_minor(version) < 1024,
        spec_api_version_patch(version) < 32768,
{
    assert(((version >> 25u32) << 25u32) | (((version >> 15u32) & 0x3ffu32) << 15u32) | (version
        & 0x7fffu32) == version) by (bit_vector);
    assert(version >> 25u32 < 128) by (bit_vector);
    assert((version >> 15u32) & 0x3ffu32 < 1024) by (bit_vector);
    assert(version & 0x7fffu32 < 32768) by (bit_vector);
}

/// A handle identifying a component or resource type; never 0.
pub type ComponentId = u16;

/// A handle identifying a loaded asset.
#[derive(Clone, Copy, Debug, Hash, PartialEq, Eq, Structural, PartialOrd, Ord)]
pub struct AssetId(pub u32);

impl From<u32> for AssetId {
    fn from(value: u32) -> (r: AssetId) {
        AssetId(value)
    }
}

impl vstd::std_specs::convert::FromSpecImpl<u32> for AssetId {
    open spec fn obeys_from_spec() -> bool {
        true
    }

    open spec fn from_spec(v: u32) -> AssetId {
        AssetId(v)
    }
}

/// A type known to the entity component system.
pub trait EcsType {
    fn id() -> ComponentId;

    fn string_id() -> &'static str;
}

/// A type that can be a component of an entity.
pub trait Component: EcsType + Copy {

}

/// A type that can be a resource of the engine.
pub trait Resource: EcsType + crate::snapshot::Serialize + crate::snapshot::Deserialize + Sized {
    fn new() -> Self;
}

/// An optional value with a fixed layout, for values of `Copy` types.
#[derive(Debug, Clone, Copy)]
pub struct FfiOption<T: Copy> {
    val: Option<T>,
}

impl<T: Copy> FfiOption<T> {
    pub closed spec fn view_option(&self) -> Option<T> {
        self.val
    }

    pub fn new(val: Option<T>) -> (r: FfiOption<T>)
        ensures
            r.view_option() == val,
    {
        FfiOption { val }
    }

    /// The value; it must be there.
    pub fn unwrap(self) -> (r: T)
        requires
            self.view_option() is Some,
        ensures
            Some(r) == self.view_option(),
    {
        match self.val {
            Some(v) => v,
            None => {
                proof {
                    assert(false);
                }
                self.val.unwrap()
            },
        }
    }

    pub fn unwrap_or(self, default: T) -> (r: T)
        ensures
            r == match self.view_option() {
                Some(v) => v,
                None => default,
            },
    {
        match self.val {
            Some(v) => v,
            None => default,
        }
    }

    pub fn borrow(&self) -> (r: Option<&T>)
        ensures
            match (r, self.view_option()) {
                (Some(a), Some(b)) => *a == b,
                (None, None) => true,
                _ => false,
            },
    {
        match &self.val {
            Some(v) => Some(v),
            None => None,
        }
    }

    pub fn set(&mut self, val: Option<T>)
        ensures
            final(self).view_option() == val,
    {
        self.val = val;
    }
}

/// A handle representing an entity; never 0.
#[derive(Debug, Hash, PartialEq, Eq, Structural, Clone, Copy)]
pub struct EntityId {
    id: u64,
}

impl EntityId {
    #[verifier::type_invariant]
    spec fn nonzero(self) -> bool {
        self.id != 0
    }

    pub closed spec fn value(self) -> u64 {
        self.id
    }

    pub fn new(value: u64) -> (r: EntityId)
        requires
            value != 0,
        ensures
            r.value() == value,
    {
        EntityId { id: value }
    }

    /// The entity with the number `value`, unless it is 0.
    pub fn from_u64(value: u64) -> (r: Option<EntityId>)
        ensures
            value == 0 <==> r is None,
            r matches Some(e) ==> e.value() == value,
    {
        if value == 0 {
            None
        } else {
            Some(EntityId { id: value })
        }
    }

    pub fn get(&self) -> (r: u64)
        ensures
            r == self.value(),
            r != 0,
    {
        proof {
            use_type_invariant(self);
        }
        self.id
    }
}

/// An entity is written as its number, a `u64` in the byte order of the
/// machine; the number 0 reads back as no entity.
impl WireFormat for EntityId {
    type Model = u64;

    open spec fn model(&self) -> u64 {
        self.value()
    }

    open spec fn spec_encodes(m: u64, bytes: Seq<u8>) -> bool {
        m != 0 && bytes == ne_u64(m)
    }

    open spec fn spec_encodable(m: u64) -> bool {
        m != 0
    }

    open spec fn spec_decode(bytes: Seq<u8>) -> Option<(u64, nat)> {
        if bytes.len() < 8 {
            None
        } else {
            let v = from_ne_u64(bytes.subrange(0, 8));
            if v == 0 {
                None
            } else {
                Some((v, 8))
            }
        }
    }

    open spec fn spec_faithful() -> bool {
        true
    }

    proof fn lemma_round_trip(m: u64, bytes: Seq<u8>, rest: Seq<u8>) {
        lemma_ne_u64();
        assert((bytes + rest).subrange(0, 8) =~= bytes);
    }

    proof fn lemma_decode_bounded(bytes: Seq<u8>) {
    }
}

impl Serialize for EntityId {
    fn serialize<W: WriteUninit>(&self, serializer: &mut Serializer<W>) -> (r:
        crate::snapshot::Result<()>) {
        let v = self.get();
        v.serialize(serializer)
    }
}

impl Deserialize for EntityId {
    fn deserialize<R: ReadUninit>(deserializer: &mut Deserializer<R>) -> (r:
        crate::snapshot::Result<Self>) {
        let ghost start = deserializer.unread();
        let v = u64::deserialize(deserializer)?;
        match EntityId::from_u64(v) {
            Some(e) => Ok(e),
            None => {
                proof {
                    lemma_ne_u64();
                }
                Err(Error::Deserialize(String::from_str("entity id is 0")))
            },
        }
    }
}

/// The state of a button in the current frame.
#[derive(Copy, Clone, Debug, Default)]
pub struct ButtonState {
    pub pressed: bool,
    pub pressed_this_frame: bool,
    pub released_this_frame: bool,
}

/// The data of one component, of any type, by value.
#[derive(Debug)]
pub struct ComponentData {
    component_id: Option<ComponentId>,
    component_data: Vec<u8>,
}

impl ComponentData {
    pub closed spec fn spec_component_id(&self) -> Option<ComponentId> {
        self.component_id
    }

    pub closed spec fn data(&self) -> Seq<u8> {
        self.component_data@
    }

    pub fn new(component_id: ComponentId, component_data: Vec<u8>) -> (r: ComponentData)
        requires
            component_id != 0,
        ensures
            r.spec_component_id() == Some(component_id),
            r.data() == component_data@,
    {
        ComponentData { component_id: Some(component_id), component_data }
    }

    pub fn component_id(&self) -> (r: Option<ComponentId>)
        ensures
            r == self.spec_component_id(),
    {
        self.component_id
    }

    pub fn component_data(&self) -> (r: &[u8])
        ensures
            r@ == self.data(),
    {
        self.component_data.as_slice()
    }
}

/// Moves the elements of an array into a vector, in order.
#[verifier::external_body]
fn array_into_vec<T, const N: usize>(items: [T; N]) -> (r: Vec<T>)
    ensures
        r@ == items@,
{
    Vec::from(items)
}

/// Collects the data of components of any types, for spawning an entity.
#[derive(Debug)]
pub struct ComponentBuilder(Vec<ComponentData>);

impl ComponentBuilder {
    pub closed spec fn components(&self) -> Seq<ComponentData> {
        self.0@
    }

    pub fn from_array<const N: usize>(components: [ComponentData; N]) -> (r: ComponentBuilder)
        ensures
            r.components() == components@,
    {
        ComponentBuilder(array_into_vec(components))
    }

    /// Adds the components at the end, in order.
    pub fn add_components<const N: usize>(&mut self, components: [ComponentData; N])
        ensures
            final(self).components() == old(self).components() + components@,
    {
        let mut more = array_into_vec(components);
        self.0.append(&mut more);
    }

    pub fn len(&self) -> (r: usize)
        ensures
            r == self.components().len(),
    {
        self.0.len()
    }

    pub fn get(&self, index: usize) -> (r: &ComponentData)
        requires
            index < self.components().len(),
        ensures
            *r == self.components()[index as int],
    {
        &self.0[index]
    }
}

/// Read access to the components `Q` of a query's entity.
#[derive(Debug)]
pub struct QueryComponentsRef<'a, Q> {
    q: Q,
    marker: PhantomData<&'a Q>,
}

impl<'a, Q> QueryComponentsRef<'a, Q> {
    pub closed spec fn view_components(&self) -> Q {
        self.q
    }

    pub fn new(q: Q) -> (r: QueryComponentsRef<'a, Q>)
        ensures
            r.view_components() == q,
    {
        QueryComponentsRef { q, marker: PhantomData }
    }

    pub fn unpack(&self) -> (r: &Q)
        ensures
            *r == self.view_components(),
    {
        &self.q
    }
}

/// Write access to the components `Q` of a query's entity.
#[derive(Debug)]
pub struct QueryComponentsRefMut<'a, Q> {
    q: Q,
    marker: PhantomData<&'a mut Q>,
}

impl<'a, Q> QueryComponentsRefMut<'a, Q> {
    pub closed spec fn view_components(&self) -> Q {
        self.q
    }

    pub fn new(q: Q) -> (r: QueryComponentsRefMut<'a, Q>)
        ensures
            r.view_components() == q,
    {
        QueryComponentsRefMut { q, marker: PhantomData }
    }

    pub fn unpack(&mut self) -> (r: &mut Q)
        ensures
            *r == old(self).view_components(),
            final(self).view_components() == *final(r),
    {
        &mut self.q
    }
}

/// What a callback run for each entity of a query asks of the iteration.
#[derive(Clone, Copy, Debug, PartialEq, Eq, Structural)]
pub enum ForEachResult {
    Continue,
    Break,
    Error,
}

/// A code that names no `ForEachResult`.
#[derive(Clone, Copy, Debug, PartialEq, Eq, Structural)]
pub struct InvalidForEachResult(pub i32);

impl ForEachResult {
    /// The code of the result across the C API: 0, 1 and 2 in order.
    pub open spec fn spec_code(self) -> i32 {
        match self {
            ForEachResult::Continue => 0,
            ForEachResult::Break => 1,
            ForEachResult::Error => 2,
        }
    }
}

impl TryFrom<i32> for ForEachResult {
    type Error = InvalidForEachResult;

    fn try_from(value: i32) -> (r: Result<ForEachResult, InvalidForEachResult>) {
        match value {
            0 => Ok(ForEachResult::Continue),
            1 => Ok(ForEachResult::Break),
            2 => Ok(ForEachResult::Error),
            _ => Err(InvalidForEachResult(value)),
        }
    }
}

impl vstd::std_specs::convert::TryFromSpecImpl<i32> for ForEachResult {
    open spec fn obeys_try_from_spec() -> bool {
        true
    }

    open spec fn try_from_spec(v: i32) -> Result<ForEachResult, InvalidForEachResult> {
        if v == 0 {
            Ok(ForEachResult::Continue)
        } else if v == 1 {
            Ok(ForEachResult::Break)
        } else if v == 2 {
            Ok(ForEachResult::Error)
        } else {
            Err(InvalidForEachResult(v))
        }
    }
}

/// The kinds of type that the engine registers.
#[derive(Clone, Copy, Debug, PartialEq, Eq, Structural)]
pub enum ComponentType {
    AsyncCompletion,
    Component,
    Resource,
}

/// The kinds of argument that a system takes.
#[derive(Clone, Copy, Debug, PartialEq, Eq, Structural)]
pub enum ArgType {
    Completion,
    DataAccessMut,
    DataAccessRef,
    EventReader,
    EventWriter,
    Query,
}

} // verus!
