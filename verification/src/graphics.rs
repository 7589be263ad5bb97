//! Handles and small components of the rendering API.
use vstd::prelude::*;
use crate::ecs::AssetId;

verus! {

/// A handle identifying a texture.
#[derive(Clone, Copy, Debug, Default, Hash, PartialEq, Eq, Structural, PartialOrd, Ord)]
pub struct TextureId(pub u32);

/// The texture that draws plain white.
pub fn white_texture_texture_id() -> (r: TextureId)
    ensures
        r.0 == 0,
{
    TextureId(0)
}

/// The texture drawn in place of one that could not be found.
pub fn missing_texture_texture_id() -> (r: TextureId)
    ensures
        r.0 == 1,
{
    TextureId(1)
}

impl From<u32> for TextureId {
    fn from(value: u32) -> (r: TextureId) {
        TextureId(value)
    }
}

impl vstd::std_specs::convert::FromSpecImpl<u32> for TextureId {
    open spec fn obeys_from_spec() -> bool {
        true
    }

    open spec fn from_spec(v: u32) -> TextureId {
        TextureId(v)
    }
}

/// The handle of a particle effect: `None` until the effect is registered
/// with a particle manager; a registered handle is never 0.
pub type ParticleEffectHandle = Option<u64>;

/// How a drawn color is combined with what is already drawn.
#[derive(Debug, Clone, Copy, PartialEq, Eq, Structural)]
pub enum BlendTypes {
    PremultipliedBlendSourceOver,
    Copy,
    UnPremultipliedBlend,
    AdditiveLighten,
    DestinationOver,
    DestinationIn,
    DestinationOut,
    DestinationAtop,
    SourceIn,
    SourceOut,
    SourceAtop,
}

/// The value of the `visible` flags of components that do not say otherwise.
pub fn default_true() -> (r: bool)
    ensures
        r,
{
    true
}

/// Draws its entity in a single color.
#[derive(Debug)]
pub struct ColorRender {
    pub visible: bool,
}

impl Default for ColorRender {
    fn default() -> (r: ColorRender)
        ensures
            r.visible,
    {
        ColorRender { visible: true }
    }
}

/// Draws its entity as a regular polygon that approximates a circle.
#[derive(Debug)]
pub struct CircleRender {
    pub num_sides: u32,
    pub visible: bool,
}

impl Default for CircleRender {
    fn default() -> (r: CircleRender)
        ensures
            r.num_sides == 32,
            r.visible,
    {
        CircleRender { num_sides: 32, visible: true }
    }
}

impl CircleRender {
    /// A visible circle of `num_sides` sides.
    pub fn new(num_sides: u32) -> (r: CircleRender)
        ensures
            r.num_sides == num_sides,
            r.visible,
    {
        CircleRender { num_sides, visible: true }
    }
}

/// The number of sides of a circle that does not say otherwise.
pub fn default_circle_render_num_sides() -> (r: u32)
    ensures
        r == 32,
{
    let c = CircleRender::default();
    c.num_sides
}

/// The first eight bytes of `bytes`, padded with zeros when it is shorter.
pub open spec fn hash_bytes(bytes: Seq<u8>) -> Seq<u8> {
    Seq::new(8, |i: int| if i < bytes.len() { bytes[i] } else { 0u8 })
}

/// Copies the first eight bytes of `bytes` into an array, padding with zeros.
pub fn first_eight_bytes(bytes: &[u8]) -> (r: [u8; 8])
    ensures
        r@ == hash_bytes(bytes@),
{
    let mut array = [0u8; 8];
    let mut index: usize = 0;
    while index < 8
        invariant
            index <= 8,
            array@.len() == 8,
            forall|i: int| 0 <= i < index ==> array@[i] == hash_bytes(bytes@)[i],
            forall|i: int| index <= i < 8 ==> array@[i] == 0u8,
        decreases 8 - index,
    {
        if index < bytes.len() {
            array[index] = bytes[index];
        }
        index = index + 1;
    }
    assert(array@ =~= hash_bytes(bytes@));
    array
}

/// A hash of the current version of a texture.
#[derive(Clone, Copy, Debug, Hash, PartialEq, Eq)]
pub struct TextureHash([u8; 8]);

impl Default for TextureHash {
    /// The hash of no texture: eight zero bytes, as `create_empty` gives.
    fn default() -> (r: TextureHash)
        ensures
            r.bytes() == seq![0u8, 0u8, 0u8, 0u8, 0u8, 0u8, 0u8, 0u8],
    {
        TextureHash::create_empty()
    }
}

impl TextureHash {
    pub closed spec fn bytes(&self) -> Seq<u8> {
        self.0@
    }

    /// Two hashes of the same bytes are the same hash: so `create_empty()` is
    /// `default()`.
    pub proof fn lemma_same_bytes(a: TextureHash, b: TextureHash)
        requires
            a.bytes() == b.bytes(),
        ensures
            a == b,
    {
        assert(a.0 =~= b.0);
    }

    /// The hash of no texture: eight zero bytes.
    pub fn create_empty() -> (r: TextureHash)
        ensures
            r.bytes() == seq![0u8, 0u8, 0u8, 0u8, 0u8, 0u8, 0u8, 0u8],
    {
        let r = TextureHash([0u8; 8]);
        assert(r.bytes() =~= seq![0u8, 0u8, 0u8, 0u8, 0u8, 0u8, 0u8, 0u8]);
        r
    }

    /// The hash made of the first eight bytes of `bytes`, padded with zeros.
    pub fn from_slice(bytes: &[u8]) -> (r: TextureHash)
        ensures
            r.bytes() == hash_bytes(bytes@),
    {
        TextureHash(first_eight_bytes(bytes))
    }

    pub fn as_bytes(&self) -> (r: [u8; 8])
        ensures
            r@ == self.bytes(),
    {
        self.0
    }
}

/// A particle effect drawn at an entity; an entity has at most one.
#[derive(Debug)]
pub struct ParticleRender {
    descriptor_id: AssetId,
    handle: ParticleEffectHandle,
    visible: bool,
}

/// Hands out the handles of particle effects.
pub trait ParticleManager {
    /// The handle most recently handed out.
    spec fn current_handle(&self) -> ParticleEffectHandle;

    /// Another handle can be handed out.
    spec fn can_issue(&self) -> bool;

    /// Hands out a new handle, which is then the current one.
    fn next_effect_handle(&mut self) -> (r: ParticleEffectHandle)
        requires
            old(self).can_issue(),
        ensures
            r == final(self).current_handle(),
            r matches Some(h) ==> h != 0,
    ;
}

impl ParticleRender {
    pub closed spec fn spec_descriptor_id(&self) -> AssetId {
        self.descriptor_id
    }

    pub closed spec fn spec_handle(&self) -> ParticleEffectHandle {
        self.handle
    }

    pub closed spec fn spec_visible(&self) -> bool {
        self.visible
    }

    /// An effect of the descriptor `descriptor_id`, not yet registered.
    pub fn new(descriptor_id: AssetId, visible: bool) -> (r: ParticleRender)
        ensures
            r.spec_descriptor_id() == descriptor_id,
            r.spec_handle() is None,
            r.spec_visible() == visible,
    {
        ParticleRender { descriptor_id, handle: None, visible }
    }

    pub fn handle(&self) -> (r: ParticleEffectHandle)
        ensures
            r == self.spec_handle(),
    {
        self.handle
    }

    pub fn set_visibility(&mut self, new_visibility: bool)
        ensures
            final(self).spec_visible() == new_visibility,
            final(self).spec_handle() == old(self).spec_handle(),
            final(self).spec_descriptor_id() == old(self).spec_descriptor_id(),
    {
        self.visible = new_visibility;
    }

    pub fn visible(&self) -> (r: bool)
        ensures
            r == self.spec_visible(),
    {
        self.visible
    }

    pub fn descriptor_id(&self) -> (r: AssetId)
        ensures
            r == self.spec_descriptor_id(),
    {
        self.descriptor_id
    }

    /// Registers the effect with `particle_manager`, which hands it its handle.
    pub fn init_effect<P: ParticleManager>(&mut self, particle_manager: &mut P)
        requires
            old(particle_manager).can_issue(),
        ensures
            final(self).spec_handle() == final(particle_manager).current_handle(),
            final(self).spec_visible() == old(self).spec_visible(),
            final(self).spec_descriptor_id() == old(self).spec_descriptor_id(),
    {
        self.handle = particle_manager.next_effect_handle();
    }
}

/// The states of a texture in the texture asset manager.
#[derive(Debug, Clone, Copy, PartialEq, Eq, Structural, Hash)]
pub enum TextureType {
    Pending,
    Engine,
    Loaded,
    Failed,
}

#[derive(Clone, Copy, Debug, PartialEq, Eq, Structural)]
pub enum CreatePendingTexture {
    Success,
    OutputPendingTextureNull,
}

#[derive(Clone, Copy, Debug, PartialEq, Eq, Structural)]
pub enum GetTextureTypeByIdStatus {
    Success,
    TextureAssetManagerNull,
    TextureTypeNull,
    TextureIdNotFound,
}

#[derive(Clone, Copy, Debug, PartialEq, Eq, Structural)]
pub enum GetTextureByIdStatus {
    Success,
    TextureAssetManagerNull,
    OutputTextureNull,
    TextureIdNotFound,
    TextureTypeIncorrect,
}

#[derive(Clone, Copy, Debug, PartialEq, Eq, Structural)]
pub enum GetTextureTypeByPathStatus {
    Success,
    TexturePathNull,
    TextureAssetManagerNull,
    TextureTypeNull,
    TexturePathNotFound,
}

#[derive(Clone, Copy, Debug, PartialEq, Eq, Structural)]
pub enum GetTextureByPathStatus {
    Success,
    TexturePathNull,
    TextureAssetManagerNull,
    OutputTextureNull,
    TextureIdNotFound,
    TextureTypeIncorrect,
}

#[derive(Clone, Copy, Debug, PartialEq, Eq, Structural)]
pub enum LoadTextureStatus {
    Success,
    TextureAssetManagerNull,
    OutputPendingTextureNull,
    LoadTextureError,
}

#[derive(Clone, Copy, Debug, PartialEq, Eq, Structural)]
pub enum LoadTextureByPendingTextureStatus {
    Success,
    PendingTextureNull,
    TextureAssetManagerNull,
    LoadTextureError,
}

} // verus!
