//! Handles and status codes of the material system.
use vstd::prelude::*;
use crate::graphics::TextureId;

verus! {

/// A handle identifying a shader template.
#[derive(Clone, Copy, Debug, Hash, PartialEq, Eq, Structural, PartialOrd, Ord)]
pub struct ShaderTemplateId(pub u32);

impl From<u32> for ShaderTemplateId {
    fn from(value: u32) -> (r: ShaderTemplateId) {
        ShaderTemplateId(value)
    }
}

impl vstd::std_specs::convert::FromSpecImpl<u32> for ShaderTemplateId {
    open spec fn obeys_from_spec() -> bool {
        true
    }

    open spec fn from_spec(v: u32) -> ShaderTemplateId {
        ShaderTemplateId(v)
    }
}

/// A handle identifying a material.
#[derive(Clone, Copy, Debug, Hash, PartialEq, Eq, Structural, PartialOrd, Ord)]
pub struct MaterialId(pub u32);

impl From<u32> for MaterialId {
    fn from(value: u32) -> (r: MaterialId) {
        MaterialId(value)
    }
}

impl vstd::std_specs::convert::FromSpecImpl<u32> for MaterialId {
    open spec fn obeys_from_spec() -> bool {
        true
    }

    open spec fn from_spec(v: u32) -> MaterialId {
        MaterialId(v)
    }
}

/// The materials that every renderer registers first.
#[derive(Clone, Copy, Debug, PartialEq, Eq, Structural)]
pub enum DefaultMaterials {
    Sprite,
    PassThru,
    MissingOrBroken,
}

impl DefaultMaterials {
    pub open spec fn spec_material_id(self) -> MaterialId {
        match self {
            DefaultMaterials::Sprite => MaterialId(0),
            DefaultMaterials::PassThru => MaterialId(1),
            DefaultMaterials::MissingOrBroken => MaterialId(2),
        }
    }

    /// The fixed handle of the default material: they are numbered from zero
    /// in the order in which they are declared.
    pub fn material_id(&self) -> (r: MaterialId)
        ensures
            r == self.spec_material_id(),
    {
        match self {
            DefaultMaterials::Sprite => MaterialId(0),
            DefaultMaterials::PassThru => MaterialId(1),
            DefaultMaterials::MissingOrBroken => MaterialId(2),
        }
    }
}

/// The most uniform values that a material can hold.
pub const UNIFORM_LIMIT: usize = 256;

/// The most textures that a material can bind.
pub const TEXTURE_LIMIT: usize = 16;

/// The material of parameters that name none: the sprite material.
pub fn default_material_parameters_material_id() -> (r: MaterialId)
    ensures
        r == DefaultMaterials::Sprite.spec_material_id(),
{
    DefaultMaterials::Sprite.material_id()
}

/// The textures of parameters that name none: the missing texture in every slot.
pub fn default_material_parameters_textures() -> (r: [TextureId; 16])
    ensures
        forall|i: int| 0 <= i < 16 ==> #[trigger] r@[i] == TextureId(1),
{
    [TextureId(1); 16]
}

/// The kinds of value that a uniform can hold.
#[derive(Clone, Copy, Debug, PartialEq, Eq, Structural)]
pub enum UniformValueType {
    F32,
    Vec4,
    Array,
}

/// How a texture is sampled between its pixels.
#[derive(Clone, Copy, Debug, PartialEq, Eq, Structural)]
pub enum FilterMode {
    Nearest,
    Linear,
}

#[derive(Clone, Copy, Debug, PartialEq, Eq, Structural)]
pub enum LoadShaderTemplateFromPathResult {
    Success,
    MaterialManagerNull,
    TextAssetManagerNull,
    OutputPendingTextNull,
    ShaderTemplateLoadError,
}

#[derive(Clone, Copy, Debug, PartialEq, Eq, Structural)]
pub enum LoadMaterialFromPathResult {
    Success,
    MaterialManagerNull,
    TextAssetManagerNull,
    OutputPendingTextNull,
    MaterialLoadError,
}

#[derive(Clone, Copy, Debug, PartialEq, Eq, Structural)]
pub enum RegisterMaterialFromStringResult {
    Success,
    MaterialManagerNull,
    OutputMaterialIdNull,
    RegisterMaterialError,
}

#[derive(Clone, Copy, Debug, PartialEq, Eq, Structural)]
pub enum GetIdFromTextIdResult {
    Success,
    MaterialManagerNull,
    OutputMaterialIdNull,
    TextIdNotFound,
}

#[derive(Clone, Copy, Debug, PartialEq, Eq, Structural)]
pub enum UniformNamesDefaultValuesLenResult {
    Success,
    MaterialManagerNull,
    OutputLenNull,
    IdNotFound,
    NoUniforms,
}

#[derive(Clone, Copy, Debug, PartialEq, Eq, Structural)]
pub enum UniformNamesDefaultValuesResult {
    Success,
    MaterialManagerNull,
    IdNotFound,
    InputArrayIncorrectLen,
    NoUniforms,
}

#[derive(Clone, Copy, Debug, PartialEq, Eq, Structural)]
pub enum GenerateShaderTextResult {
    Success,
    OutputStringNull,
    OutputLenNull,
    MaterialManagerNull,
    ErrorGeneratingText,
    ErrorConvertingTextToCString,
}

#[derive(Clone, Copy, Debug, PartialEq, Eq, Structural)]
pub enum UpdateMaterialFromStringResult {
    Success,
    MaterialManagerNull,
    NameAndTomlNull,
    ErrorUpdatingMaterial,
}

#[derive(Clone, Copy, Debug, PartialEq, Eq, Structural)]
pub enum AsUniformValuesLenResult {
    Success,
    MaterialParametersNull,
    MaterialManagerNull,
    OutputLenNull,
    ErrorInAsMaterialUniforms,
}

#[derive(Clone, Copy, Debug, PartialEq, Eq, Structural)]
pub enum AsUniformValuesResult {
    Success,
    MaterialParametersNull,
    MaterialManagerNull,
    OutputUniformValuesNull,
    InputArrayIncorrectLen,
    ErrorInAsMaterialUniforms,
}

#[derive(Clone, Copy, Debug, PartialEq, Eq, Structural)]
pub enum UpdateFromUniformValuesResult {
    Success,
    MaterialParametersNull,
    UpdateFailed,
}

#[derive(Clone, Copy, Debug, PartialEq, Eq, Structural)]
pub enum AsTextureDescsLenResult {
    Success,
    MaterialParametersNull,
    MaterialManagerNull,
    OutputLenNull,
    ErrorInAsTextureDescs,
}

#[derive(Clone, Copy, Debug, PartialEq, Eq, Structural)]
pub enum AsTextureDescsResult {
    Success,
    MaterialParametersNull,
    MaterialManagerNull,
    OutputTextureDescsNull,
    InputArrayIncorrectLen,
    ErrorInAsTextureDescs,
}

#[derive(Clone, Copy, Debug, PartialEq, Eq, Structural)]
pub enum UpdateFromTextureDescsResult {
    Success,
    MaterialParametersNull,
    UpdateFailed,
}

#[derive(Clone, Copy, Debug, PartialEq, Eq, Structural)]
pub enum MaterialsResult {
    Success,
    IncorrectLen,
}

} // verus!
