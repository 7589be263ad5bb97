//! The render targets of the renderer, the render textures of cameras, and the
//! description of loaded textures.
use vstd::prelude::*;
use crate::graphics::TextureId;

verus! {

/// The size and handle of a texture held by the renderer.
#[derive(Debug)]
pub struct TextureMetaData {
    texture_id: TextureId,
    width: u32,
    height: u32,
}

impl TextureMetaData {
    pub fn new(texture_id: TextureId, width: u32, height: u32) -> (r: TextureMetaData)
        ensures
            r.spec_texture_id() == texture_id,
            r.spec_width() == width,
            r.spec_height() == height,
    {
        TextureMetaData { texture_id, width, height }
    }

    pub closed spec fn spec_texture_id(&self) -> TextureId {
        self.texture_id
    }

    pub closed spec fn spec_width(&self) -> u32 {
        self.width
    }

    pub closed spec fn spec_height(&self) -> u32 {
        self.height
    }

    pub fn texture_id(&self) -> (r: TextureId)
        ensures
            r == self.spec_texture_id(),
    {
        self.texture_id
    }

    pub fn width(&self) -> (r: u32)
        ensures
            r == self.spec_width(),
    {
        self.width
    }

    pub fn height(&self) -> (r: u32)
        ensures
            r == self.spec_height(),
    {
        self.height
    }
}

/// The textures that the renderer draws into before the frame reaches the screen.
#[derive(Clone, Copy, Debug, PartialEq, Eq, Structural)]
pub enum RenderTargetType {
    ColorMsaa,
    ColorResolve,
    ColorDownSample1x,
    ColorDownSample2x,
    PostProcess,
    DownSample2xScratch,
}

impl RenderTargetType {
    /// Every render target, in the order in which they are created.
    pub fn all() -> (r: Vec<RenderTargetType>)
        ensures
            r@ == seq![
                RenderTargetType::ColorMsaa,
                RenderTargetType::ColorResolve,
                RenderTargetType::ColorDownSample1x,
                RenderTargetType::ColorDownSample2x,
                RenderTargetType::PostProcess,
                RenderTargetType::DownSample2xScratch,
            ],
    {
        vec![
            RenderTargetType::ColorMsaa,
            RenderTargetType::ColorResolve,
            RenderTargetType::ColorDownSample1x,
            RenderTargetType::ColorDownSample2x,
            RenderTargetType::PostProcess,
            RenderTargetType::DownSample2xScratch,
        ]
    }

    /// The label of the target's texture.
    pub fn label(&self) -> (r: &'static str)
        ensures
            r@ == match self {
                RenderTargetType::ColorMsaa => "GpuTextureManager::ColorMsaa"@,
                RenderTargetType::ColorResolve => "GpuTextureManager::ColorResolve"@,
                RenderTargetType::PostProcess => "GpuTextureManager::PostProcess"@,
                RenderTargetType::ColorDownSample1x => "GpuTextureManager::ColorDownSample1x"@,
                RenderTargetType::ColorDownSample2x => "GpuTextureManager::ColorDownSample2x"@,
                RenderTargetType::DownSample2xScratch => "GpuTextureManager::DownSample2xcratch"@,
            },
    {
        match self {
            RenderTargetType::ColorMsaa => "GpuTextureManager::ColorMsaa",
            RenderTargetType::ColorResolve => "GpuTextureManager::ColorResolve",
            RenderTargetType::PostProcess => "GpuTextureManager::PostProcess",
            RenderTargetType::ColorDownSample1x => "GpuTextureManager::ColorDownSample1x",
            RenderTargetType::ColorDownSample2x => "GpuTextureManager::ColorDownSample2x",
            RenderTargetType::DownSample2xScratch => "GpuTextureManager::DownSample2xcratch",
        }
    }

    /// The size of the target for a screen of `width` by `height` pixels: the
    /// screen's size, or a half or a quarter of it for the downsampled targets.
    pub fn dimensions(&self, width: u32, height: u32) -> (r: (u32, u32))
        ensures
            r == match self {
                RenderTargetType::ColorMsaa
                | RenderTargetType::ColorResolve
                | RenderTargetType::PostProcess => (width, height),
                RenderTargetType::ColorDownSample1x => (width / 2, height / 2),
                RenderTargetType::ColorDownSample2x | RenderTargetType::DownSample2xScratch => (
                    width / 4,
                    height / 4,
                ),
            },
    {
        match self {
            RenderTargetType::ColorMsaa
            | RenderTargetType::ColorResolve
            | RenderTargetType::PostProcess => (width, height),
            RenderTargetType::ColorDownSample1x => (width / 2, height / 2),
            RenderTargetType::ColorDownSample2x | RenderTargetType::DownSample2xScratch => (
                width / 4,
                height / 4,
            ),
        }
    }

    /// Multisampling of the target: four samples for the multisampled color
    /// target, one for the others.
    pub fn sample_count(&self) -> (r: u32)
        ensures
            r == (if *self == RenderTargetType::ColorMsaa {
                4u32
            } else {
                1u32
            }),
    {
        match self {
            RenderTargetType::ColorMsaa => 4,
            _ => 1,
        }
    }
}

/// The graphics interfaces that the renderer can be asked to use.
#[derive(Clone, Copy, Debug, PartialEq, Eq, Structural)]
pub enum GpuConfigBackends {
    Default,
    Vulkan,
    DX12,
    Metal,
    BrowserWebGpu,
    GL,
}

/// One step of the downsampling chain: which target is drawn into, from which.
#[derive(Debug)]
pub struct DownsampleOptions {
    pub name: &'static str,
    pub render_target_texture_index: RenderTargetType,
    pub sampled_render_target_texture_index: RenderTargetType,
}

/// The render textures of cameras, each under an id of its own, and the id
/// the next one gets. Ids are handed out in increasing order from 0.
pub struct CameraRenderTargets<T> {
    targets: Vec<(u32, T)>,
    next_id: u32,
}

impl<T> CameraRenderTargets<T> {
    /// Each id is below the next one to be handed out, and no two are equal.
    pub closed spec fn wf(&self) -> bool {
        &&& forall|i: int| 0 <= i < self.targets@.len() ==> (#[trigger] self.targets@[i]).0 < self.next_id
        &&& forall|i: int, j: int|
            0 <= i < j < self.targets@.len() ==> (#[trigger] self.targets@[i]).0 != (
            #[trigger] self.targets@[j]).0
    }

    /// The textures with their ids, in the order they are held.
    pub closed spec fn view_targets(&self) -> Seq<(u32, T)> {
        self.targets@
    }

    /// The id the next texture gets.
    pub closed spec fn view_next_id(&self) -> u32 {
        self.next_id
    }

    /// Whether a texture has the id `id`.
    pub open spec fn has_id(&self, id: u32) -> bool {
        exists|i: int| 0 <= i < self.view_targets().len() && (#[trigger] self.view_targets()[i]).0 == id
    }

    /// No camera textures; the first gets id 0.
    pub fn new() -> (r: Self)
        ensures
            r.wf(),
            r.view_targets() == Seq::<(u32, T)>::empty(),
            r.view_next_id() == 0,
    {
        CameraRenderTargets { targets: Vec::new(), next_id: 0 }
    }

    /// Holds `texture` under the next id, and gives that id.
    pub fn add(&mut self, texture: T) -> (r: u32)
        requires
            old(self).wf(),
            old(self).view_next_id() < u32::MAX,
        ensures
            final(self).wf(),
            r == old(self).view_next_id(),
            !old(self).has_id(r),
            final(self).view_next_id() == r + 1,
            final(self).view_targets() == old(self).view_targets().push((r, texture)),
    {
        let id = self.next_id;
        self.targets.push((id, texture));
        self.next_id = self.next_id + 1;
        id
    }

    /// Removes the texture of id `id`, if there is one; the last texture takes
    /// its place.
    pub fn remove(&mut self, id: u32)
        requires
            old(self).wf(),
        ensures
            final(self).wf(),
            final(self).view_next_id() == old(self).view_next_id(),
            !final(self).has_id(id),
            !old(self).has_id(id) ==> final(self).view_targets() == old(self).view_targets(),
            forall|i: int|
                0 <= i < old(self).view_targets().len() && (#[trigger] old(self).view_targets()[i]).0 == id
                    ==> final(self).view_targets() == old(self).view_targets().update(
                    i,
                    old(self).view_targets().last(),
                ).drop_last(),
    {
        let n = self.targets.len();
        let mut found: Option<usize> = None;
        let mut i: usize = 0;
        while i < n
            invariant
                n == self.targets@.len(),
                i <= n,
                match found {
                    Some(k) => k < i && self.targets@[k as int].0 == id,
                    None => forall|j: int| 0 <= j < i ==> (#[trigger] self.targets@[j]).0 != id,
                },
            decreases n - i,
        {
            if self.targets[i].0 == id {
                found = Some(i);
            }
            i = i + 1;
        }
        match found {
            Some(k) => {
                let ghost before = self.targets@;
                let _ = self.targets.swap_remove(k);
                assert(self.targets@ =~= before.update(k as int, before.last()).drop_last());
                assert forall|a: int| 0 <= a < before.len() && (#[trigger] before[a]).0 == id implies a
                    == k by {
                    if a != k {
                        assert(before[a].0 != before[k as int].0);
                    }
                }
                assert forall|j: int| 0 <= j < self.targets@.len() implies (
                #[trigger] self.targets@[j]).0 != id by {
                    if j == k {
                        assert(before.last() == before[before.len() - 1]);
                    }
                }
                assert forall|a: int, b: int|
                    0 <= a < b < self.targets@.len() implies (#[trigger] self.targets@[a]).0 != (
                    #[trigger] self.targets@[b]).0 by {
                    let a0 = if a == k { before.len() - 1 } else { a };
                    let b0 = if b == k { before.len() - 1 } else { b };
                    assert(self.targets@[a] == before[a0]);
                    assert(self.targets@[b] == before[b0]);
                    assert(a0 != b0);
                }
            },
            None => {},
        }
    }

    /// The texture of id `id`, if there is one.
    pub fn get(&self, id: u32) -> (r: Option<&T>)
        requires
            self.wf(),
        ensures
            match r {
                Some(t) => exists|i: int|
                    0 <= i < self.view_targets().len() && (#[trigger] self.view_targets()[i]).0 == id
                        && self.view_targets()[i].1 == *t,
                None => !self.has_id(id),
            },
    {
        let n = self.targets.len();
        let mut i: usize = 0;
        while i < n
            invariant
                n == self.targets@.len(),
                i <= n,
                forall|j: int| 0 <= j < i ==> (#[trigger] self.targets@[j]).0 != id,
            decreases n - i,
        {
            if self.targets[i].0 == id {
                assert(self.view_targets()[i as int].0 == id);
                return Some(&self.targets[i].1);
            }
            i = i + 1;
        }
        None
    }
}

/// A texture added under a new id is found under it, and once removed again
/// the textures are those from before the addition.
pub proof fn lemma_camera_target_lifecycle<T>(
    before: CameraRenderTargets<T>,
    added: CameraRenderTargets<T>,
    removed: CameraRenderTargets<T>,
    id: u32,
    texture: T,
)
    requires
        before.wf(),
        id == before.view_next_id(),
        added.view_targets() == before.view_targets().push((id, texture)),
        forall|i: int|
            0 <= i < added.view_targets().len() && (#[trigger] added.view_targets()[i]).0 == id
                ==> removed.view_targets() == added.view_targets().update(
                i,
                added.view_targets().last(),
            ).drop_last(),
    ensures
        !before.has_id(id),
        added.has_id(id),
        !removed.has_id(id),
        removed.view_targets() == before.view_targets(),
{
    let last = before.view_targets().len() as int;
    assert(added.view_targets()[last].0 == id);
    assert(removed.view_targets() =~= before.view_targets());
    assert forall|i: int| 0 <= i < before.view_targets().len() implies (
    #[trigger] before.view_targets()[i]).0 != id by {
        assert(before.view_targets()[i].0 < before.view_next_id());
    }
}

} // verus!
