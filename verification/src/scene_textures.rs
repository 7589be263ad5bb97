//! The textures bound by each scene instance drawn in a frame.
//!
//! Each scene instance added in a frame gets the next index. When its material
//! binds textures, the first `texture_count` of the textures given for it are
//! appended to one shared list, and the instance remembers where its textures
//! start in that list.
use std::collections::HashMap;
use vstd::prelude::*;
use crate::graphics::TextureId;
use crate::material::{DefaultMaterials, MaterialId};

verus! {

broadcast use vstd::std_specs::hash::group_hash_axioms;

/// The scene instances of a frame and the textures that they bind.
#[derive(Debug)]
pub struct SceneTextures {
    instance_count: usize,
    scene_textures_intermediate: Vec<TextureId>,
    scene_instance_to_texture: HashMap<usize, usize>,
}

impl SceneTextures {
    /// The number of scene instances added since the last clear.
    pub closed spec fn spec_instance_count(&self) -> usize {
        self.instance_count
    }

    /// All textures bound by the instances, in the order added.
    pub closed spec fn textures(&self) -> Seq<TextureId> {
        self.scene_textures_intermediate@
    }

    /// Where the textures of each instance that binds some start in `textures()`.
    pub closed spec fn starts(&self) -> Map<usize, usize> {
        self.scene_instance_to_texture@
    }

    /// Every recorded start lies within the texture list, and only instances
    /// already added have one.
    pub open spec fn wf(&self) -> bool {
        &&& forall|i: usize| #[trigger]
            self.starts().contains_key(i) ==> i < self.spec_instance_count() && self.starts()[i]
                <= self.textures().len()
    }

    pub fn new() -> (r: SceneTextures)
        ensures
            r.wf(),
            r.spec_instance_count() == 0,
            r.textures() == Seq::<TextureId>::empty(),
            r.starts() == Map::<usize, usize>::empty(),
    {
        let r = SceneTextures {
            instance_count: 0,
            scene_textures_intermediate: Vec::new(),
            scene_instance_to_texture: HashMap::new(),
        };
        assert(r.starts() =~= Map::<usize, usize>::empty());
        r
    }

    /// Forgets every instance; done at the start of each frame.
    pub fn clear(&mut self)
        ensures
            final(self).wf(),
            final(self).spec_instance_count() == 0,
            final(self).textures() == Seq::<TextureId>::empty(),
            final(self).starts() == Map::<usize, usize>::empty(),
    {
        self.instance_count = 0;
        self.scene_textures_intermediate.clear();
        self.scene_instance_to_texture.clear();
    }

    /// Adds a scene instance and returns its index. When `texture_ids` is not
    /// empty and the instance's material binds `texture_count > 0` textures,
    /// the first `texture_count` of them are recorded for the instance.
    pub fn add_scene_instance(&mut self, texture_ids: &[TextureId], texture_count: u32) -> (r: u32)
        requires
            old(self).wf(),
            old(self).spec_instance_count() < usize::MAX,
            texture_ids@.len() > 0 && texture_count > 0 ==> texture_count <= texture_ids@.len(),
        ensures
            final(self).wf(),
            r == old(self).spec_instance_count() as u32,
            final(self).spec_instance_count() == old(self).spec_instance_count() + 1,
            if texture_ids@.len() > 0 && texture_count > 0 {
                &&& final(self).textures() == old(self).textures() + texture_ids@.subrange(
                    0,
                    texture_count as int,
                )
                &&& final(self).starts() == old(self).starts().insert(
                    old(self).spec_instance_count(),
                    old(self).textures().len() as usize,
                )
            } else {
                &&& final(self).textures() == old(self).textures()
                &&& final(self).starts() == old(self).starts()
            },
    {
        let uniform_idx = self.instance_count;
        self.instance_count = self.instance_count + 1;
        if texture_ids.len() > 0 && texture_count > 0 {
            let texture_idx = self.scene_textures_intermediate.len();
            let mut k: usize = 0;
            let ghost before = self.scene_textures_intermediate@;
            let ghost starts = self.scene_instance_to_texture@;
            let ghost count = self.instance_count;
            while k < texture_count as usize
                invariant
                    self.scene_instance_to_texture@ == starts,
                    self.instance_count == count,
                    k <= texture_count,
                    texture_count <= texture_ids@.len(),
                    self.scene_textures_intermediate@ == before + texture_ids@.subrange(0, k as int),
                decreases texture_count - k,
            {
                self.scene_textures_intermediate.push(texture_ids[k]);
                k = k + 1;
                assert(self.scene_textures_intermediate@ =~= before + texture_ids@.subrange(0, k as int));
            }
            self.scene_instance_to_texture.insert(uniform_idx, texture_idx);
            assert(self.starts() == starts.insert(uniform_idx, texture_idx));
        }
        proof {
            assert forall|i: usize| #[trigger]
                self.starts().contains_key(i) implies i < self.spec_instance_count()
                && self.starts()[i] <= self.textures().len() by {
                if i != uniform_idx {
                    assert(old(self).starts().contains_key(i));
                }
            }
        }
        uniform_idx as u32
    }

    /// The textures of the instance `draw_index` when its material binds
    /// `texture_count` textures: none when it binds none or the instance
    /// recorded none, else the `texture_count` textures from its start.
    pub fn textures_for_draw(&self, draw_index: u32, texture_count: u32) -> (r: Option<&[TextureId]>)
        requires
            self.wf(),
            self.starts().contains_key(draw_index as usize) ==> self.starts()[draw_index as usize]
                + texture_count <= self.textures().len(),
        ensures
            match r {
                None => texture_count == 0 || !self.starts().contains_key(draw_index as usize),
                Some(s) => texture_count > 0 && self.starts().contains_key(draw_index as usize)
                    && s@ == self.textures().subrange(
                    self.starts()[draw_index as usize] as int,
                    self.starts()[draw_index as usize] + texture_count,
                ),
            },
    {
        if texture_count == 0 {
            return None;
        }
        let start = match self.scene_instance_to_texture.get(&(draw_index as usize)) {
            Some(s) => *s,
            None => {
                return None;
            },
        };
        let len = self.scene_textures_intermediate.len();
        let end = start + texture_count as usize;
        Some(slice_range(self.scene_textures_intermediate.as_slice(), start, end))
    }
}

/// How many textures the pipeline of each registered material binds.
#[derive(Debug)]
pub struct PipelineTextureCounts {
    counts: HashMap<u32, u32>,
}

impl PipelineTextureCounts {
    /// The texture count of each registered material, by material number.
    pub closed spec fn counts(&self) -> Map<u32, u32> {
        self.counts@
    }

    pub fn new() -> (r: PipelineTextureCounts)
        ensures
            r.counts() == Map::<u32, u32>::empty(),
    {
        let r = PipelineTextureCounts { counts: HashMap::new() };
        assert(r.counts() =~= Map::<u32, u32>::empty());
        r
    }

    /// Registers (or replaces) the pipeline of `material_id`.
    pub fn register(&mut self, material_id: MaterialId, texture_count: u32)
        ensures
            final(self).counts() == old(self).counts().insert(material_id.0, texture_count),
    {
        self.counts.insert(material_id.0, texture_count);
    }

    /// The texture count of the pipeline of `material_id`, or of the
    /// missing-or-broken material's pipeline when `material_id` has none.
    pub fn texture_count_or_missing(&self, material_id: MaterialId) -> (r: u32)
        requires
            self.counts().contains_key(DefaultMaterials::MissingOrBroken.spec_material_id().0),
        ensures
            r == if self.counts().contains_key(material_id.0) {
                self.counts()[material_id.0]
            } else {
                self.counts()[DefaultMaterials::MissingOrBroken.spec_material_id().0]
            },
    {
        let id = if self.counts.contains_key(&material_id.0) {
            material_id.0
        } else {
            DefaultMaterials::MissingOrBroken.material_id().0
        };
        match self.counts.get(&id) {
            Some(c) => *c,
            None => {
                proof {
                    assert(false);
                }
                0
            },
        }
    }
}

/// The bytes of one scene instance: the uniform values of a material, four
/// bytes each.
pub const SCENE_INSTANCE_SIZE_BYTES: u64 = 1024;

/// The number of scene instances that a scene buffer of
/// `scene_buffer_size_bytes` bytes holds, and the size in bytes of the buffer
/// of their indices, four bytes for each. The scene buffer holds whole
/// instances only.
pub fn scene_instance_buffer_sizes(scene_buffer_size_bytes: u64) -> (r: (u64, u64))
    requires
        scene_buffer_size_bytes % SCENE_INSTANCE_SIZE_BYTES == 0,
    ensures
        r.0 == scene_buffer_size_bytes / SCENE_INSTANCE_SIZE_BYTES,
        r.1 == r.0 * 4,
{
    let num_instances = scene_buffer_size_bytes / SCENE_INSTANCE_SIZE_BYTES;
    (num_instances, num_instances * 4)
}

/// The size of one uniform in a buffer of uniforms: `size_of_struct` rounded
/// up to a multiple of `step`.
pub fn get_uniform_buffer_stride(size_of_struct: usize, step: usize) -> (r: usize)
    requires
        step > 0,
        crate::particles::spec_align_to_next_multiple(size_of_struct as int, step as int)
            <= usize::MAX,
    ensures
        r == crate::particles::spec_align_to_next_multiple(size_of_struct as int, step as int),
{
    assert(size_of_struct % step != 0 ==> size_of_struct / step < usize::MAX) by (nonlinear_arith)
        requires
            step > 0,
            size_of_struct <= usize::MAX,
    ;
    let number_of_steps = size_of_struct / step + (if size_of_struct % step == 0 {
        0
    } else {
        1
    });
    proof {
        let s = size_of_struct as int;
        let t = step as int;
        assert(number_of_steps == (s + t - 1) / t) by (nonlinear_arith)
            requires
                t > 0,
                s >= 0,
                number_of_steps == s / t + (if s % t == 0 {
                    0int
                } else {
                    1int
                }),
        ;
        assert(number_of_steps * t <= usize::MAX);
    }
    number_of_steps * step
}

/// The elements `start..end` of `s`.
fn slice_range(s: &[TextureId], start: usize, end: usize) -> (r: &[TextureId])
    requires
        start <= end <= s@.len(),
    ensures
        r@ == s@.subrange(start as int, end as int),
{
    let (_, tail) = s.split_at(start);
    let (mid, _) = tail.split_at(end - start);
    assert(mid@ =~= s@.subrange(start as int, end as int));
    mid
}

/// What an instance recorded is what a later lookup of it gives back, as long
/// as its material still binds as many textures.
pub proof fn lemma_textures_read_back(
    before: SceneTextures,
    after: SceneTextures,
    texture_ids: Seq<TextureId>,
    texture_count: u32,
)
    requires
        before.wf(),
        before.textures().len() <= usize::MAX,
        texture_ids.len() > 0,
        0 < texture_count <= texture_ids.len(),
        after.textures() == before.textures() + texture_ids.subrange(0, texture_count as int),
        after.starts() == before.starts().insert(
            before.spec_instance_count(),
            before.textures().len() as usize,
        ),
    ensures
        after.starts().contains_key(before.spec_instance_count()),
        after.textures().subrange(
            after.starts()[before.spec_instance_count()] as int,
            after.starts()[before.spec_instance_count()] + texture_count,
        ) == texture_ids.subrange(0, texture_count as int),
{
    assert(after.textures().subrange(
        before.textures().len() as int,
        before.textures().len() + texture_count,
    ) =~= texture_ids.subrange(0, texture_count as int));
}

} // verus!
