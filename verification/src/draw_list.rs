//! Batching of the objects drawn in a frame.
//!
//! Consecutive draw objects go into one batch, drawn with one call, as long as
//! they are textured sprites of the same material that bind the same textures
//! as the first object of the batch.
use vstd::prelude::*;
use core::ops::Range;
use crate::graphics::{ParticleEffectHandle, TextureId};
use crate::material::MaterialId;

verus! {

/// What a draw object draws.
#[derive(Debug, PartialEq, Eq)]
pub enum DrawType {
    Circle {
        /// This circle's vertices in the frame's vertex buffer.
        vertex_range: Range<u32>,
        /// This object's index into the pipeline's scene instances.
        scene_instance_index: u32,
    },
    Text { section_index: u32 },
    Texture { scene_instance_index: u32 },
    Particle { handle: ParticleEffectHandle },
}

impl Clone for DrawType {
    fn clone(&self) -> (r: DrawType)
        ensures
            r == *self,
    {
        match self {
            DrawType::Circle { vertex_range, scene_instance_index } => DrawType::Circle {
                vertex_range: Range { start: vertex_range.start, end: vertex_range.end },
                scene_instance_index: *scene_instance_index,
            },
            DrawType::Text { section_index } => DrawType::Text { section_index: *section_index },
            DrawType::Texture { scene_instance_index } => DrawType::Texture {
                scene_instance_index: *scene_instance_index,
            },
            DrawType::Particle { handle } => DrawType::Particle { handle: *handle },
        }
    }
}

impl DrawType {
    pub open spec fn spec_scene_instance_index(self) -> Option<u32> {
        match self {
            DrawType::Texture { scene_instance_index } => Some(scene_instance_index),
            DrawType::Circle { scene_instance_index, .. } => Some(scene_instance_index),
            _ => None,
        }
    }

    /// The index into the scene instances, for the kinds that have one.
    pub fn scene_instance_index(&self) -> (r: Option<u32>)
        ensures
            r == self.spec_scene_instance_index(),
    {
        match self {
            DrawType::Texture { scene_instance_index } => Some(*scene_instance_index),
            DrawType::Circle { vertex_range: _, scene_instance_index } => Some(
                *scene_instance_index,
            ),
            _ => None,
        }
    }

    /// The two draw types are of the same kind, whatever their contents.
    pub open spec fn spec_same_kind(self, other: DrawType) -> bool {
        ||| (self is Circle && other is Circle)
        ||| (self is Text && other is Text)
        ||| (self is Texture && other is Texture)
        ||| (self is Particle && other is Particle)
    }

    pub fn same_kind(&self, other: &DrawType) -> (r: bool)
        ensures
            r == self.spec_same_kind(*other),
    {
        match (self, other) {
            (DrawType::Circle { .. }, DrawType::Circle { .. }) => true,
            (DrawType::Text { .. }, DrawType::Text { .. }) => true,
            (DrawType::Texture { .. }, DrawType::Texture { .. }) => true,
            (DrawType::Particle { .. }, DrawType::Particle { .. }) => true,
            _ => false,
        }
    }
}

/// The part of a drawable object that decides how it is batched.
#[derive(Debug)]
pub struct DrawObject {
    pub draw_type: DrawType,
    pub material_id: MaterialId,
}

/// A post process drawn after the scene.
#[derive(Debug)]
pub struct PostProcessDrawObject {
    pub material_id: MaterialId,
    pub draw_index: u32,
}

/// A run of consecutive draw objects drawn together: `start` inclusive, `end` exclusive.
#[derive(Clone, Copy, Debug, PartialEq, Eq, Structural)]
pub struct DrawBatch {
    pub start: u32,
    pub end: u32,
}

/// The textures that a draw binds, as a sequence.
pub open spec fn textures_view(t: Option<Vec<TextureId>>) -> Option<Seq<TextureId>> {
    match t {
        Some(v) => Some(v@),
        None => None,
    }
}

/// Draw `i` cannot join the batch that starts at draw `start`: its material,
/// its kind or its textures differ from those of `start`, or it is not a
/// textured sprite.
pub open spec fn breaks_batch(
    draws: Seq<DrawObject>,
    textures: Seq<Option<Vec<TextureId>>>,
    start: int,
    i: int,
) -> bool {
    ||| draws[i].material_id != draws[start].material_id
    ||| !draws[i].draw_type.spec_same_kind(draws[start].draw_type)
    ||| textures_view(textures[start]) != textures_view(textures[i])
    ||| !(draws[i].draw_type is Texture)
}

/// `batches` cuts the draws `0..n` into consecutive non-empty batches, in order.
pub open spec fn is_partition(batches: Seq<DrawBatch>, n: int) -> bool {
    &&& (n == 0 <==> batches.len() == 0)
    &&& batches.len() > 0 ==> batches[0].start == 0 && batches.last().end == n
    &&& forall|b: int| 0 <= b < batches.len() ==> (#[trigger] batches[b]).start < batches[b].end
    &&& forall|b: int|
        0 <= b < batches.len() - 1 ==> (#[trigger] batches[b]).end == batches[b + 1].start
}

/// Each batch extends as long as no draw breaks it, and ends at the draw that does.
pub open spec fn is_greedy(
    batches: Seq<DrawBatch>,
    draws: Seq<DrawObject>,
    textures: Seq<Option<Vec<TextureId>>>,
) -> bool {
    &&& forall|b: int, i: int|
        #![trigger breaks_batch(draws, textures, batches[b].start as int, i)]
        0 <= b < batches.len() && batches[b].start < i < batches[b].end ==> !breaks_batch(
            draws,
            textures,
            batches[b].start as int,
            i,
        )
    &&& forall|b: int|
        0 <= b < batches.len() && (#[trigger] batches[b]).end < draws.len() ==> breaks_batch(
            draws,
            textures,
            batches[b].start as int,
            batches[b].end as int,
        )
}

/// In a partition, an earlier batch ends no later than a later batch starts.
pub proof fn lemma_batches_ordered(batches: Seq<DrawBatch>, n: int, b1: int, b2: int)
    requires
        is_partition(batches, n),
        0 <= b1 < b2 < batches.len(),
    ensures
        batches[b1].end <= batches[b2].start,
    decreases b2 - b1,
{
    if b2 > b1 + 1 {
        lemma_batches_ordered(batches, n, b1, b2 - 1);
        assert(batches[b2 - 1].end == batches[b2].start);
    }
}

proof fn lemma_find_batch(batches: Seq<DrawBatch>, n: int, i: int, b: int) -> (found: int)
    requires
        is_partition(batches, n),
        0 <= i < n,
        0 <= b < batches.len(),
        batches[b].start <= i,
    ensures
        0 <= found < batches.len(),
        batches[found].start <= i < batches[found].end,
    decreases batches.len() - b,
{
    if i < batches[b].end {
        b
    } else {
        assert(b + 1 < batches.len());
        assert(batches[b].end == batches[b + 1].start);
        lemma_find_batch(batches, n, i, b + 1)
    }
}

/// Every draw of a partition lies in exactly one of its batches.
pub proof fn lemma_draw_in_exactly_one_batch(batches: Seq<DrawBatch>, n: int, i: int) -> (b: int)
    requires
        is_partition(batches, n),
        0 <= i < n,
    ensures
        0 <= b < batches.len(),
        batches[b].start <= i < batches[b].end,
        forall|c: int|
            0 <= c < batches.len() && c != b ==> !((#[trigger] batches[c]).start <= i
                < batches[c].end),
{
    let b = lemma_find_batch(batches, n, i, 0);
    assert forall|c: int| 0 <= c < batches.len() && c != b implies !((#[trigger] batches[c]).start
        <= i < batches[c].end) by {
        if c < b {
            lemma_batches_ordered(batches, n, c, b);
        } else {
            lemma_batches_ordered(batches, n, b, c);
        }
    }
    b
}

/// The draws of one batch are alike. Each draw of a batch has the material,
/// the kind and the textures of the batch's first draw. A batch of more than
/// one draw holds only textured sprites: circles, text and particles are
/// always drawn alone.
pub proof fn lemma_batch_draws_alike(
    batches: Seq<DrawBatch>,
    draws: Seq<DrawObject>,
    textures: Seq<Option<Vec<TextureId>>>,
    b: int,
    i: int,
)
    requires
        textures.len() == draws.len(),
        is_partition(batches, draws.len() as int),
        is_greedy(batches, draws, textures),
        0 <= b < batches.len(),
        batches[b].start <= i < batches[b].end,
    ensures
        draws[i].material_id == draws[batches[b].start as int].material_id,
        draws[i].draw_type.spec_same_kind(draws[batches[b].start as int].draw_type),
        textures_view(textures[i]) == textures_view(textures[batches[b].start as int]),
        batches[b].end - batches[b].start > 1 ==> draws[i].draw_type is Texture,
{
    let s = batches[b].start as int;
    if i > s {
        assert(!breaks_batch(draws, textures, s, i));
    }
    if batches[b].end - batches[b].start > 1 {
        assert(!breaks_batch(draws, textures, s, s + 1));
    }
}

/// Whether the two draws bind the same textures.
fn same_textures(a: &Option<Vec<TextureId>>, b: &Option<Vec<TextureId>>) -> (r: bool)
    ensures
        r == (textures_view(*a) == textures_view(*b)),
{
    match (a, b) {
        (Some(x), Some(y)) => {
            if x.len() != y.len() {
                assert(x@.len() != y@.len());
                return false;
            }
            let mut k: usize = 0;
            while k < x.len()
                invariant
                    textures_view(*a) == Some(x@),
                    textures_view(*b) == Some(y@),
                    x@.len() == y@.len(),
                    k <= x@.len(),
                    forall|j: int| 0 <= j < k ==> x@[j] == y@[j],
                decreases x@.len() - k,
            {
                if x[k].0 != y[k].0 {
                    assert(x@[k as int] != y@[k as int]);
                    assert(x@ != y@);
                    return false;
                }
                k = k + 1;
            }
            assert(x@ =~= y@);
            true
        },
        (None, None) => true,
        _ => false,
    }
}

/// Cuts the draws of a frame into batches (see `is_partition` and `is_greedy`).
/// `textures[i]` holds the textures that draw `i` binds, as the pipeline
/// reports them, or `None` when it binds none.
pub fn batch_draw_objects(draws: &Vec<DrawObject>, textures: &Vec<Option<Vec<TextureId>>>) -> (r:
    Vec<DrawBatch>)
    requires
        textures@.len() == draws@.len(),
        draws@.len() <= u32::MAX,
    ensures
        is_partition(r@, draws@.len() as int),
        is_greedy(r@, draws@, textures@),
        forall|b: int, i: int|
            0 <= b < r@.len() && (#[trigger] r@[b]).start <= i < r@[b].end ==> {
                let s = r@[b].start as int;
                &&& (#[trigger] draws@[i]).material_id == draws@[s].material_id
                &&& draws@[i].draw_type.spec_same_kind(draws@[s].draw_type)
                &&& textures_view(textures@[i]) == textures_view(textures@[s])
                &&& r@[b].end - r@[b].start > 1 ==> draws@[i].draw_type is Texture
            },
{
    let mut draw_batches: Vec<DrawBatch> = Vec::new();
    if draws.len() == 0 {
        return draw_batches;
    }
    let mut batch_start: usize = 0;
    let mut i: usize = 1;
    while i < draws.len()
        invariant
            textures@.len() == draws@.len(),
            draws@.len() <= u32::MAX,
            0 <= batch_start < i <= draws@.len(),
            forall|j: int| batch_start < j < i ==> !breaks_batch(draws@, textures@, batch_start as int, j),
            draw_batches@.len() > 0 ==> draw_batches@[0].start == 0 && draw_batches@.last().end
                == batch_start,
            draw_batches@.len() == 0 ==> batch_start == 0,
            forall|b: int|
                0 <= b < draw_batches@.len() ==> (#[trigger] draw_batches@[b]).start
                    < draw_batches@[b].end,
            forall|b: int|
                0 <= b < draw_batches@.len() - 1 ==> (#[trigger] draw_batches@[b]).end
                    == draw_batches@[b + 1].start,
            is_greedy(draw_batches@, draws@, textures@),
        decreases draws@.len() - i,
    {
        let cur = &draws[i];
        let first = &draws[batch_start];
        let new_batch = if cur.material_id.0 != first.material_id.0 {
            true
        } else if !cur.draw_type.same_kind(&first.draw_type) {
            true
        } else if !same_textures(&textures[batch_start], &textures[i]) {
            true
        } else {
            match cur.draw_type {
                DrawType::Texture { .. } => false,
                _ => true,
            }
        };
        assert(new_batch == breaks_batch(draws@, textures@, batch_start as int, i as int));
        if new_batch {
            let ghost old_batches = draw_batches@;
            draw_batches.push(DrawBatch { start: batch_start as u32, end: i as u32 });
            proof {
                let nb = draw_batches@;
                assert forall|b: int, j: int|
                    #![trigger breaks_batch(draws@, textures@, nb[b].start as int, j)]
                    0 <= b < nb.len() && nb[b].start < j < nb[b].end implies !breaks_batch(
                    draws@,
                    textures@,
                    nb[b].start as int,
                    j,
                ) by {
                    if b < old_batches.len() {
                        assert(nb[b] == old_batches[b]);
                    }
                }
                assert forall|b: int| 0 <= b < nb.len() && (#[trigger] nb[b]).end < draws@.len() implies breaks_batch(
                    draws@,
                    textures@,
                    nb[b].start as int,
                    nb[b].end as int,
                ) by {
                    if b < old_batches.len() {
                        assert(nb[b] == old_batches[b]);
                    }
                }
                assert forall|b: int| 0 <= b < nb.len() - 1 implies (#[trigger] nb[b]).end
                    == nb[b + 1].start by {
                    if b + 1 < old_batches.len() {
                        assert(nb[b] == old_batches[b]);
                        assert(nb[b + 1] == old_batches[b + 1]);
                    } else {
                        assert(nb[b] == old_batches.last());
                    }
                }
            }
            batch_start = i;
        }
        i = i + 1;
    }
    let ghost old_batches = draw_batches@;
    draw_batches.push(DrawBatch { start: batch_start as u32, end: draws.len() as u32 });
    proof {
        let nb = draw_batches@;
        assert forall|b: int, j: int|
            #![trigger breaks_batch(draws@, textures@, nb[b].start as int, j)]
            0 <= b < nb.len() && nb[b].start < j < nb[b].end implies !breaks_batch(
            draws@,
            textures@,
            nb[b].start as int,
            j,
        ) by {
            if b < old_batches.len() {
                assert(nb[b] == old_batches[b]);
            }
        }
        assert forall|b: int| 0 <= b < nb.len() && (#[trigger] nb[b]).end < draws@.len() implies breaks_batch(
            draws@,
            textures@,
            nb[b].start as int,
            nb[b].end as int,
        ) by {
            if b < old_batches.len() {
                assert(nb[b] == old_batches[b]);
            }
        }
        assert forall|b: int| 0 <= b < nb.len() - 1 implies (#[trigger] nb[b]).end == nb[b
            + 1].start by {
            if b + 1 < old_batches.len() {
                assert(nb[b] == old_batches[b]);
                assert(nb[b + 1] == old_batches[b + 1]);
            } else {
                assert(nb[b] == old_batches.last());
            }
        }
    }
    proof {
        let nb = draw_batches@;
        assert forall|b: int, i: int|
            0 <= b < nb.len() && (#[trigger] nb[b]).start <= i < nb[b].end implies {
                let s = nb[b].start as int;
                &&& (#[trigger] draws@[i]).material_id == draws@[s].material_id
                &&& draws@[i].draw_type.spec_same_kind(draws@[s].draw_type)
                &&& textures_view(textures@[i]) == textures_view(textures@[s])
                &&& nb[b].end - nb[b].start > 1 ==> draws@[i].draw_type is Texture
            } by {
            lemma_batch_draws_alike(nb, draws@, textures@, b, i);
        }
    }
    draw_batches
}

} // verus!
