//! The decisions of a frame's rendering: which scene instance each draw uses,
//! which cameras are rendered into which uniform slots, and which render
//! targets the post processes draw into and sample.
use vstd::prelude::*;
use crate::draw_list::{DrawObject, PostProcessDrawObject};
use crate::material::MaterialId;
use crate::render_targets::RenderTargetType;

verus! {

/// The scene instance index of each draw, 0 for draws without one, followed
/// by the draw index of each post process.
pub open spec fn spec_instance_indices(draws: Seq<DrawObject>, post_processes: Seq<PostProcessDrawObject>) -> Seq<u32> {
    Seq::new(
        draws.len(),
        |i: int|
            match draws[i].draw_type.spec_scene_instance_index() {
                Some(x) => x,
                None => 0u32,
            },
    ) + Seq::new(post_processes.len(), |i: int| post_processes[i].draw_index)
}

/// The instance indices written for a frame's draws, in draw order, then for
/// its post processes.
pub fn instance_indices(draws: &Vec<DrawObject>, post_processes: &Vec<PostProcessDrawObject>) -> (r:
    Vec<u32>)
    ensures
        r@ == spec_instance_indices(draws@, post_processes@),
{
    let mut out: Vec<u32> = Vec::new();
    let mut i: usize = 0;
    while i < draws.len()
        invariant
            i <= draws@.len(),
            out@ == spec_instance_indices(draws@.subrange(0, i as int), Seq::empty()),
        decreases draws@.len() - i,
    {
        let index = match draws[i].draw_type.scene_instance_index() {
            Some(x) => x,
            None => 0,
        };
        out.push(index);
        i = i + 1;
        assert(out@ =~= spec_instance_indices(draws@.subrange(0, i as int), Seq::empty()));
    }
    assert(draws@.subrange(0, i as int) =~= draws@);
    let mut j: usize = 0;
    while j < post_processes.len()
        invariant
            j <= post_processes@.len(),
            out@ == spec_instance_indices(draws@, post_processes@.subrange(0, j as int)),
        decreases post_processes@.len() - j,
    {
        out.push(post_processes[j].draw_index);
        j = j + 1;
        assert(out@ =~= spec_instance_indices(draws@, post_processes@.subrange(0, j as int)));
    }
    assert(post_processes@.subrange(0, j as int) =~= post_processes@);
    out
}

/// The number of cameras among the first `n` that were found: each found
/// camera, enabled or not, takes a uniform slot.
pub open spec fn slots_taken(cameras: Seq<Option<bool>>, n: int) -> nat
    decreases n,
{
    if n <= 0 {
        0
    } else {
        slots_taken(cameras, n - 1) + if cameras[n - 1] is Some {
            1nat
        } else {
            0nat
        }
    }
}

/// Plans the camera passes of a frame. `cameras` holds, in render order,
/// whether each camera is enabled, or `None` for a camera whose entity was not
/// found. Each found camera takes the next uniform slot; an enabled one is
/// rendered with its slot, a disabled one is skipped. Returns the slot of each
/// rendered camera (`None` for the others) and the number of slots taken.
pub fn plan_camera_passes(cameras: &Vec<Option<bool>>) -> (r: (Vec<Option<usize>>, usize))
    ensures
        r.0@.len() == cameras@.len(),
        forall|i: int|
            0 <= i < cameras@.len() ==> (#[trigger] r.0@[i]) == if cameras@[i] == Some(true) {
                Some(slots_taken(cameras@, i) as usize)
            } else {
                None
            },
        r.1 == slots_taken(cameras@, cameras@.len() as int),
{
    let mut plan: Vec<Option<usize>> = Vec::new();
    let mut camera_index: usize = 0;
    let mut i: usize = 0;
    while i < cameras.len()
        invariant
            i <= cameras@.len(),
            plan@.len() == i,
            camera_index == slots_taken(cameras@, i as int),
            camera_index <= i,
            forall|j: int|
                0 <= j < i ==> (#[trigger] plan@[j]) == if cameras@[j] == Some(true) {
                    Some(slots_taken(cameras@, j) as usize)
                } else {
                    None
                },
        decreases cameras@.len() - i,
    {
        match cameras[i] {
            None => {
                plan.push(None);
            },
            Some(false) => {
                plan.push(None);
                camera_index = camera_index + 1;
            },
            Some(true) => {
                plan.push(Some(camera_index));
                camera_index = camera_index + 1;
            },
        }
        i = i + 1;
    }
    (plan, camera_index)
}

/// Rendered cameras get distinct slots, in render order.
pub proof fn lemma_camera_slots_increase(cameras: Seq<Option<bool>>, i: int, j: int)
    requires
        0 <= i < j <= cameras.len(),
        cameras[i] is Some,
    ensures
        slots_taken(cameras, i) < slots_taken(cameras, j),
    decreases j - i,
{
    if j > i + 1 {
        lemma_camera_slots_increase(cameras, i, j - 1);
    }
}

/// One pass of the post processing of a frame.
#[derive(Clone, Copy, Debug, PartialEq, Eq)]
pub enum PostProcessPass {
    /// Draws `sampled`, scaled down, into `target` with the pass-through
    /// material.
    Downsample { target: RenderTargetType, sampled: RenderTargetType },
    /// Draws the post process of material `material_id`, as its draw
    /// `draw_index`, into `target`, sampling `sampled`.
    Effect {
        material_id: MaterialId,
        draw_index: u32,
        target: RenderTargetType,
        sampled: RenderTargetType,
    },
}

/// What a frame's post processing does: its passes in order, and the render
/// target that the last pass, the one to the screen, samples.
#[derive(Debug)]
pub struct PostProcessPlan {
    pub passes: Vec<PostProcessPass>,
    pub screen_source: RenderTargetType,
}

/// The render target a pass draws into.
pub open spec fn pass_target(p: PostProcessPass) -> RenderTargetType {
    match p {
        PostProcessPass::Downsample { target, .. } => target,
        PostProcessPass::Effect { target, .. } => target,
    }
}

/// The render target a pass samples.
pub open spec fn pass_source(p: PostProcessPass) -> RenderTargetType {
    match p {
        PostProcessPass::Downsample { sampled, .. } => sampled,
        PostProcessPass::Effect { sampled, .. } => sampled,
    }
}

/// The two downsample passes: the scene into the half-size target, and that
/// into the quarter-size one.
pub open spec fn downsample_passes() -> Seq<PostProcessPass> {
    seq![
        PostProcessPass::Downsample {
            target: RenderTargetType::ColorDownSample1x,
            sampled: RenderTargetType::ColorResolve,
        },
        PostProcessPass::Downsample {
            target: RenderTargetType::ColorDownSample2x,
            sampled: RenderTargetType::ColorDownSample1x,
        },
    ]
}

/// The draw index of the first post process draw of material `m`, or 0.
pub open spec fn first_draw_index(draws: Seq<PostProcessDrawObject>, m: MaterialId) -> u32
    decreases draws.len(),
{
    if draws.len() == 0 {
        0
    } else if draws[0].material_id == m {
        draws[0].draw_index
    } else {
        first_draw_index(draws.drop_first(), m)
    }
}

/// The target of an effect pass: the post process target, or the scene
/// target once the passes have flipped.
pub open spec fn effect_target(flipped: bool) -> RenderTargetType {
    if flipped {
        RenderTargetType::ColorResolve
    } else {
        RenderTargetType::PostProcess
    }
}

/// What an effect pass samples: the scene target, or the post process
/// target once the passes have flipped.
pub open spec fn effect_source(flipped: bool) -> RenderTargetType {
    if flipped {
        RenderTargetType::PostProcess
    } else {
        RenderTargetType::ColorResolve
    }
}

/// Whether the post process of material `m` is drawn: its material is one of
/// the `material_count` materials, and it has a pipeline.
pub open spec fn effect_drawn(m: MaterialId, material_count: nat, has_pipeline: bool) -> bool {
    (m.0 as int) < material_count && has_pipeline
}

/// The effect passes of the first `n` post processes, and whether the
/// targets have flipped after them: each drawn effect draws into one target
/// and samples the other, and the next one swaps them.
pub open spec fn effect_passes(
    processes: Seq<MaterialId>,
    material_count: nat,
    has_pipeline: Seq<bool>,
    draws: Seq<PostProcessDrawObject>,
    n: int,
) -> (Seq<PostProcessPass>, bool)
    decreases n,
{
    if n <= 0 {
        (Seq::empty(), false)
    } else {
        let (passes, flipped) = effect_passes(processes, material_count, has_pipeline, draws, n - 1);
        let m = processes[n - 1];
        if effect_drawn(m, material_count, has_pipeline[n - 1]) {
            (
                passes.push(
                    PostProcessPass::Effect {
                        material_id: m,
                        draw_index: first_draw_index(draws, m),
                        target: effect_target(flipped),
                        sampled: effect_source(flipped),
                    },
                ),
                !flipped,
            )
        } else {
            (passes, flipped)
        }
    }
}

/// The draw index of the first of `draws` whose material is `m`, or 0.
fn draw_index_of(draws: &[PostProcessDrawObject], m: MaterialId) -> (r: u32)
    ensures
        r == first_draw_index(draws@, m),
{
    let n = draws.len();
    let mut i: usize = 0;
    assert(draws@.subrange(0, n as int) =~= draws@);
    while i < n
        invariant
            n == draws@.len(),
            i <= n,
            first_draw_index(draws@, m) == first_draw_index(draws@.subrange(i as int, n as int), m),
        decreases n - i,
    {
        assert(draws@.subrange(i as int, n as int).drop_first() =~= draws@.subrange(
            i as int + 1,
            n as int,
        ));
        if draws[i].material_id.0 == m.0 {
            return draws[i].draw_index;
        }
        i = i + 1;
    }
    0
}

/// The post processing of a frame: the two downsample passes where
/// `generate_down_samples` asks for them, then a pass for each post process in
/// `post_processes` whose material is one of the `material_count` materials
/// and has a pipeline (`has_pipeline` says, for each, whether it has one; one
/// that is not drawn is left out), each drawing its first draw in `draws`.
/// The effects draw into the post process and scene targets in turn, each
/// sampling what the one before drew, and the screen samples the last.
pub fn plan_post_processing(
    generate_down_samples: bool,
    post_processes: &[MaterialId],
    material_count: usize,
    has_pipeline: &[bool],
    draws: &[PostProcessDrawObject],
) -> (r: PostProcessPlan)
    requires
        post_processes@.len() == has_pipeline@.len(),
    ensures
        ({
            let (effects, flipped) = effect_passes(
                post_processes@,
                material_count as nat,
                has_pipeline@,
                draws@,
                post_processes@.len() as int,
            );
            &&& r.passes@ == (if generate_down_samples {
                downsample_passes()
            } else {
                Seq::empty()
            }) + effects
            &&& r.screen_source == effect_source(flipped)
        }),
{
    let mut passes: Vec<PostProcessPass> = Vec::new();
    if generate_down_samples {
        passes.push(
            PostProcessPass::Downsample {
                target: RenderTargetType::ColorDownSample1x,
                sampled: RenderTargetType::ColorResolve,
            },
        );
        passes.push(
            PostProcessPass::Downsample {
                target: RenderTargetType::ColorDownSample2x,
                sampled: RenderTargetType::ColorDownSample1x,
            },
        );
    }
    let ghost prefix = passes@;
    proof {
        assert(prefix =~= (if generate_down_samples {
            downsample_passes()
        } else {
            Seq::empty()
        }));
    }
    let mut flipped = false;
    let n = post_processes.len();
    let mut i: usize = 0;
    while i < n
        invariant
            n == post_processes@.len(),
            n == has_pipeline@.len(),
            i <= n,
            ({
                let (effects, f) = effect_passes(
                    post_processes@,
                    material_count as nat,
                    has_pipeline@,
                    draws@,
                    i as int,
                );
                passes@ == prefix + effects && flipped == f
            }),
        decreases n - i,
    {
        let m = post_processes[i];
        if (m.0 as usize) < material_count && has_pipeline[i] {
            let draw_index = draw_index_of(draws, m);
            let (target, sampled) = if flipped {
                (RenderTargetType::ColorResolve, RenderTargetType::PostProcess)
            } else {
                (RenderTargetType::PostProcess, RenderTargetType::ColorResolve)
            };
            passes.push(PostProcessPass::Effect { material_id: m, draw_index, target, sampled });
            proof {
                let (effects, f) = effect_passes(
                    post_processes@,
                    material_count as nat,
                    has_pipeline@,
                    draws@,
                    i as int,
                );
                assert(passes@ =~= prefix + effects.push(
                    PostProcessPass::Effect { material_id: m, draw_index, target, sampled },
                ));
            }
            flipped = !flipped;
        }
        i = i + 1;
    }
    let screen_source = if flipped {
        RenderTargetType::PostProcess
    } else {
        RenderTargetType::ColorResolve
    };
    PostProcessPlan { passes, screen_source }
}

/// Each effect pass samples what the one before it drew, the first samples
/// the scene, and the screen samples what the last drew (the scene where no
/// effect is drawn).
pub proof fn lemma_effect_passes_chain(
    processes: Seq<MaterialId>,
    material_count: nat,
    has_pipeline: Seq<bool>,
    draws: Seq<PostProcessDrawObject>,
    n: int,
)
    requires
        0 <= n <= processes.len(),
        processes.len() == has_pipeline.len(),
    ensures
        ({
            let (effects, flipped) = effect_passes(processes, material_count, has_pipeline, draws, n);
            &&& effects.len() > 0 ==> pass_source(effects[0]) == RenderTargetType::ColorResolve
            &&& forall|k: int|
                0 <= k < effects.len() - 1 ==> pass_source(#[trigger] effects[k + 1]) == pass_target(
                    effects[k],
                )
            &&& effect_source(flipped) == (if effects.len() > 0 {
                pass_target(effects.last())
            } else {
                RenderTargetType::ColorResolve
            })
        }),
    decreases n,
{
    if n > 0 {
        lemma_effect_passes_chain(processes, material_count, has_pipeline, draws, n - 1);
    }
}

/// `(key, index)` comes before `(key2, index2)`: by key, then by index.
pub open spec fn key_index_less(key: i32, index: usize, key2: i32, index2: usize) -> bool {
    key < key2 || (key == key2 && index < index2)
}

/// Whether `x` occurs in `order`.
pub open spec fn occurs(order: Seq<usize>, x: int) -> bool {
    exists|q: int| 0 <= q < order.len() && order[q] == x
}

/// `order` lists each index of `keys` once, by increasing key, and indices of
/// equal keys in increasing order: a stable sort of the indices by key.
pub open spec fn is_depth_order(keys: Seq<i32>, order: Seq<usize>) -> bool {
    &&& order.len() == keys.len()
    &&& forall|i: int| 0 <= i < order.len() ==> (#[trigger] order[i]) < keys.len()
    &&& forall|x: int| 0 <= x < keys.len() ==> #[trigger] occurs(order, x)
    &&& forall|i: int, j: int|
        0 <= i < j < order.len() ==> key_index_less(
            keys[#[trigger] order[i] as int],
            order[i],
            keys[#[trigger] order[j] as int],
            order[j],
        )
}

/// The order in which the draws of a frame are drawn: by increasing depth, and
/// draws of equal depth in the order in which they were added. `depth_keys`
/// holds the depth of each draw as an integer that orders as `f32::total_cmp`
/// orders the depths. Each index comes once.
pub fn depth_order(depth_keys: &[i32]) -> (r: Vec<usize>)
    ensures
        is_depth_order(depth_keys@, r@),
{
    let n = depth_keys.len();
    let mut order: Vec<usize> = Vec::new();
    let mut i: usize = 0;
    while i < n
        invariant
            n == depth_keys@.len(),
            i <= n,
            order@.len() == i,
            forall|a: int| 0 <= a < order@.len() ==> (#[trigger] order@[a]) < i,
            forall|x: int| 0 <= x < i ==> #[trigger] occurs(order@, x),
            forall|a: int, b: int|
                0 <= a < b < order@.len() ==> key_index_less(
                    depth_keys@[#[trigger] order@[a] as int],
                    order@[a],
                    depth_keys@[#[trigger] order@[b] as int],
                    order@[b],
                ),
        decreases n - i,
    {
        let k = depth_keys[i];
        let mut p: usize = 0;
        while p < order.len() && depth_keys[order[p]] <= k
            invariant
                n == depth_keys@.len(),
                i < n,
                k == depth_keys@[i as int],
                order@.len() == i,
                p <= order@.len(),
                forall|a: int| 0 <= a < order@.len() ==> (#[trigger] order@[a]) < i,
                forall|a: int| 0 <= a < p ==> depth_keys@[#[trigger] order@[a] as int] <= k,
            decreases order@.len() - p,
        {
            p = p + 1;
        }
        let ghost before = order@;
        proof {
            assert forall|a: int| p <= a < before.len() implies depth_keys@[#[trigger] before[a] as int]
                > k by {
                if a > p {
                    assert(key_index_less(
                        depth_keys@[before[p as int] as int],
                        before[p as int],
                        depth_keys@[before[a] as int],
                        before[a],
                    ));
                }
            }
        }
        order.insert(p, i);
        proof {
            assert forall|x: int| 0 <= x < i + 1 implies #[trigger] occurs(order@, x) by {
                if x == i {
                    assert(order@[p as int] == i);
                } else {
                    assert(occurs(before, x));
                    let q = choose|q: int| 0 <= q < before.len() && before[q] == x;
                    if q < p {
                        assert(order@[q] == x);
                    } else {
                        assert(order@[q + 1] == x);
                    }
                }
            }
            assert forall|a: int| 0 <= a < order@.len() implies (#[trigger] order@[a]) < i + 1 by {
                if a < p {
                    assert(order@[a] == before[a]);
                } else if a > p {
                    assert(order@[a] == before[a - 1]);
                }
            }
            assert forall|a: int, b: int| 0 <= a < b < order@.len() implies key_index_less(
                depth_keys@[#[trigger] order@[a] as int],
                order@[a],
                depth_keys@[#[trigger] order@[b] as int],
                order@[b],
            ) by {
                if b < p {
                    assert(order@[a] == before[a] && order@[b] == before[b]);
                } else if b == p {
                    assert(order@[a] == before[a]);
                } else if a < p {
                    assert(order@[a] == before[a] && order@[b] == before[b - 1]);
                } else if a == p {
                    assert(order@[b] == before[b - 1]);
                } else {
                    assert(order@[a] == before[a - 1] && order@[b] == before[b - 1]);
                }
            }
        }
        i = i + 1;
    }
    order
}

/// The order of the draws is fully determined: two depth orders of the same
/// keys are the same.
pub proof fn lemma_depth_order_unique(keys: Seq<i32>, a: Seq<usize>, b: Seq<usize>)
    requires
        is_depth_order(keys, a),
        is_depth_order(keys, b),
    ensures
        a == b,
{
    lemma_depth_order_unique_from(keys, a, b, 0);
}

proof fn lemma_depth_order_unique_from(keys: Seq<i32>, a: Seq<usize>, b: Seq<usize>, m: int)
    requires
        is_depth_order(keys, a),
        is_depth_order(keys, b),
        0 <= m <= a.len(),
        forall|i: int| 0 <= i < m ==> a[i] == b[i],
    ensures
        a == b,
    decreases a.len() - m,
{
    if m == a.len() {
        assert(a =~= b);
    } else {
        // a[m] is the least of a[m..] and b[m] the least of b[m..]; both hold
        // the indices that the first m entries do not.
        let x = a[m];
        let y = b[m];
        if x != y {
            // x occurs in b at some position, and y in a.
            assert(occurs(b, x as int));
            assert(occurs(a, y as int));
            let px = choose|q: int| 0 <= q < b.len() && b[q] == x;
            let py = choose|q: int| 0 <= q < a.len() && a[q] == y;
            assert(px >= m) by {
                if px < m {
                    assert(a[px] == x);
                    assert(key_index_less(keys[a[px] as int], a[px], keys[a[m] as int], a[m]));
                }
            }
            assert(py >= m) by {
                if py < m {
                    assert(b[py] == y);
                    assert(key_index_less(keys[b[py] as int], b[py], keys[b[m] as int], b[m]));
                }
            }
            assert(px != m);
            assert(py != m);
            assert(key_index_less(keys[b[m] as int], b[m], keys[b[px] as int], b[px]));
            assert(key_index_less(keys[a[m] as int], a[m], keys[a[py] as int], a[py]));
        }
        lemma_depth_order_unique_from(keys, a, b, m + 1);
    }
}

} // verus!
