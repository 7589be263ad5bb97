//! Bookkeeping of the particle effect manager: effect handles, buffer sizes,
//! and the effects seen alive from frame to frame.
use vstd::prelude::*;
use crate::graphics::{ParticleEffectHandle, ParticleManager};

verus! {

/// The smallest multiple of `factor` that is at least `v`.
pub open spec fn spec_align_to_next_multiple(v: int, factor: int) -> int {
    ((v + factor - 1) / factor) * factor
}

/// Rounds `v` up to the next multiple of `factor`.
pub fn align_to_next_multiple(v: usize, factor: usize) -> (r: usize)
    requires
        factor > 0,
        spec_align_to_next_multiple(v as int, factor as int) <= usize::MAX,
    ensures
        r == spec_align_to_next_multiple(v as int, factor as int),
        r % factor == 0,
        v <= r < v + factor,
{
    let q = v / factor;
    let rem = v % factor;
    assert(rem != 0 ==> q < usize::MAX) by (nonlinear_arith)
        requires
            q == v / factor,
            rem == v % factor,
            factor > 0,
            v <= usize::MAX,
    ;
    let up = if rem == 0 {
        q
    } else {
        q + 1
    };
    proof {
        let vi = v as int;
        let fi = factor as int;
        let qi = q as int;
        let ri = rem as int;
        let ui = up as int;
        assert(vi == qi * fi + ri) by (nonlinear_arith)
            requires
                qi == vi / fi,
                ri == vi % fi,
                fi > 0,
        ;
        assert(ui == (vi + fi - 1) / fi) by (nonlinear_arith)
            requires
                vi == qi * fi + ri,
                0 <= ri < fi,
                ri == 0 ==> ui == qi,
                ri != 0 ==> ui == qi + 1,
                fi > 0,
        ;
        assert((ui * fi) % fi == 0) by (nonlinear_arith)
            requires
                fi > 0,
                ui >= 0,
        ;
        assert(vi <= ui * fi < vi + fi) by (nonlinear_arith)
            requires
                vi == qi * fi + ri,
                0 <= ri < fi,
                ri == 0 ==> ui == qi,
                ri != 0 ==> ui == qi + 1,
                fi > 0,
        ;
    }
    up * factor
}

/// Hands out the handles of particle effects: 1, 2, 3, and so on.
#[derive(Debug)]
pub struct EffectHandleAllocator {
    next_effect_handle: ParticleEffectHandle,
}

impl EffectHandleAllocator {
    pub closed spec fn last_handle(&self) -> ParticleEffectHandle {
        self.next_effect_handle
    }

    /// An allocator that has handed out nothing yet.
    pub fn new() -> (r: EffectHandleAllocator)
        ensures
            r.last_handle() is None,
    {
        EffectHandleAllocator { next_effect_handle: None }
    }
}

impl ParticleManager for EffectHandleAllocator {
    open spec fn current_handle(&self) -> ParticleEffectHandle {
        self.last_handle()
    }

    open spec fn can_issue(&self) -> bool {
        self.last_handle() != Some(u64::MAX)
    }

    /// The first handle is 1, and each later one is one more than the last.
    fn next_effect_handle(&mut self) -> (r: ParticleEffectHandle)
        ensures
            r == match old(self).last_handle() {
                None => Some(1u64),
                Some(h) => Some((h + 1) as u64),
            },
    {
        self.next_effect_handle = match self.next_effect_handle {
            Some(h) => Some(h + 1),
            None => Some(1),
        };
        self.next_effect_handle
    }
}

/// Whether two handles are the same.
fn same_handle(a: ParticleEffectHandle, b: ParticleEffectHandle) -> (r: bool)
    ensures
        r == (a == b),
{
    match (a, b) {
        (None, None) => true,
        (Some(x), Some(y)) => x == y,
        _ => false,
    }
}

/// The position of `h` in `v`, if it is there.
fn position_of(v: &Vec<ParticleEffectHandle>, h: ParticleEffectHandle) -> (r: Option<usize>)
    ensures
        match r {
            Some(i) => i < v@.len() && v@[i as int] == h,
            None => !v@.contains(h),
        },
{
    let n = v.len();
    let mut i: usize = 0;
    while i < n
        invariant
            n == v@.len(),
            i <= n,
            forall|j: int| 0 <= j < i ==> v@[j] != h,
        decreases n - i,
    {
        if same_handle(v[i], h) {
            return Some(i);
        }
        i = i + 1;
    }
    None
}

proof fn lemma_remove_from_set(s: Seq<ParticleEffectHandle>, i: int)
    requires
        s.no_duplicates(),
        0 <= i < s.len(),
    ensures
        s.remove(i).no_duplicates(),
        s.remove(i).to_set() == s.to_set().remove(s[i]),
{
    let r = s.remove(i);
    assert forall|a: int, b: int| 0 <= a < b < r.len() implies r[a] != r[b] by {
        let a0 = if a < i { a } else { a + 1 };
        let b0 = if b < i { b } else { b + 1 };
        assert(r[a] == s[a0] && r[b] == s[b0]);
    }
    assert forall|x: ParticleEffectHandle| r.to_set().contains(x) <==> s.to_set().remove(s[i]).contains(x) by {
        if r.contains(x) {
            let j = choose|j: int| 0 <= j < r.len() && r[j] == x;
            let j0 = if j < i { j } else { j + 1 };
            assert(s[j0] == x);
        }
        if s.contains(x) && x != s[i] {
            let j = choose|j: int| 0 <= j < s.len() && s[j] == x;
            if j < i {
                assert(r[j] == x);
            } else {
                assert(r[j - 1] == x);
            }
        }
    }
    assert(r.to_set() =~= s.to_set().remove(s[i]));
}

/// The effects seen alive in the previous frame and not yet in this one, and
/// those seen alive in this frame.
pub struct VisibleEffects {
    previous: Vec<ParticleEffectHandle>,
    current: Vec<ParticleEffectHandle>,
}

impl VisibleEffects {
    /// No effect is listed twice, and none is listed in both frames.
    pub closed spec fn wf(&self) -> bool {
        &&& self.previous@.no_duplicates()
        &&& self.current@.no_duplicates()
        &&& forall|h: ParticleEffectHandle| #[trigger] self.current@.contains(h) ==> !self.previous@.contains(h)
    }

    /// The effects seen alive in the previous frame and not yet in this one.
    pub closed spec fn previous_visible(&self) -> Set<ParticleEffectHandle> {
        self.previous@.to_set()
    }

    /// The effects seen alive in this frame.
    pub closed spec fn current_visible(&self) -> Set<ParticleEffectHandle> {
        self.current@.to_set()
    }

    /// No effect seen.
    pub fn new() -> (r: Self)
        ensures
            r.wf(),
            r.previous_visible() == Set::<ParticleEffectHandle>::empty(),
            r.current_visible() == Set::<ParticleEffectHandle>::empty(),
    {
        let r = VisibleEffects { previous: Vec::new(), current: Vec::new() };
        assert(r.previous_visible() =~= Set::<ParticleEffectHandle>::empty());
        assert(r.current_visible() =~= Set::<ParticleEffectHandle>::empty());
        r
    }

    /// A new frame: the effects seen in the frame that ends become those of
    /// the previous frame.
    pub fn begin_frame(&mut self)
        requires
            old(self).wf(),
        ensures
            final(self).wf(),
            final(self).previous_visible() == old(self).current_visible(),
            final(self).current_visible() == Set::<ParticleEffectHandle>::empty(),
    {
        core::mem::swap(&mut self.current, &mut self.previous);
        self.current.clear();
        assert(self.current_visible() =~= Set::<ParticleEffectHandle>::empty());
    }

    /// The effect `handle` is seen alive in this frame.
    pub fn mark_alive(&mut self, handle: ParticleEffectHandle)
        requires
            old(self).wf(),
        ensures
            final(self).wf(),
            final(self).current_visible() == old(self).current_visible().insert(handle),
            final(self).previous_visible() == old(self).previous_visible().remove(handle),
    {
        let ghost old_current = self.current@;
        let ghost old_previous = self.previous@;
        match position_of(&self.current, handle) {
            Some(_) => {
                assert(old_current.to_set().insert(handle) =~= old_current.to_set());
            },
            None => {
                self.current.push(handle);
                assert forall|x: ParticleEffectHandle|
                    self.current@.contains(x) <==> old_current.contains(x) || x == handle by {
                    if self.current@.contains(x) {
                        let j = choose|j: int| 0 <= j < self.current@.len() && self.current@[j] == x;
                        if j < old_current.len() {
                            assert(old_current[j] == x);
                        }
                    }
                    if old_current.contains(x) {
                        let j = choose|j: int| 0 <= j < old_current.len() && old_current[j] == x;
                        assert(self.current@[j] == x);
                    }
                    if x == handle {
                        assert(self.current@[old_current.len() as int] == x);
                    }
                }
                assert(self.current@.to_set() =~= old_current.to_set().insert(handle));
                assert forall|a: int, b: int|
                    0 <= a < b < self.current@.len() implies self.current@[a] != self.current@[b] by {
                    if b == old_current.len() {
                        assert(old_current.contains(old_current[a]));
                    }
                }
            },
        }
        match position_of(&self.previous, handle) {
            Some(i) => {
                proof {
                    lemma_remove_from_set(old_previous, i as int);
                }
                let _ = self.previous.remove(i);
            },
            None => {
                assert(old_previous.to_set().remove(handle) =~= old_previous.to_set());
            },
        }
        assert forall|h: ParticleEffectHandle| #[trigger] self.current@.contains(h) implies !self.previous@.contains(h) by {
            assert(self.current@.to_set().contains(h));
            if self.previous@.contains(h) {
                assert(self.previous@.to_set().contains(h));
                assert(old_previous.to_set().contains(h));
                assert(old_previous.contains(h));
                if h != handle {
                    assert(old_current.to_set().contains(h));
                    assert(old_current.contains(h));
                }
            }
        }
    }

    /// The effects seen alive in the previous frame and not in this one: the
    /// stale effects, which the manager removes. None of them is seen alive in
    /// this frame.
    pub fn stale_effects(&self) -> (r: Vec<ParticleEffectHandle>)
        requires
            self.wf(),
        ensures
            r@.no_duplicates(),
            r@.to_set() == self.previous_visible(),
            forall|h: ParticleEffectHandle| #[trigger] r@.contains(h) ==> !self.current_visible().contains(h),
    {
        let r = self.previous.clone();
        assert(r@ == self.previous@);
        assert forall|h: ParticleEffectHandle| #[trigger] r@.contains(h) implies !self.current_visible().contains(h) by {
            if self.current@.to_set().contains(h) {
                assert(self.current@.contains(h));
            }
        }
        r
    }
}

/// The frame-by-frame bookkeeping of the particle effect manager: the effects
/// seen alive, and the sizes and positions in the GPU buffers for this frame.
pub struct ParticleFrame {
    pub visible_effects: VisibleEffects,
    pub current_frame_num_emitters: usize,
    pub current_frame_max_num_particles: usize,
    pub current_frame_max_num_trail_vertices: usize,
    pub next_uniform_buffer_offset: usize,
    pub next_particle_instance_data_buffer_index: usize,
    pub next_particle_trail_vertex_buffer_index: usize,
}

impl ParticleFrame {
    /// Whether all the counts, sizes and positions are zero.
    pub open spec fn counts_zero(&self) -> bool {
        &&& self.current_frame_num_emitters == 0
        &&& self.current_frame_max_num_particles == 0
        &&& self.current_frame_max_num_trail_vertices == 0
        &&& self.next_uniform_buffer_offset == 0
        &&& self.next_particle_instance_data_buffer_index == 0
        &&& self.next_particle_trail_vertex_buffer_index == 0
    }

    /// Nothing seen yet.
    pub fn new() -> (r: Self)
        ensures
            r.visible_effects.wf(),
            r.visible_effects.previous_visible() == Set::<ParticleEffectHandle>::empty(),
            r.visible_effects.current_visible() == Set::<ParticleEffectHandle>::empty(),
            r.counts_zero(),
    {
        ParticleFrame {
            visible_effects: VisibleEffects::new(),
            current_frame_num_emitters: 0,
            current_frame_max_num_particles: 0,
            current_frame_max_num_trail_vertices: 0,
            next_uniform_buffer_offset: 0,
            next_particle_instance_data_buffer_index: 0,
            next_particle_trail_vertex_buffer_index: 0,
        }
    }

    /// Starts a frame: the counts go back to zero, and the effects seen in
    /// the frame that ends become those of the previous frame.
    pub fn begin_frame(&mut self)
        requires
            old(self).visible_effects.wf(),
        ensures
            final(self).visible_effects.wf(),
            final(self).counts_zero(),
            final(self).visible_effects.previous_visible() == old(
                self,
            ).visible_effects.current_visible(),
            final(self).visible_effects.current_visible() == Set::<ParticleEffectHandle>::empty(),
    {
        self.current_frame_num_emitters = 0;
        self.current_frame_max_num_particles = 0;
        self.current_frame_max_num_trail_vertices = 0;
        self.next_uniform_buffer_offset = 0;
        self.next_particle_instance_data_buffer_index = 0;
        self.next_particle_trail_vertex_buffer_index = 0;
        self.visible_effects.begin_frame();
    }

    /// Records the update of the effect `handle`, whose emitters, particles
    /// and trail vertices count as given, and which is `finished` or not: its
    /// counts are added to the frame's, and an effect that is not finished is
    /// seen alive in this frame. Gives whether it is still alive.
    pub fn record_update(
        &mut self,
        handle: ParticleEffectHandle,
        num_emitters: usize,
        max_num_particles: usize,
        max_num_trail_vertices: usize,
        finished: bool,
    ) -> (r: bool)
        requires
            old(self).visible_effects.wf(),
            old(self).current_frame_num_emitters + num_emitters <= usize::MAX,
            old(self).current_frame_max_num_particles + max_num_particles <= usize::MAX,
            old(self).current_frame_max_num_trail_vertices + max_num_trail_vertices <= usize::MAX,
        ensures
            final(self).visible_effects.wf(),
            r == !finished,
            final(self).current_frame_num_emitters == old(self).current_frame_num_emitters
                + num_emitters,
            final(self).current_frame_max_num_particles == old(self).current_frame_max_num_particles
                + max_num_particles,
            final(self).current_frame_max_num_trail_vertices
                == old(self).current_frame_max_num_trail_vertices + max_num_trail_vertices,
            final(self).next_uniform_buffer_offset == old(self).next_uniform_buffer_offset,
            final(self).next_particle_instance_data_buffer_index == old(
                self,
            ).next_particle_instance_data_buffer_index,
            final(self).next_particle_trail_vertex_buffer_index == old(
                self,
            ).next_particle_trail_vertex_buffer_index,
            finished ==> final(self).visible_effects == old(self).visible_effects,
            !finished ==> final(self).visible_effects.current_visible() == old(
                self,
            ).visible_effects.current_visible().insert(handle),
            !finished ==> final(self).visible_effects.previous_visible() == old(
                self,
            ).visible_effects.previous_visible().remove(handle),
    {
        self.current_frame_num_emitters = self.current_frame_num_emitters + num_emitters;
        self.current_frame_max_num_particles = self.current_frame_max_num_particles
            + max_num_particles;
        self.current_frame_max_num_trail_vertices = self.current_frame_max_num_trail_vertices
            + max_num_trail_vertices;
        if !finished {
            self.visible_effects.mark_alive(handle);
        }
        !finished
    }
}

/// An effect seen alive in this frame is not among the effects of the
/// previous frame that are still unseen, the stale ones.
pub proof fn lemma_stale_effects(v: VisibleEffects, h: ParticleEffectHandle)
    requires
        v.wf(),
    ensures
        v.current_visible().contains(h) ==> !v.previous_visible().contains(h),
{
    if v.current_visible().contains(h) && v.previous_visible().contains(h) {
        assert(v.current@.contains(h));
        assert(v.previous@.contains(h));
    }
}

} // verus!
