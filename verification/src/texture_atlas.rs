//! Packing of small textures into large atlas textures.
//!
//! An atlas is a square of `ATLAS_WIDTH_HEIGHT` pixels on each side. It keeps
//! a list of free rectangles, at first the whole atlas. A texture goes into
//! the first free rectangle that is large enough: it takes that rectangle's
//! top left corner, and what is left below and to the right of it becomes free
//! again when it is more than `SPLIT_THRESHOLD` pixels wide.
use std::collections::HashMap;
use vstd::prelude::*;
use crate::graphics::TextureId;

verus! {

broadcast use vstd::std_specs::hash::group_hash_axioms;

/// The width and the height of every atlas, in pixels.
pub const ATLAS_WIDTH_HEIGHT: u32 = 2048;

/// A leftover strip of a free rectangle stays free only when it is wider than this.
pub const SPLIT_THRESHOLD: u32 = 8;

/// A rectangle of an atlas: `top_left` is inclusive, `bottom_right` exclusive.
#[derive(Clone, Copy, Debug)]
pub struct AtlasRegion {
    pub top_left: (u32, u32),
    pub bottom_right: (u32, u32),
}

impl AtlasRegion {
    /// The corners are in order.
    pub open spec fn is_valid(self) -> bool {
        self.top_left.0 <= self.bottom_right.0 && self.top_left.1 <= self.bottom_right.1
    }

    /// A valid rectangle that lies within the atlas.
    pub open spec fn inside_atlas(self) -> bool {
        &&& self.is_valid()
        &&& self.bottom_right.0 <= ATLAS_WIDTH_HEIGHT
        &&& self.bottom_right.1 <= ATLAS_WIDTH_HEIGHT
    }

    pub open spec fn spec_width(self) -> int {
        self.bottom_right.0 - self.top_left.0
    }

    pub open spec fn spec_height(self) -> int {
        self.bottom_right.1 - self.top_left.1
    }

    /// The two rectangles share a pixel.
    pub open spec fn overlaps(self, other: AtlasRegion) -> bool {
        &&& self.top_left.0 < other.bottom_right.0
        &&& other.top_left.0 < self.bottom_right.0
        &&& self.top_left.1 < other.bottom_right.1
        &&& other.top_left.1 < self.bottom_right.1
    }

    /// `inner` lies within `self`.
    pub open spec fn encloses(self, inner: AtlasRegion) -> bool {
        &&& self.top_left.0 <= inner.top_left.0
        &&& inner.bottom_right.0 <= self.bottom_right.0
        &&& self.top_left.1 <= inner.top_left.1
        &&& inner.bottom_right.1 <= self.bottom_right.1
    }

    pub fn width(&self) -> (r: u32)
        requires
            self.top_left.0 <= self.bottom_right.0,
        ensures
            r == self.spec_width(),
    {
        self.bottom_right.0 - self.top_left.0
    }

    pub fn height(&self) -> (r: u32)
        requires
            self.top_left.1 <= self.bottom_right.1,
        ensures
            r == self.spec_height(),
    {
        self.bottom_right.1 - self.top_left.1
    }
}

/// A texture of `width` by `height` pixels fits in `region`.
pub open spec fn fits(region: AtlasRegion, width: u32, height: u32) -> bool {
    region.spec_width() >= width && region.spec_height() >= height
}

/// `i` is the first free region in which a `width` by `height` texture fits.
pub open spec fn is_first_fit(free: Seq<AtlasRegion>, width: u32, height: u32, i: int) -> bool {
    &&& 0 <= i < free.len()
    &&& fits(free[i], width, height)
    &&& forall|j: int| 0 <= j < i ==> !fits(#[trigger] free[j], width, height)
}

/// No free region can hold a `width` by `height` texture.
pub open spec fn nothing_fits(free: Seq<AtlasRegion>, width: u32, height: u32) -> bool {
    forall|j: int| 0 <= j < free.len() ==> !fits(#[trigger] free[j], width, height)
}

/// The region that a `width` by `height` texture takes in `source`: its top left corner.
pub open spec fn placed_region(source: AtlasRegion, width: u32, height: u32) -> AtlasRegion {
    AtlasRegion {
        top_left: source.top_left,
        bottom_right: (
            (source.top_left.0 + width) as u32,
            (source.top_left.1 + height) as u32,
        ),
    }
}

/// What stays free of `source` once `placed` is taken from it: the strip below
/// `placed`, then the strip to its right, each only when it is wider than
/// `SPLIT_THRESHOLD`.
pub open spec fn leftover_regions(source: AtlasRegion, placed: AtlasRegion) -> Seq<AtlasRegion> {
    let below = AtlasRegion {
        top_left: (source.top_left.0, placed.bottom_right.1),
        bottom_right: source.bottom_right,
    };
    let right = AtlasRegion {
        top_left: (placed.bottom_right.0, placed.top_left.1),
        bottom_right: (source.bottom_right.0, placed.bottom_right.1),
    };
    let first = if source.bottom_right.1 - placed.bottom_right.1 > SPLIT_THRESHOLD {
        seq![below]
    } else {
        Seq::empty()
    };
    if source.bottom_right.0 - placed.bottom_right.0 > SPLIT_THRESHOLD {
        first.push(right)
    } else {
        first
    }
}

/// Every region of `s` lies within the atlas.
pub open spec fn all_inside_atlas(s: Seq<AtlasRegion>) -> bool {
    forall|i: int| 0 <= i < s.len() ==> (#[trigger] s[i]).inside_atlas()
}

/// No two regions of `s` at different positions overlap.
pub open spec fn pairwise_disjoint(s: Seq<AtlasRegion>) -> bool {
    forall|i: int, j: int|
        0 <= i < s.len() && 0 <= j < s.len() && i != j ==> !(#[trigger] s[i]).overlaps(
            #[trigger] s[j],
        )
}

/// No region of `a` overlaps a region of `b`.
pub open spec fn mutually_disjoint(a: Seq<AtlasRegion>, b: Seq<AtlasRegion>) -> bool {
    forall|i: int, j: int|
        0 <= i < a.len() && 0 <= j < b.len() ==> !(#[trigger] a[i]).overlaps(#[trigger] b[j])
}

/// The error of a texture that no free region of an atlas can hold.
#[derive(Clone, Copy, Debug, PartialEq, Eq, Structural)]
pub enum AtlasError {
    OutOfSpace,
}

impl AtlasError {
    pub fn message(&self) -> (r: String)
        ensures
            r@ == "Out of space"@,
    {
        match self {
            AtlasError::OutOfSpace => String::from_str("Out of space"),
        }
    }
}

/// One atlas texture and the textures packed into it.
#[derive(Debug)]
pub struct TextureAtlas {
    atlas_texture_id: TextureId,
    texture_to_region: HashMap<u32, AtlasRegion>,
    allocated_regions: Vec<AtlasRegion>,
    free_regions: Vec<AtlasRegion>,
}

impl TextureAtlas {
    /// The handle of the atlas texture itself.
    pub closed spec fn spec_atlas_texture_id(&self) -> TextureId {
        self.atlas_texture_id
    }

    /// Where each packed texture lies, by texture number.
    pub closed spec fn regions(&self) -> Map<u32, AtlasRegion> {
        self.texture_to_region@
    }

    /// Every region handed out so far, in order.
    pub closed spec fn allocated(&self) -> Seq<AtlasRegion> {
        self.allocated_regions@
    }

    /// The regions still free, in the order in which they are tried.
    pub closed spec fn free(&self) -> Seq<AtlasRegion> {
        self.free_regions@
    }

    /// The atlas is well formed: every region lies within it, no two regions
    /// (free or handed out) overlap, and each texture's region was handed out.
    pub open spec fn wf(&self) -> bool {
        &&& all_inside_atlas(self.free())
        &&& all_inside_atlas(self.allocated())
        &&& pairwise_disjoint(self.free())
        &&& pairwise_disjoint(self.allocated())
        &&& mutually_disjoint(self.free(), self.allocated())
        &&& forall|id: u32| #[trigger]
            self.regions().contains_key(id) ==> self.allocated().contains(self.regions()[id])
    }

    /// An empty atlas whose whole area is free.
    pub fn new(atlas_texture_id: TextureId) -> (r: TextureAtlas)
        ensures
            r.wf(),
            r.spec_atlas_texture_id() == atlas_texture_id,
            r.regions() == Map::<u32, AtlasRegion>::empty(),
            r.allocated() == Seq::<AtlasRegion>::empty(),
            r.free() == seq![
                AtlasRegion {
                    top_left: (0u32, 0u32),
                    bottom_right: (ATLAS_WIDTH_HEIGHT, ATLAS_WIDTH_HEIGHT),
                },
            ],
    {
        let r = TextureAtlas {
            atlas_texture_id,
            texture_to_region: HashMap::<u32, AtlasRegion>::new(),
            allocated_regions: Vec::new(),
            free_regions: vec![
                AtlasRegion {
                    top_left: (0, 0),
                    bottom_right: (ATLAS_WIDTH_HEIGHT, ATLAS_WIDTH_HEIGHT),
                },
            ],
        };
        assert(r.regions() =~= Map::<u32, AtlasRegion>::empty());
        r
    }

    pub fn get_atlas_texture_id(&self) -> (r: TextureId)
        ensures
            r == self.spec_atlas_texture_id(),
    {
        self.atlas_texture_id
    }

    /// The region of the texture `texture_id`, if it was packed into this atlas.
    pub fn get_region(&self, texture_id: &TextureId) -> (r: Option<&AtlasRegion>)
        ensures
            match r {
                Some(region) => self.regions().contains_key(texture_id.0) && *region
                    == self.regions()[texture_id.0],
                None => !self.regions().contains_key(texture_id.0),
            },
    {
        self.texture_to_region.get(&texture_id.0)
    }

    /// The position of the first free region that holds a `width` by `height` texture.
    fn first_fit(&self, width: u32, height: u32) -> (r: Option<usize>)
        requires
            self.wf(),
        ensures
            match r {
                Some(i) => is_first_fit(self.free(), width, height, i as int),
                None => nothing_fits(self.free(), width, height),
            },
    {
        let mut i: usize = 0;
        while i < self.free_regions.len()
            invariant
                self.wf(),
                i <= self.free().len(),
                forall|j: int| 0 <= j < i ==> !fits(#[trigger] self.free()[j], width, height),
            decreases self.free().len() - i,
        {
            let region = self.free_regions[i];
            assert(region.inside_atlas());
            if region.width() >= width && region.height() >= height {
                return Some(i);
            }
            i = i + 1;
        }
        None
    }

    /// Packs a `width` by `height` texture into the first free region that holds
    /// it and returns its position and size, `(x, y, width, height)`. The region
    /// is recorded as the texture's, and what is left of the free region stays
    /// free (see `leftover_regions`). When no free region holds the texture the
    /// atlas is left as it was.
    pub fn load_texture_into_atlas(&mut self, width: u32, height: u32, texture_id: TextureId) -> (r:
        Result<(u32, u32, u32, u32), AtlasError>)
        requires
            old(self).wf(),
        ensures
            final(self).wf(),
            final(self).spec_atlas_texture_id() == old(self).spec_atlas_texture_id(),
            r is Err <==> nothing_fits(old(self).free(), width, height),
            r is Err ==> r == Err::<(u32, u32, u32, u32), AtlasError>(AtlasError::OutOfSpace)
                && *final(self) == *old(self),
            r matches Ok(dims) ==> packs(*old(self), *final(self), width, height, texture_id, dims),
    {
        let found = self.first_fit(width, height);
        let i = match found {
            Some(i) => i,
            None => {
                return Err(AtlasError::OutOfSpace);
            },
        };
        let ghost old_free = self.free();
        let ghost old_alloc = self.allocated();
        let ghost old_regions = self.regions();
        proof {
            assert(old_free[i as int].inside_atlas());
        }
        let source_region = self.free_regions.remove(i);
        let new_region = AtlasRegion {
            top_left: source_region.top_left,
            bottom_right: (source_region.top_left.0 + width, source_region.top_left.1 + height),
        };
        self.texture_to_region.insert(texture_id.0, new_region);
        let ghost mut leftovers: Seq<AtlasRegion> = Seq::empty();
        if source_region.bottom_right.1 - new_region.bottom_right.1 > SPLIT_THRESHOLD {
            let source_split = AtlasRegion {
                top_left: (source_region.top_left.0, new_region.bottom_right.1),
                bottom_right: (source_region.bottom_right.0, source_region.bottom_right.1),
            };
            self.free_regions.push(source_split);
            proof {
                leftovers = leftovers.push(source_split);
            }
        }
        if source_region.bottom_right.0 - new_region.bottom_right.0 > SPLIT_THRESHOLD {
            let source_split = AtlasRegion {
                top_left: (new_region.bottom_right.0, new_region.top_left.1),
                bottom_right: (source_region.bottom_right.0, new_region.bottom_right.1),
            };
            self.free_regions.push(source_split);
            proof {
                leftovers = leftovers.push(source_split);
            }
        }
        self.allocated_regions.push(new_region);
        proof {
            assert(new_region == placed_region(source_region, width, height));
            assert(is_first_fit(old_free, width, height, i as int));
            assert(leftovers =~= leftover_regions(source_region, new_region));
            assert(self.free() =~= old_free.remove(i as int) + leftovers);
            lemma_place_keeps_wf(old_free, old_alloc, i as int, new_region, leftovers);
            assert forall|id: u32| #[trigger]
                self.regions().contains_key(id) implies self.allocated().contains(
                self.regions()[id],
            ) by {
                if id == texture_id.0 {
                    assert(self.allocated()[old_alloc.len() as int] == new_region);
                } else {
                    let k = choose|k: int|
                        0 <= k < old_alloc.len() && old_alloc[k] == old_regions[id];
                    assert(self.allocated()[k] == old_regions[id]);
                }
            }
        }
        Ok((new_region.top_left.0, new_region.top_left.1, width, height))
    }
}

/// The whole area of an atlas.
pub open spec fn full_atlas_region() -> AtlasRegion {
    AtlasRegion { top_left: (0u32, 0u32), bottom_right: (ATLAS_WIDTH_HEIGHT, ATLAS_WIDTH_HEIGHT) }
}

/// `after` is `before` with a `width` by `height` texture `texture_id` packed into
/// the first free region that holds it, and `r` is what the packing returned.
pub open spec fn packs(
    before: TextureAtlas,
    after: TextureAtlas,
    width: u32,
    height: u32,
    texture_id: TextureId,
    r: (u32, u32, u32, u32),
) -> bool {
    exists|i: int|
        {
            let source = #[trigger] before.free()[i];
            let placed = placed_region(source, width, height);
            &&& is_first_fit(before.free(), width, height, i)
            &&& r == (source.top_left.0, source.top_left.1, width, height)
            &&& after.spec_atlas_texture_id() == before.spec_atlas_texture_id()
            &&& after.regions() == before.regions().insert(texture_id.0, placed)
            &&& after.allocated() == before.allocated().push(placed)
            &&& after.free() == before.free().remove(i) + leftover_regions(source, placed)
        }
}

/// `a` is a fresh atlas of the texture `texture_id` into which a `width` by
/// `height` texture `texture_id` was packed at its top left corner.
pub open spec fn fresh_with(a: TextureAtlas, width: u32, height: u32, texture_id: TextureId) -> bool {
    let placed = placed_region(full_atlas_region(), width, height);
    &&& a.spec_atlas_texture_id() == texture_id
    &&& a.regions() == Map::<u32, AtlasRegion>::empty().insert(texture_id.0, placed)
    &&& a.allocated() == seq![placed]
    &&& a.free() == leftover_regions(full_atlas_region(), placed)
}

/// The atlases of a renderer, filled one after the other: a texture goes into
/// the last atlas, or into a new one when the last has no room for it.
#[derive(Debug)]
pub struct TextureAtlases {
    atlases: Vec<TextureAtlas>,
}

impl TextureAtlases {
    pub closed spec fn view_atlases(&self) -> Seq<TextureAtlas> {
        self.atlases@
    }

    /// Every atlas is well formed.
    pub open spec fn wf(&self) -> bool {
        forall|k: int| 0 <= k < self.view_atlases().len() ==> (#[trigger] self.view_atlases()[k]).wf()
    }

    /// No atlas yet.
    pub fn new() -> (r: TextureAtlases)
        ensures
            r.wf(),
            r.view_atlases() == Seq::<TextureAtlas>::empty(),
    {
        TextureAtlases { atlases: Vec::new() }
    }

    pub fn len(&self) -> (r: usize)
        ensures
            r == self.view_atlases().len(),
    {
        self.atlases.len()
    }

    pub fn texture_atlas(&self, index: usize) -> (r: &TextureAtlas)
        requires
            index < self.view_atlases().len(),
        ensures
            *r == self.view_atlases()[index as int],
    {
        &self.atlases[index]
    }

    /// The region of the texture `texture_id` in the first atlas that holds it.
    pub fn atlas_region(&self, texture_id: TextureId) -> (r: Option<AtlasRegion>)
        ensures
            match r {
                Some(region) => exists|k: int|
                    0 <= k < self.view_atlases().len() && (#[trigger] self.view_atlases()[k]).regions().contains_key(
                        texture_id.0,
                    ) && region == self.view_atlases()[k].regions()[texture_id.0] && forall|j: int|
                        0 <= j < k ==> !(#[trigger] self.view_atlases()[j]).regions().contains_key(
                            texture_id.0,
                        ),
                None => forall|k: int|
                    0 <= k < self.view_atlases().len() ==> !(#[trigger] self.view_atlases()[k]).regions().contains_key(
                        texture_id.0,
                    ),
            },
    {
        let mut k: usize = 0;
        while k < self.atlases.len()
            invariant
                k <= self.view_atlases().len(),
                forall|j: int|
                    0 <= j < k ==> !(#[trigger] self.view_atlases()[j]).regions().contains_key(
                        texture_id.0,
                    ),
            decreases self.view_atlases().len() - k,
        {
            match self.atlases[k].get_region(&texture_id) {
                Some(region) => {
                    return Some(*region);
                },
                None => {},
            }
            k = k + 1;
        }
        None
    }

    /// The atlas texture that holds the texture `texture_id`: that of the first
    /// atlas into which it was packed, if any.
    pub fn atlas_texture_id_of(&self, texture_id: TextureId) -> (r: Option<TextureId>)
        ensures
            match r {
                Some(id) => exists|k: int|
                    0 <= k < self.view_atlases().len() && (#[trigger] self.view_atlases()[k]).regions().contains_key(
                        texture_id.0,
                    ) && id == self.view_atlases()[k].spec_atlas_texture_id() && forall|j: int|
                        0 <= j < k ==> !(#[trigger] self.view_atlases()[j]).regions().contains_key(
                            texture_id.0,
                        ),
                None => forall|k: int|
                    0 <= k < self.view_atlases().len() ==> !(#[trigger] self.view_atlases()[k]).regions().contains_key(
                        texture_id.0,
                    ),
            },
    {
        let mut k: usize = 0;
        while k < self.atlases.len()
            invariant
                k <= self.view_atlases().len(),
                forall|j: int|
                    0 <= j < k ==> !(#[trigger] self.view_atlases()[j]).regions().contains_key(
                        texture_id.0,
                    ),
            decreases self.view_atlases().len() - k,
        {
            if self.atlases[k].get_region(&texture_id).is_some() {
                return Some(self.atlases[k].get_atlas_texture_id());
            }
            k = k + 1;
        }
        None
    }

    /// Packs a `width` by `height` texture into the last atlas, or into a new
    /// atlas of the texture `texture_id` when there is none yet or the last has
    /// no room, and returns its position and size, `(x, y, width, height)`.
    pub fn load_texture_into_atlas(&mut self, texture_id: TextureId, width: u32, height: u32) -> (r: (
        u32,
        u32,
        u32,
        u32,
    ))
        requires
            old(self).wf(),
            width <= ATLAS_WIDTH_HEIGHT,
            height <= ATLAS_WIDTH_HEIGHT,
        ensures
            final(self).wf(),
            ({
                let before = old(self).view_atlases();
                let after = final(self).view_atlases();
                if before.len() > 0 && !nothing_fits(before.last().free(), width, height) {
                    &&& after.len() == before.len()
                    &&& after.drop_last() == before.drop_last()
                    &&& packs(before.last(), after.last(), width, height, texture_id, r)
                } else {
                    &&& after.len() == before.len() + 1
                    &&& after.drop_last() == before
                    &&& fresh_with(after.last(), width, height, texture_id)
                    &&& r == (0u32, 0u32, width, height)
                }
            }),
    {
        let ghost before = self.view_atlases();
        if self.atlases.len() > 0 {
            let mut last = self.atlases.pop().unwrap();
            proof {
                assert(before.last() == last);
                assert(self.atlases@ == before.drop_last());
            }
            match last.load_texture_into_atlas(width, height, texture_id) {
                Ok(dims) => {
                    self.atlases.push(last);
                    proof {
                        assert(self.view_atlases().drop_last() =~= before.drop_last());
                        self.lemma_wf_after_push(before.drop_last(), last);
                    }
                    return dims;
                },
                Err(_) => {
                    self.atlases.push(last);
                    proof {
                        assert(self.view_atlases() =~= before);
                    }
                },
            }
        }
        let mut fresh = TextureAtlas::new(texture_id);
        proof {
            assert(fits(full_atlas_region(), width, height));
            assert(fresh.free()[0] == full_atlas_region());
        }
        let dims = match fresh.load_texture_into_atlas(width, height, texture_id) {
            Ok(dims) => dims,
            Err(_) => {
                proof {
                    assert(false);
                }
                (0, 0, width, height)
            },
        };
        proof {
            let placed = placed_region(full_atlas_region(), width, height);
            let i = choose|i: int|
                #![trigger is_first_fit(seq![full_atlas_region()], width, height, i)]
                {
                    let source = seq![full_atlas_region()][i];
                    let p = placed_region(source, width, height);
                    &&& is_first_fit(seq![full_atlas_region()], width, height, i)
                    &&& Ok::<(u32, u32, u32, u32), AtlasError>(dims) == Ok::<(u32, u32, u32, u32), AtlasError>(
                        (source.top_left.0, source.top_left.1, width, height),
                    )
                    &&& fresh.regions() == Map::<u32, AtlasRegion>::empty().insert(texture_id.0, p)
                    &&& fresh.allocated() == Seq::<AtlasRegion>::empty().push(p)
                    &&& fresh.free() == seq![full_atlas_region()].remove(i) + leftover_regions(
                        source,
                        p,
                    )
                };
            assert(i == 0);
            assert(seq![full_atlas_region()].remove(0) =~= Seq::<AtlasRegion>::empty());
            assert(fresh.free() =~= leftover_regions(full_atlas_region(), placed));
            assert(fresh.allocated() =~= seq![placed]);
        }
        self.atlases.push(fresh);
        proof {
            assert(self.view_atlases().drop_last() =~= before);
            self.lemma_wf_after_push(before, fresh);
        }
        dims
    }

    proof fn lemma_wf_after_push(&self, prefix: Seq<TextureAtlas>, a: TextureAtlas)
        requires
            self.view_atlases() == prefix.push(a),
            forall|k: int| 0 <= k < prefix.len() ==> (#[trigger] prefix[k]).wf(),
            a.wf(),
        ensures
            self.wf(),
    {
        assert forall|k: int| 0 <= k < self.view_atlases().len() implies (
        #[trigger] self.view_atlases()[k]).wf() by {
            if k < prefix.len() {
                assert(self.view_atlases()[k] == prefix[k]);
            }
        }
    }
}

/// A texture packed into a well formed atlas lies within the atlas and
/// overlaps no region handed out before it, nor any region left free after it.
pub proof fn lemma_packed_region_is_disjoint(
    before: TextureAtlas,
    after: TextureAtlas,
    width: u32,
    height: u32,
    texture_id: TextureId,
    r: (u32, u32, u32, u32),
)
    requires
        before.wf(),
        packs(before, after, width, height, texture_id, r),
    ensures
        ({
            let region = AtlasRegion {
                top_left: (r.0, r.1),
                bottom_right: ((r.0 + r.2) as u32, (r.1 + r.3) as u32),
            };
            &&& region.inside_atlas()
            &&& after.regions()[texture_id.0] == region
            &&& forall|k: int|
                0 <= k < before.allocated().len() ==> !region.overlaps(
                    #[trigger] before.allocated()[k],
                )
            &&& forall|k: int|
                0 <= k < after.free().len() ==> !region.overlaps(#[trigger] after.free()[k])
        }),
{
    let i = choose|i: int|
        {
            let source = #[trigger] before.free()[i];
            let placed = placed_region(source, width, height);
            &&& is_first_fit(before.free(), width, height, i)
            &&& r == (source.top_left.0, source.top_left.1, width, height)
            &&& after.spec_atlas_texture_id() == before.spec_atlas_texture_id()
            &&& after.regions() == before.regions().insert(texture_id.0, placed)
            &&& after.allocated() == before.allocated().push(placed)
            &&& after.free() == before.free().remove(i) + leftover_regions(source, placed)
        };
    let source = before.free()[i];
    let placed = placed_region(source, width, height);
    assert(source.inside_atlas());
    lemma_place_keeps_wf(
        before.free(),
        before.allocated(),
        i,
        placed,
        leftover_regions(source, placed),
    );
    let na = before.allocated().push(placed);
    let nf = after.free();
    assert forall|k: int| 0 <= k < before.allocated().len() implies !placed.overlaps(
        #[trigger] before.allocated()[k],
    ) by {
        assert(na[k] == before.allocated()[k]);
        assert(na[before.allocated().len() as int] == placed);
    }
    assert forall|k: int| 0 <= k < nf.len() implies !placed.overlaps(#[trigger] nf[k]) by {
        assert(na[before.allocated().len() as int] == placed);
    }
    assert(na[before.allocated().len() as int] == placed);
}

/// The pixel `(x, y)` lies in `region`.
pub open spec fn holds_pixel(region: AtlasRegion, x: int, y: int) -> bool {
    &&& region.top_left.0 <= x < region.bottom_right.0
    &&& region.top_left.1 <= y < region.bottom_right.1
}

/// Packing loses no area. Let `i` be the free region a texture went into and
/// `(r.0, r.1)` the corner it was placed at. Every pixel of region `i` that the
/// texture does not cover is still in some free region afterwards, unless it
/// lies in a strip that is `SPLIT_THRESHOLD` pixels wide or less: the strip
/// below the texture (pixels at or below its bottom edge), or the strip to its
/// right (pixels beside it, above its bottom edge). Every other free region
/// stays free.
pub proof fn lemma_packing_loses_no_area(
    before: TextureAtlas,
    after: TextureAtlas,
    width: u32,
    height: u32,
    texture_id: TextureId,
    r: (u32, u32, u32, u32),
    i: int,
    x: int,
    y: int,
)
    requires
        packs(before, after, width, height, texture_id, r),
        is_first_fit(before.free(), width, height, i),
    ensures
        forall|j: int|
            0 <= j < before.free().len() && j != i ==> after.free().contains(
                #[trigger] before.free()[j],
            ),
        holds_pixel(before.free()[i], x, y) && !(r.0 <= x < r.0 + width && r.1 <= y < r.1
            + height) ==> {
            ||| exists|j: int|
                0 <= j < after.free().len() && holds_pixel(#[trigger] after.free()[j], x, y)
            ||| (y >= r.1 + height && before.free()[i].bottom_right.1 - (r.1 + height)
                <= SPLIT_THRESHOLD)
            ||| (y < r.1 + height && before.free()[i].bottom_right.0 - (r.0 + width)
                <= SPLIT_THRESHOLD)
        },
{
    let k = choose|k: int|
        {
            let source = #[trigger] before.free()[k];
            let placed = placed_region(source, width, height);
            &&& is_first_fit(before.free(), width, height, k)
            &&& r == (source.top_left.0, source.top_left.1, width, height)
            &&& after.spec_atlas_texture_id() == before.spec_atlas_texture_id()
            &&& after.regions() == before.regions().insert(texture_id.0, placed)
            &&& after.allocated() == before.allocated().push(placed)
            &&& after.free() == before.free().remove(k) + leftover_regions(source, placed)
        };
    if k < i {
        assert(!fits(before.free()[k], width, height));
    }
    if i < k {
        assert(!fits(before.free()[i], width, height));
    }
    assert(k == i);
    let free = before.free();
    let source = free[i];
    let placed = placed_region(source, width, height);
    let kept = free.remove(i);
    let left = leftover_regions(source, placed);
    let nf = after.free();
    assert(nf == kept + left);
    assert forall|j: int| 0 <= j < free.len() && j != i implies nf.contains(#[trigger] free[j]) by {
        if j < i {
            assert(nf[j] == free[j]);
        } else {
            assert(nf[j - 1] == free[j]);
        }
    }
    assert(placed.bottom_right.0 == r.0 + width);
    assert(placed.bottom_right.1 == r.1 + height);
    if holds_pixel(source, x, y) && !(r.0 <= x < r.0 + width && r.1 <= y < r.1 + height) {
        let below = AtlasRegion {
            top_left: (source.top_left.0, placed.bottom_right.1),
            bottom_right: source.bottom_right,
        };
        let right = AtlasRegion {
            top_left: (placed.bottom_right.0, placed.top_left.1),
            bottom_right: (source.bottom_right.0, placed.bottom_right.1),
        };
        let has_below = source.bottom_right.1 - placed.bottom_right.1 > SPLIT_THRESHOLD;
        let has_right = source.bottom_right.0 - placed.bottom_right.0 > SPLIT_THRESHOLD;
        if y >= r.1 + height && has_below {
            assert(left[0] == below);
            assert(nf[kept.len() as int] == below);
            assert(holds_pixel(nf[kept.len() as int], x, y));
        } else if y < r.1 + height && has_right {
            let at = if has_below {
                1int
            } else {
                0int
            };
            assert(left[at] == right);
            assert(nf[kept.len() + at] == right);
            assert(holds_pixel(nf[kept.len() + at], x, y));
        }
    }
}

/// What stays free after a texture went into free region `i` at `(r.0, r.1)`.
/// The regions that were free before, but region `i`, keep their order at the
/// front. Then come at most two strips of region `i`, each only where it is
/// wider than `SPLIT_THRESHOLD`: first the strip below the texture, as wide as
/// region `i`, then the strip to its right, as high as the texture.
pub proof fn lemma_packing_leaves_strips(
    before: TextureAtlas,
    after: TextureAtlas,
    width: u32,
    height: u32,
    texture_id: TextureId,
    r: (u32, u32, u32, u32),
    i: int,
)
    requires
        packs(before, after, width, height, texture_id, r),
        is_first_fit(before.free(), width, height, i),
    ensures
        ({
            let source = before.free()[i];
            let n = before.free().len() - 1;
            let below = AtlasRegion {
                top_left: (source.top_left.0, (r.1 + height) as u32),
                bottom_right: source.bottom_right,
            };
            let right = AtlasRegion {
                top_left: ((r.0 + width) as u32, r.1),
                bottom_right: (source.bottom_right.0, (r.1 + height) as u32),
            };
            let wide_below = source.bottom_right.1 - (r.1 + height) > SPLIT_THRESHOLD;
            let wide_right = source.bottom_right.0 - (r.0 + width) > SPLIT_THRESHOLD;
            &&& after.free().subrange(0, n) == before.free().remove(i)
            &&& after.free().len() == n + (if wide_below { 1int } else { 0int }) + (if wide_right {
                1int
            } else {
                0int
            })
            &&& wide_below ==> after.free()[n] == below
            &&& wide_right ==> after.free()[after.free().len() - 1] == right
        }),
{
    let k = choose|k: int|
        {
            let source = #[trigger] before.free()[k];
            let placed = placed_region(source, width, height);
            &&& is_first_fit(before.free(), width, height, k)
            &&& r == (source.top_left.0, source.top_left.1, width, height)
            &&& after.spec_atlas_texture_id() == before.spec_atlas_texture_id()
            &&& after.regions() == before.regions().insert(texture_id.0, placed)
            &&& after.allocated() == before.allocated().push(placed)
            &&& after.free() == before.free().remove(k) + leftover_regions(source, placed)
        };
    if k < i {
        assert(!fits(before.free()[k], width, height));
    }
    if i < k {
        assert(!fits(before.free()[i], width, height));
    }
    let free = before.free();
    let kept = free.remove(i);
    assert(after.free().subrange(0, kept.len() as int) =~= kept);
}

/// A region that lies within `outer` overlaps nothing that `outer` does not overlap.
proof fn lemma_enclosed_disjoint(outer: AtlasRegion, inner: AtlasRegion, other: AtlasRegion)
    requires
        outer.encloses(inner),
        !outer.overlaps(other),
    ensures
        !inner.overlaps(other),
        !other.overlaps(inner),
{
}

/// Taking `placed` and `leftovers` out of the free region `i` keeps the regions
/// within the atlas and disjoint.
proof fn lemma_place_keeps_wf(
    free: Seq<AtlasRegion>,
    alloc: Seq<AtlasRegion>,
    i: int,
    placed: AtlasRegion,
    leftovers: Seq<AtlasRegion>,
)
    requires
        0 <= i < free.len(),
        all_inside_atlas(free),
        all_inside_atlas(alloc),
        pairwise_disjoint(free),
        pairwise_disjoint(alloc),
        mutually_disjoint(free, alloc),
        fits(free[i], (placed.bottom_right.0 - placed.top_left.0) as u32, (placed.bottom_right.1
            - placed.top_left.1) as u32),
        placed.top_left == free[i].top_left,
        placed.is_valid(),
        leftovers == leftover_regions(free[i], placed),
    ensures
        ({
            let nf = free.remove(i) + leftovers;
            let na = alloc.push(placed);
            &&& all_inside_atlas(nf)
            &&& all_inside_atlas(na)
            &&& pairwise_disjoint(nf)
            &&& pairwise_disjoint(na)
            &&& mutually_disjoint(nf, na)
        }),
{
    let source = free[i];
    let rest = free.remove(i);
    let nf = rest + leftovers;
    let na = alloc.push(placed);
    assert(source.inside_atlas());
    assert(source.encloses(placed));
    assert forall|k: int| 0 <= k < leftovers.len() implies source.encloses(
        #[trigger] leftovers[k],
    ) && leftovers[k].inside_atlas() && !leftovers[k].overlaps(placed) && !placed.overlaps(
        leftovers[k],
    ) by {}
    assert forall|k: int| 0 <= k < rest.len() implies !source.overlaps(#[trigger] rest[k]) && rest[k]
        == free[if k < i {
        k
    } else {
        k + 1
    }] by {
        let orig = if k < i {
            k
        } else {
            k + 1
        };
        assert(rest[k] == free[orig]);
        assert(!free[i].overlaps(free[orig]));
    }
    assert forall|k: int| 0 <= k < nf.len() implies (#[trigger] nf[k]).inside_atlas() by {
        if k < rest.len() {
            assert(nf[k] == rest[k]);
        } else {
            assert(nf[k] == leftovers[k - rest.len()]);
        }
    }
    assert forall|k: int| 0 <= k < na.len() implies (#[trigger] na[k]).inside_atlas() by {
        if k < alloc.len() {
            assert(na[k] == alloc[k]);
        }
    }
    assert forall|a: int, b: int|
        0 <= a < nf.len() && 0 <= b < nf.len() && a != b implies !(#[trigger] nf[a]).overlaps(
        #[trigger] nf[b],
    ) by {
        if a < rest.len() && b < rest.len() {
            let oa = if a < i {
                a
            } else {
                a + 1
            };
            let ob = if b < i {
                b
            } else {
                b + 1
            };
            assert(nf[a] == free[oa]);
            assert(nf[b] == free[ob]);
        } else if a < rest.len() {
            assert(nf[b] == leftovers[b - rest.len()]);
            assert(nf[a] == rest[a]);
            lemma_enclosed_disjoint(source, nf[b], nf[a]);
        } else if b < rest.len() {
            assert(nf[a] == leftovers[a - rest.len()]);
            assert(nf[b] == rest[b]);
            lemma_enclosed_disjoint(source, nf[a], nf[b]);
        } else {
            assert(nf[a] == leftovers[a - rest.len()]);
            assert(nf[b] == leftovers[b - rest.len()]);
        }
    }
    assert forall|a: int, b: int|
        0 <= a < na.len() && 0 <= b < na.len() && a != b implies !(#[trigger] na[a]).overlaps(
        #[trigger] na[b],
    ) by {
        if a < alloc.len() && b < alloc.len() {
            assert(na[a] == alloc[a]);
            assert(na[b] == alloc[b]);
        } else if a < alloc.len() {
            assert(na[a] == alloc[a]);
            assert(!source.overlaps(alloc[a]));
            lemma_enclosed_disjoint(source, placed, alloc[a]);
        } else {
            assert(na[b] == alloc[b]);
            assert(!source.overlaps(alloc[b]));
            lemma_enclosed_disjoint(source, placed, alloc[b]);
        }
    }
    assert forall|a: int, b: int| 0 <= a < nf.len() && 0 <= b < na.len() implies !(
    #[trigger] nf[a]).overlaps(#[trigger] na[b]) by {
        if a < rest.len() {
            let oa = if a < i {
                a
            } else {
                a + 1
            };
            assert(nf[a] == free[oa]);
            if b < alloc.len() {
                assert(na[b] == alloc[b]);
            } else {
                assert(na[b] == placed);
                assert(!source.overlaps(free[oa]));
                lemma_enclosed_disjoint(source, placed, free[oa]);
            }
        } else {
            let l = nf[a];
            assert(l == leftovers[a - rest.len()]);
            if b < alloc.len() {
                assert(na[b] == alloc[b]);
                assert(!source.overlaps(alloc[b]));
                lemma_enclosed_disjoint(source, l, alloc[b]);
            } else {
                assert(na[b] == placed);
            }
        }
    }
}

} // verus!
