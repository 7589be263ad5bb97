//! The order in which cameras are rendered, and the render textures they need.
use vstd::prelude::*;
use crate::ecs::{EntityId, FfiOption};

verus! {

/// A camera and its render order.
#[derive(Debug, Clone, Copy)]
pub struct CameraRenderOrder {
    /// Cameras with a higher `render_order` are rendered earlier.
    pub render_order: i32,
    pub entity_id: EntityId,
}

/// The cameras of the application in the order in which they are rendered.
#[derive(Debug)]
pub struct CameraRenderResource {
    pub resize_camera_render_textures: bool,
    pub camera_entity_id_render_order: Vec<CameraRenderOrder>,
}

impl CameraRenderResource {
    pub fn new() -> (r: CameraRenderResource)
        ensures
            !r.resize_camera_render_textures,
            r.camera_entity_id_render_order@ == Seq::<CameraRenderOrder>::empty(),
    {
        CameraRenderResource {
            resize_camera_render_textures: false,
            camera_entity_id_render_order: Vec::new(),
        }
    }
}

/// The render target of a camera that names none: none, it renders to the screen.
pub fn default_camera_render_target_texture_id() -> (r: FfiOption<u32>)
    ensures
        r.view_option() is None,
{
    FfiOption::new(None)
}

/// The render order of a camera that names none.
pub fn default_camera_render_order() -> (r: i32)
    ensures
        r == 0,
{
    0
}

/// Whether a camera that does not say is enabled: it is.
pub fn default_camera_is_enabled() -> (r: bool)
    ensures
        r,
{
    true
}

/// The cameras of `s` whose render order is `k`.
pub open spec fn with_order(s: Seq<CameraRenderOrder>, k: i32) -> Seq<CameraRenderOrder> {
    s.filter(|c: CameraRenderOrder| c.render_order == k)
}

/// Render orders never increase along `s`.
pub open spec fn sorted_by_order(s: Seq<CameraRenderOrder>) -> bool {
    forall|i: int, j: int| 0 <= i < j < s.len() ==> s[i].render_order >= s[j].render_order
}

/// `sorted` is `s` sorted by decreasing render order, stably: cameras of equal
/// render order keep the order they have in `s`.
pub open spec fn is_stable_order_sort(s: Seq<CameraRenderOrder>, sorted: Seq<CameraRenderOrder>) -> bool {
    &&& sorted.len() == s.len()
    &&& sorted_by_order(sorted)
    &&& forall|k: i32| #[trigger] with_order(sorted, k) == with_order(s, k)
}

/// Filtering away every element gives the empty sequence.
proof fn lemma_filter_none(s: Seq<CameraRenderOrder>, k: i32)
    requires
        forall|i: int| 0 <= i < s.len() ==> s[i].render_order != k,
    ensures
        with_order(s, k) == Seq::<CameraRenderOrder>::empty(),
    decreases s.len(),
{
    reveal(Seq::filter);
    if s.len() > 0 {
        lemma_filter_none(s.drop_last(), k);
    }
}

/// Inserting `x` into a sorted sequence just before the first element of a
/// lower render order keeps it sorted, and adds `x` at the end of the cameras
/// of its render order.
proof fn lemma_insert_sorted(s: Seq<CameraRenderOrder>, p: int, x: CameraRenderOrder)
    requires
        sorted_by_order(s),
        0 <= p <= s.len(),
        forall|i: int| 0 <= i < p ==> s[i].render_order >= x.render_order,
        forall|i: int| p <= i < s.len() ==> s[i].render_order < x.render_order,
    ensures
        sorted_by_order(s.insert(p, x)),
        forall|k: i32|
            #[trigger] with_order(s.insert(p, x), k) == if k == x.render_order {
                with_order(s, k).push(x)
            } else {
                with_order(s, k)
            },
{
    let t = s.insert(p, x);
    s.insert_ensures(p, x);
    assert forall|i: int, j: int| 0 <= i < j < t.len() implies t[i].render_order
        >= t[j].render_order by {
        if i < p {
            if j > p {
                assert(t[j] == s[j - 1]);
            }
        } else if i > p {
            assert(t[i] == s[i - 1]);
            assert(t[j] == s[j - 1]);
        } else {
            assert(t[j] == s[j - 1]);
        }
    }
    let front = s.take(p);
    let back = s.skip(p);
    assert(t =~= front + seq![x] + back);
    assert(s =~= front + back);
    assert forall|k: i32| #[trigger]
        with_order(t, k) == if k == x.render_order {
            with_order(s, k).push(x)
        } else {
            with_order(s, k)
        } by {
        let pred = |c: CameraRenderOrder| c.render_order == k;
        Seq::filter_distributes_over_add(front + seq![x], back, pred);
        Seq::filter_distributes_over_add(front, seq![x], pred);
        Seq::filter_distributes_over_add(front, back, pred);
        assert(seq![x].filter(pred) == Seq::<CameraRenderOrder>::empty().push(x).filter(pred));
        Seq::<CameraRenderOrder>::empty().lemma_filter_push(x, pred);
        assert(Seq::<CameraRenderOrder>::empty().filter(pred) =~= Seq::<
            CameraRenderOrder,
        >::empty());
        if k == x.render_order {
            lemma_filter_none(back, k);
            assert(with_order(s, k) =~= front.filter(pred));
            assert(with_order(t, k) =~= front.filter(pred).push(x));
        } else {
            assert(with_order(t, k) =~= front.filter(pred) + back.filter(pred));
        }
    }
}

/// The cameras of `s` with render order `k`, computed from its first element
/// and the rest.
proof fn lemma_with_order_first(s: Seq<CameraRenderOrder>, k: i32)
    requires
        s.len() > 0,
    ensures
        with_order(s, k) == if s[0].render_order == k {
            seq![s[0]] + with_order(s.drop_first(), k)
        } else {
            with_order(s.drop_first(), k)
        },
{
    let p = |c: CameraRenderOrder| c.render_order == k;
    assert(s =~= seq![s[0]] + s.drop_first());
    s.drop_first().lemma_filter_prepend(s[0], p);
    if s[0].render_order != k {
        assert(Seq::<CameraRenderOrder>::empty() + with_order(s.drop_first(), k) =~= with_order(
            s.drop_first(),
            k,
        ));
    }
}

/// A camera of `s` with render order `k` shows up among the cameras of that order.
proof fn lemma_with_order_has(s: Seq<CameraRenderOrder>, k: i32, i: int)
    requires
        0 <= i < s.len(),
        s[i].render_order == k,
    ensures
        with_order(s, k).len() > 0,
{
    s.lemma_filter_contains(|c: CameraRenderOrder| c.render_order == k, i);
}

/// A camera among those of order `k` is a camera of `s`.
proof fn lemma_with_order_from(s: Seq<CameraRenderOrder>, k: i32)
    requires
        with_order(s, k).len() > 0,
    ensures
        exists|i: int| 0 <= i < s.len() && s[i].render_order == k,
{
    let f = with_order(s, k);
    let p = |c: CameraRenderOrder| c.render_order == k;
    s.lemma_filter_pred(p, 0);
    assert(f.contains(f[0]));
    s.lemma_filter_contains_rev(p, f[0]);
}

/// The order of the cameras is fully determined: two stable sorts of the same
/// cameras by decreasing render order are the same sequence.
pub proof fn lemma_stable_order_sort_unique(
    s: Seq<CameraRenderOrder>,
    a: Seq<CameraRenderOrder>,
    b: Seq<CameraRenderOrder>,
)
    requires
        is_stable_order_sort(s, a),
        is_stable_order_sort(s, b),
    ensures
        a == b,
{
    lemma_same_filters_same_sort(a, b);
}

proof fn lemma_same_filters_same_sort(a: Seq<CameraRenderOrder>, b: Seq<CameraRenderOrder>)
    requires
        a.len() == b.len(),
        sorted_by_order(a),
        sorted_by_order(b),
        forall|k: i32| #[trigger] with_order(a, k) == with_order(b, k),
    ensures
        a == b,
    decreases a.len(),
{
    if a.len() == 0 {
        assert(a =~= b);
    } else {
        let ka = a[0].render_order;
        let kb = b[0].render_order;
        assert(ka == kb) by {
            lemma_with_order_has(a, ka, 0);
            assert(with_order(b, ka).len() > 0);
            lemma_with_order_from(b, ka);
            lemma_with_order_has(b, kb, 0);
            assert(with_order(a, kb).len() > 0);
            lemma_with_order_from(a, kb);
        }
        lemma_with_order_first(a, ka);
        lemma_with_order_first(b, ka);
        assert(a[0] == b[0]) by {
            assert(with_order(a, ka)[0] == a[0]);
            assert(with_order(b, ka)[0] == b[0]);
        }
        let ta = a.drop_first();
        let tb = b.drop_first();
        assert forall|k: i32| #[trigger] with_order(ta, k) == with_order(tb, k) by {
            lemma_with_order_first(a, k);
            lemma_with_order_first(b, k);
            if k == ka {
                assert(with_order(ta, k) =~= with_order(a, k).drop_first());
                assert(with_order(tb, k) =~= with_order(b, k).drop_first());
            }
        }
        assert(sorted_by_order(ta)) by {
            assert forall|i: int, j: int| 0 <= i < j < ta.len() implies ta[i].render_order
                >= ta[j].render_order by {
                assert(ta[i] == a[i + 1]);
                assert(ta[j] == a[j + 1]);
            }
        }
        assert(sorted_by_order(tb)) by {
            assert forall|i: int, j: int| 0 <= i < j < tb.len() implies tb[i].render_order
                >= tb[j].render_order by {
                assert(tb[i] == b[i + 1]);
                assert(tb[j] == b[j + 1]);
            }
        }
        lemma_same_filters_same_sort(ta, tb);
        assert(a =~= seq![a[0]] + ta);
        assert(b =~= seq![b[0]] + tb);
    }
}

/// Fills `camera_render_resource` with `cameras`, the cameras of the
/// application as a query yields them, and sorts them by decreasing render
/// order; cameras of equal render order keep the query's order.
pub fn sort_camera_render_order(
    camera_render_resource: &mut CameraRenderResource,
    cameras: &Vec<CameraRenderOrder>,
)
    ensures
        final(camera_render_resource).resize_camera_render_textures == old(
            camera_render_resource,
        ).resize_camera_render_textures,
        is_stable_order_sort(cameras@, final(camera_render_resource).camera_entity_id_render_order@),
{
    camera_render_resource.camera_entity_id_render_order.clear();
    let mut n: usize = 0;
    while n < cameras.len()
        invariant
            n <= cameras@.len(),
            camera_render_resource.camera_entity_id_render_order@.len() == n,
            sorted_by_order(camera_render_resource.camera_entity_id_render_order@),
            forall|k: i32| #[trigger]
                with_order(camera_render_resource.camera_entity_id_render_order@, k)
                    == with_order(cameras@.take(n as int), k),
            camera_render_resource.resize_camera_render_textures == old(
                camera_render_resource,
            ).resize_camera_render_textures,
        decreases cameras@.len() - n,
    {
        let x = cameras[n];
        let ghost s = camera_render_resource.camera_entity_id_render_order@;
        let mut p: usize = 0;
        while p < camera_render_resource.camera_entity_id_render_order.len()
            && camera_render_resource.camera_entity_id_render_order[p].render_order
            >= x.render_order
            invariant
                s == camera_render_resource.camera_entity_id_render_order@,
                p <= s.len(),
                forall|i: int| 0 <= i < p ==> s[i].render_order >= x.render_order,
            decreases s.len() - p,
        {
            p = p + 1;
        }
        proof {
            assert forall|i: int| p <= i < s.len() implies s[i].render_order < x.render_order by {
                assert(s[p as int].render_order < x.render_order);
            }
            lemma_insert_sorted(s, p as int, x);
            assert(cameras@.take(n + 1) =~= cameras@.take(n as int).push(x));
            assert forall|k: i32| #[trigger]
                with_order(cameras@.take(n + 1), k) == if k == x.render_order {
                    with_order(cameras@.take(n as int), k).push(x)
                } else {
                    with_order(cameras@.take(n as int), k)
                } by {
                cameras@.take(n as int).lemma_filter_push(
                    x,
                    |c: CameraRenderOrder| c.render_order == k,
                );
            }
        }
        camera_render_resource.camera_entity_id_render_order.insert(p, x);
        n = n + 1;
    }
    proof {
        assert(cameras@.take(n as int) =~= cameras@);
    }
}

/// What the render texture of a camera needs.
#[derive(Debug, Clone, Copy, PartialEq, Eq)]
pub enum CameraTargetAction {
    /// Its texture stays.
    Keep,
    /// It has none: one is made for it.
    Create,
    /// Its texture, of this id, is removed and a new one of the right size is
    /// made.
    Replace(u32),
}

/// What a camera with the render texture `current` needs when `resize` asks
/// for textures of new sizes.
pub open spec fn camera_target_action(current: Option<u32>, resize: bool) -> CameraTargetAction {
    match current {
        None => CameraTargetAction::Create,
        Some(id) => if resize {
            CameraTargetAction::Replace(id)
        } else {
            CameraTargetAction::Keep
        },
    }
}

/// What the render textures of the cameras need, given the texture each has:
/// nothing where there are fewer than two cameras, which render to the screen;
/// otherwise, for each camera, a texture where it has none, and a new one
/// where `resize_camera_render_textures` asks for new sizes, which request is
/// then done with.
pub fn camera_render_target_actions(
    camera_render_resource: &mut CameraRenderResource,
    current: &[Option<u32>],
) -> (r: Vec<CameraTargetAction>)
    ensures
        current@.len() < 2 ==> r@.len() == 0 && *final(camera_render_resource) == *old(
            camera_render_resource,
        ),
        current@.len() >= 2 ==> {
            &&& r@.len() == current@.len()
            &&& forall|i: int|
                0 <= i < r@.len() ==> #[trigger] r@[i] == camera_target_action(
                    current@[i],
                    old(camera_render_resource).resize_camera_render_textures,
                )
            &&& !final(camera_render_resource).resize_camera_render_textures
            &&& final(camera_render_resource).camera_entity_id_render_order == old(
                camera_render_resource,
            ).camera_entity_id_render_order
        },
{
    let mut actions: Vec<CameraTargetAction> = Vec::new();
    if current.len() < 2 {
        return actions;
    }
    let resize = camera_render_resource.resize_camera_render_textures;
    let n = current.len();
    let mut i: usize = 0;
    while i < n
        invariant
            n == current@.len(),
            i <= n,
            actions@.len() == i,
            forall|j: int|
                0 <= j < i ==> #[trigger] actions@[j] == camera_target_action(current@[j], resize),
        decreases n - i,
    {
        let action = match current[i] {
            None => CameraTargetAction::Create,
            Some(id) => if resize {
                CameraTargetAction::Replace(id)
            } else {
                CameraTargetAction::Keep
            },
        };
        actions.push(action);
        i = i + 1;
    }
    camera_render_resource.resize_camera_render_textures = false;
    actions
}

} // verus!
