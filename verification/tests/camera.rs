use void_runtime::camera::{
    default_camera_is_enabled, default_camera_render_order, default_camera_render_target_texture_id,
    camera_render_target_actions, sort_camera_render_order, CameraRenderOrder,
    CameraRenderResource, CameraTargetAction,
};
use void_runtime::render_targets::CameraRenderTargets;
use void_runtime::ecs::EntityId;

fn cam(order: i32, id: u64) -> CameraRenderOrder {
    CameraRenderOrder { render_order: order, entity_id: EntityId::new(id) }
}

fn ids(r: &CameraRenderResource) -> Vec<(i32, u64)> {
    r.camera_entity_id_render_order.iter().map(|c| (c.render_order, c.entity_id.get())).collect()
}

#[test]
fn cameras_sort_by_decreasing_render_order() {
    let mut resource = CameraRenderResource::new();
    sort_camera_render_order(&mut resource, &vec![cam(0, 1), cam(5, 2), cam(-3, 3), cam(2, 4)]);
    assert_eq!(ids(&resource), vec![(5, 2), (2, 4), (0, 1), (-3, 3)]);
}

#[test]
fn equal_render_orders_keep_query_order() {
    let mut resource = CameraRenderResource::new();
    sort_camera_render_order(&mut resource, &vec![cam(1, 10), cam(2, 11), cam(1, 12), cam(2, 13), cam(1, 14)]);
    assert_eq!(ids(&resource), vec![(2, 11), (2, 13), (1, 10), (1, 12), (1, 14)]);
}

#[test]
fn sorting_replaces_the_previous_order() {
    let mut resource = CameraRenderResource::new();
    sort_camera_render_order(&mut resource, &vec![cam(1, 1), cam(2, 2)]);
    sort_camera_render_order(&mut resource, &vec![cam(7, 3)]);
    assert_eq!(ids(&resource), vec![(7, 3)]);
    assert!(!resource.resize_camera_render_textures);
}

#[test]
fn camera_defaults() {
    assert!(default_camera_render_target_texture_id().borrow().is_none());
    assert_eq!(default_camera_render_order(), 0);
    assert!(default_camera_is_enabled());
}

#[test]
fn one_camera_needs_no_render_texture() {
    let mut resource = CameraRenderResource::new();
    resource.resize_camera_render_textures = true;
    assert_eq!(camera_render_target_actions(&mut resource, &[None]), vec![]);
    assert!(resource.resize_camera_render_textures);
}

#[test]
fn cameras_get_and_renew_render_textures() {
    let mut resource = CameraRenderResource::new();
    let current = [None, Some(4), Some(7)];
    assert_eq!(
        camera_render_target_actions(&mut resource, &current),
        vec![CameraTargetAction::Create, CameraTargetAction::Keep, CameraTargetAction::Keep]
    );
    resource.resize_camera_render_textures = true;
    assert_eq!(
        camera_render_target_actions(&mut resource, &current),
        vec![
            CameraTargetAction::Create,
            CameraTargetAction::Replace(4),
            CameraTargetAction::Replace(7)
        ]
    );
    assert!(!resource.resize_camera_render_textures);
}

#[test]
fn camera_render_targets_hand_out_ids_and_forget_removed_ones() {
    let mut targets = CameraRenderTargets::new();
    let a = targets.add("a");
    let b = targets.add("b");
    let c = targets.add("c");
    assert_eq!((a, b, c), (0, 1, 2));
    assert_eq!(targets.get(b), Some(&"b"));
    targets.remove(a);
    assert_eq!(targets.get(a), None);
    assert_eq!(targets.get(c), Some(&"c"));
    targets.remove(42);
    assert_eq!(targets.get(b), Some(&"b"));
    assert_eq!(targets.add("d"), 3);
}
