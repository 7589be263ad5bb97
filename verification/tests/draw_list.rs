use core::ops::Range;

use void_runtime::draw_list::{batch_draw_objects, DrawBatch, DrawObject, DrawType};
use void_runtime::graphics::TextureId;
use void_runtime::material::MaterialId;

fn texture(index: u32, material: u32) -> DrawObject {
    DrawObject { draw_type: DrawType::Texture { scene_instance_index: index }, material_id: MaterialId(material) }
}

fn ranges(batches: &[DrawBatch]) -> Vec<(u32, u32)> {
    batches.iter().map(|b| (b.start, b.end)).collect()
}

#[test]
fn scene_instance_index_of_each_kind() {
    assert_eq!(DrawType::Texture { scene_instance_index: 4 }.scene_instance_index(), Some(4));
    assert_eq!(
        DrawType::Circle { vertex_range: Range { start: 6, end: 40 }, scene_instance_index: 2 }
            .scene_instance_index(),
        Some(2)
    );
    assert_eq!(DrawType::Text { section_index: 1 }.scene_instance_index(), None);
    assert_eq!(DrawType::Particle { handle: Some(3) }.scene_instance_index(), None);
}

#[test]
fn no_draws_no_batches() {
    assert!(batch_draw_objects(&vec![], &vec![]).is_empty());
}

#[test]
fn textures_of_one_material_and_textures_share_a_batch() {
    let draws = vec![texture(0, 0), texture(1, 0), texture(2, 0)];
    let textures = vec![Some(vec![TextureId(5)]); 3];
    assert_eq!(ranges(&batch_draw_objects(&draws, &textures)), vec![(0, 3)]);
}

#[test]
fn a_new_material_starts_a_batch() {
    let draws = vec![texture(0, 0), texture(1, 1), texture(2, 1)];
    let textures = vec![None, None, None];
    assert_eq!(ranges(&batch_draw_objects(&draws, &textures)), vec![(0, 1), (1, 3)]);
}

#[test]
fn other_textures_start_a_batch() {
    let draws = vec![texture(0, 0), texture(1, 0), texture(2, 0)];
    let textures = vec![Some(vec![TextureId(5)]), Some(vec![TextureId(6)]), Some(vec![TextureId(6)])];
    assert_eq!(ranges(&batch_draw_objects(&draws, &textures)), vec![(0, 1), (1, 3)]);
}

#[test]
fn only_textures_are_batched() {
    let circle = |i: u32| DrawObject {
        draw_type: DrawType::Circle { vertex_range: Range { start: 6, end: 10 }, scene_instance_index: i },
        material_id: MaterialId(0),
    };
    let draws = vec![circle(0), circle(1), texture(2, 0)];
    let textures = vec![None, None, None];
    assert_eq!(ranges(&batch_draw_objects(&draws, &textures)), vec![(0, 1), (1, 2), (2, 3)]);
}

#[test]
fn batches_cover_every_draw_once() {
    let draws: Vec<DrawObject> = (0..20).map(|i| texture(i, i % 3 / 2)).collect();
    let textures: Vec<Option<Vec<TextureId>>> = (0..20).map(|i| Some(vec![TextureId(i / 5)])).collect();
    let batches = batch_draw_objects(&draws, &textures);
    let mut next = 0;
    for b in &batches {
        assert_eq!(b.start, next);
        assert!(b.start < b.end);
        next = b.end;
    }
    assert_eq!(next, 20);
}
