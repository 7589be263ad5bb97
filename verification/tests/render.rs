use core::ops::Range;

use void_runtime::draw_list::{DrawObject, DrawType, PostProcessDrawObject};
use void_runtime::graphics::TextureId;
use void_runtime::material::{DefaultMaterials, MaterialId};
use void_runtime::render_plan::{
    depth_order, instance_indices, plan_camera_passes, plan_post_processing, PostProcessPass,
};
use void_runtime::render_targets::RenderTargetType;
use void_runtime::scene_textures::{
    get_uniform_buffer_stride, scene_instance_buffer_sizes, PipelineTextureCounts, SceneTextures,
};
use void_runtime::texture_atlas::TextureAtlases;

#[test]
fn instance_indices_of_draws_then_post_processes() {
    let draws = vec![
        DrawObject { draw_type: DrawType::Texture { scene_instance_index: 4 }, material_id: MaterialId(0) },
        DrawObject { draw_type: DrawType::Text { section_index: 9 }, material_id: MaterialId(0) },
        DrawObject {
            draw_type: DrawType::Circle { vertex_range: Range { start: 6, end: 9 }, scene_instance_index: 7 },
            material_id: MaterialId(0),
        },
    ];
    let post = vec![PostProcessDrawObject { material_id: MaterialId(1), draw_index: 11 }];
    assert_eq!(instance_indices(&draws, &post), vec![4, 0, 7, 11]);
}

#[test]
fn camera_slots_skip_missing_and_disabled() {
    let (plan, count) = plan_camera_passes(&vec![Some(true), None, Some(false), Some(true)]);
    assert_eq!(plan, vec![Some(0), None, None, Some(2)]);
    assert_eq!(count, 3);
    let (plan, count) = plan_camera_passes(&vec![]);
    assert!(plan.is_empty());
    assert_eq!(count, 0);
}

#[test]
fn scene_textures_read_back() {
    let mut scene = SceneTextures::new();
    let a = scene.add_scene_instance(&[TextureId(1), TextureId(2), TextureId(3)], 2);
    let b = scene.add_scene_instance(&[], 2);
    let c = scene.add_scene_instance(&[TextureId(9)], 0);
    let d = scene.add_scene_instance(&[TextureId(5)], 1);
    assert_eq!((a, b, c, d), (0, 1, 2, 3));
    assert_eq!(scene.textures_for_draw(0, 2), Some(&[TextureId(1), TextureId(2)][..]));
    assert_eq!(scene.textures_for_draw(1, 2), None);
    assert_eq!(scene.textures_for_draw(2, 0), None);
    assert_eq!(scene.textures_for_draw(3, 1), Some(&[TextureId(5)][..]));
    scene.clear();
    assert_eq!(scene.textures_for_draw(0, 2), None);
}

#[test]
fn texture_counts_fall_back_to_the_missing_material() {
    let mut counts = PipelineTextureCounts::new();
    counts.register(DefaultMaterials::MissingOrBroken.material_id(), 1);
    counts.register(MaterialId(7), 3);
    assert_eq!(counts.texture_count_or_missing(MaterialId(7)), 3);
    assert_eq!(counts.texture_count_or_missing(MaterialId(8)), 1);
}

#[test]
fn uniform_stride_rounds_up() {
    assert_eq!(get_uniform_buffer_stride(64, 256), 256);
    assert_eq!(get_uniform_buffer_stride(256, 256), 256);
    assert_eq!(get_uniform_buffer_stride(300, 256), 512);
    assert_eq!(get_uniform_buffer_stride(0, 256), 0);
}

#[test]
fn atlas_of_a_packed_texture() {
    let mut atlases = TextureAtlases::new();
    atlases.load_texture_into_atlas(TextureId(10), 2048, 2048);
    atlases.load_texture_into_atlas(TextureId(11), 4, 4);
    assert_eq!(atlases.atlas_texture_id_of(TextureId(10)), Some(TextureId(10)));
    assert_eq!(atlases.atlas_texture_id_of(TextureId(11)), Some(TextureId(11)));
    assert_eq!(atlases.atlas_texture_id_of(TextureId(12)), None);
}

#[test]
fn post_processes_ping_pong_between_targets() {
    let processes = [MaterialId(5), MaterialId(9), MaterialId(6), MaterialId(7)];
    let draws = [
        PostProcessDrawObject { material_id: MaterialId(5), draw_index: 11 },
        PostProcessDrawObject { material_id: MaterialId(6), draw_index: 12 },
        PostProcessDrawObject { material_id: MaterialId(5), draw_index: 13 },
    ];
    // Material 9 is not among the 8 materials, and 7 has no pipeline.
    let plan = plan_post_processing(false, &processes, 8, &[true, true, true, false], &draws);
    assert_eq!(
        plan.passes,
        vec![
            PostProcessPass::Effect {
                material_id: MaterialId(5),
                draw_index: 11,
                target: RenderTargetType::PostProcess,
                sampled: RenderTargetType::ColorResolve,
            },
            PostProcessPass::Effect {
                material_id: MaterialId(6),
                draw_index: 12,
                target: RenderTargetType::ColorResolve,
                sampled: RenderTargetType::PostProcess,
            },
        ]
    );
    assert_eq!(plan.screen_source, RenderTargetType::ColorResolve);
}

#[test]
fn downsamples_come_first_and_the_screen_samples_the_last_effect() {
    let plan = plan_post_processing(true, &[MaterialId(1)], 4, &[true], &[]);
    assert_eq!(
        plan.passes,
        vec![
            PostProcessPass::Downsample {
                target: RenderTargetType::ColorDownSample1x,
                sampled: RenderTargetType::ColorResolve,
            },
            PostProcessPass::Downsample {
                target: RenderTargetType::ColorDownSample2x,
                sampled: RenderTargetType::ColorDownSample1x,
            },
            PostProcessPass::Effect {
                material_id: MaterialId(1),
                draw_index: 0,
                target: RenderTargetType::PostProcess,
                sampled: RenderTargetType::ColorResolve,
            },
        ]
    );
    assert_eq!(plan.screen_source, RenderTargetType::PostProcess);
    let none = plan_post_processing(false, &[], 4, &[], &[]);
    assert!(none.passes.is_empty());
    assert_eq!(none.screen_source, RenderTargetType::ColorResolve);
}

#[test]
fn draws_are_ordered_by_depth_stably() {
    assert_eq!(depth_order(&[3, -1, 3, 0]), vec![1, 3, 0, 2]);
    assert_eq!(depth_order(&[]), Vec::<usize>::new());
    assert_eq!(depth_order(&[5, 5, 5]), vec![0, 1, 2]);
}

#[test]
fn scene_buffer_holds_whole_instances() {
    assert_eq!(scene_instance_buffer_sizes(134_217_728), (131_072, 524_288));
    assert_eq!(scene_instance_buffer_sizes(0), (0, 0));
}
