use void_runtime::asset_files::{image_format_for_extension, ImageFileFormat};
use void_runtime::text_render::{str_to_u8array, u8array_to_str, TEXT_RENDER_SIZE};
use void_runtime::callable::{AsyncCompletionValue, Completion, ReturnWriter};
use void_runtime::generate_flat_buffers::{flatc_args, GenerateFlatBuffers};
use void_runtime::graphics::{
    default_circle_render_num_sides, default_true, CircleRender, ColorRender, ParticleManager,
    ParticleRender, TextureHash, TextureId,
};
use void_runtime::ecs::AssetId;
use void_runtime::material::{
    default_material_parameters_material_id, default_material_parameters_textures, DefaultMaterials,
    MaterialId,
};
use void_runtime::particles::{align_to_next_multiple, EffectHandleAllocator, ParticleFrame};
use void_runtime::pipeline::PipelineId;
use void_runtime::system::system_name_generator;
use void_runtime::text::{default_text_render_alignment, TextAlignment, TextHash, TextId, ZeroTextId};

#[test]
fn system_names_join_with_colons() {
    assert_eq!(system_name_generator("my_module", "update"), "my_module::update");
    assert_eq!(system_name_generator("", ""), "::");
}

#[test]
fn align_rounds_up_to_multiples() {
    assert_eq!(align_to_next_multiple(0, 4), 0);
    assert_eq!(align_to_next_multiple(1, 4), 4);
    assert_eq!(align_to_next_multiple(4, 4), 4);
    assert_eq!(align_to_next_multiple(5, 4), 8);
    assert_eq!(align_to_next_multiple(17, 1), 17);
    assert_eq!(align_to_next_multiple(255, 256), 256);
}

#[test]
fn effect_handles_count_up_from_one() {
    let mut handles = EffectHandleAllocator::new();
    assert_eq!(handles.next_effect_handle(), Some(1));
    assert_eq!(handles.next_effect_handle(), Some(2));
    let mut particle = ParticleRender::new(AssetId(4), true);
    assert_eq!(particle.handle(), None);
    particle.init_effect(&mut handles);
    assert_eq!(particle.handle(), Some(3));
    assert_eq!(particle.descriptor_id(), AssetId(4));
    assert!(particle.visible());
    particle.set_visibility(false);
    assert!(!particle.visible());
}

#[test]
fn default_material_ids() {
    assert_eq!(DefaultMaterials::Sprite.material_id(), MaterialId(0));
    assert_eq!(DefaultMaterials::PassThru.material_id(), MaterialId(1));
    assert_eq!(DefaultMaterials::MissingOrBroken.material_id(), MaterialId(2));
    assert_eq!(default_material_parameters_material_id(), MaterialId(0));
    assert_eq!(default_material_parameters_textures(), [TextureId(1); 16]);
}

#[test]
fn circle_and_color_defaults() {
    let c = CircleRender::new(6);
    assert_eq!(c.num_sides, 6);
    assert!(c.visible);
    assert_eq!(default_circle_render_num_sides(), 32);
    assert!(default_true());
    assert!(ColorRender::default().visible);
}

#[test]
fn hashes_take_the_first_eight_bytes() {
    assert_eq!(TextureHash::create_empty().as_bytes(), [0; 8]);
    assert_eq!(TextHash::create_empty().as_bytes(), [0; 8]);
    assert_eq!(TextureHash::from_slice(&[1, 2, 3]).as_bytes(), [1, 2, 3, 0, 0, 0, 0, 0]);
    assert_eq!(TextHash::from_slice(&[1, 2, 3, 4, 5, 6, 7, 8, 9]).as_bytes(), [1, 2, 3, 4, 5, 6, 7, 8]);
}

#[test]
fn text_ids_are_never_zero() {
    assert_eq!(TextId::try_from(0), Err(ZeroTextId));
    assert_eq!(TextId::try_from(7).unwrap().get(), 7);
    assert_eq!(default_text_render_alignment(), TextAlignment::Left);
    assert_eq!(TextId::zero_message(), "Value for TextId is 0, which is not allowed");
}

#[test]
fn pipeline_ids_are_never_zero() {
    assert!(PipelineId::new(0).is_none());
    assert_eq!(PipelineId::new(3).unwrap().get(), 3);
    assert_eq!(PipelineId::default().get(), 1);
}

#[test]
fn completion_values() {
    let null = AsyncCompletionValue::null();
    assert!(null.is_null());
    let full = AsyncCompletionValue { return_value_ptr: 8, return_value_size: 4, user_data_ptr: 16, user_data_size: 2 };
    assert!(!full.is_null());
    assert!(AsyncCompletionValue { user_data_size: 0, ..full }.is_null());
    let _completion: Completion<u32> = Completion::new();
    let writer: ReturnWriter<u8> = ReturnWriter::new(42);
    assert_eq!(writer.task_id(), 42);
}

#[test]
fn flatc_settings() {
    let settings = GenerateFlatBuffers::new();
    assert_eq!(settings.output_flag(), "--rust");
    assert_eq!(settings.input_path_or_default(), "./src");
    assert!(settings.out_dir_setting().is_none());
    let settings = settings.type_script().in_path("schemas").out_dir("gen");
    assert_eq!(settings.output_flag(), "--ts");
    assert_eq!(settings.input_path_or_default(), "schemas");
    assert_eq!(settings.out_dir_setting().unwrap(), "gen");
    let args = flatc_args("--ts", "gen", "schemas/a.fbs");
    assert_eq!(args, vec!["--ts", "-o", "gen", "schemas/a.fbs", "--gen-object-api", "--gen-name-strings"]);
}

#[test]
fn text_is_cut_or_padded_to_the_array() {
    assert_eq!(str_to_u8array::<4>("hi"), [b'h', b'i', 0, 0]);
    assert_eq!(str_to_u8array::<2>("hello"), [b'h', b'e']);
    assert_eq!(str_to_u8array::<3>("é!"), [0xc3, 0xa9, b'!']);
    let full = str_to_u8array::<TEXT_RENDER_SIZE>("text");
    assert_eq!(&full[..5], &[b't', b'e', b'x', b't', 0]);
    assert!(full[4..].iter().all(|b| *b == 0));
}

#[test]
fn text_array_reads_back_without_nuls() {
    assert_eq!(u8array_to_str(b"\0\0hi\0\0").unwrap(), "hi");
    assert_eq!(u8array_to_str(b"a\0b\0").unwrap(), "a\0b");
    assert_eq!(u8array_to_str(&[0u8; 8]).unwrap(), "");
    assert!(u8array_to_str(&[0xff, 0]).is_err());
    let array = str_to_u8array::<16>("héllo");
    assert_eq!(u8array_to_str(&array).unwrap(), "héllo");
}

#[test]
fn effects_not_seen_in_a_frame_become_stale() {
    let mut frame = ParticleFrame::new();
    frame.begin_frame();
    assert!(frame.record_update(Some(1), 2, 100, 0, false));
    assert!(frame.record_update(Some(2), 1, 50, 8, false));
    assert!(!frame.record_update(Some(3), 1, 10, 0, true));
    assert_eq!(frame.current_frame_num_emitters, 4);
    assert_eq!(frame.current_frame_max_num_particles, 160);
    assert_eq!(frame.current_frame_max_num_trail_vertices, 8);
    assert!(frame.visible_effects.stale_effects().is_empty());

    frame.begin_frame();
    assert_eq!(frame.current_frame_num_emitters, 0);
    assert!(frame.record_update(Some(2), 1, 50, 8, false));
    let stale = frame.visible_effects.stale_effects();
    assert_eq!(stale, vec![Some(1)]);

    frame.begin_frame();
    let mut stale = frame.visible_effects.stale_effects();
    stale.sort();
    assert_eq!(stale, vec![Some(2)]);
}

#[test]
fn image_formats_by_extension_in_any_case() {
    assert_eq!(image_format_for_extension("png"), Some(ImageFileFormat::Png));
    assert_eq!(image_format_for_extension("PNG"), Some(ImageFileFormat::Png));
    assert_eq!(image_format_for_extension("Jpg"), Some(ImageFileFormat::Jpeg));
    assert_eq!(image_format_for_extension("JPEG"), Some(ImageFileFormat::Jpeg));
    assert_eq!(image_format_for_extension("gif"), None);
    assert_eq!(image_format_for_extension(""), None);
    assert_eq!(image_format_for_extension("png "), None);
}

#[test]
fn empty_hashes_are_the_default() {
    assert_eq!(TextHash::create_empty(), TextHash::default());
    assert_eq!(TextHash::default().as_bytes(), [0u8; 8]);
    assert_eq!(TextureHash::create_empty(), TextureHash::default());
    assert_eq!(TextureHash::default().as_bytes(), [0u8; 8]);
}
