use void_runtime::graphics::TextureId;
use void_runtime::render_targets::{RenderTargetType, TextureMetaData};
use void_runtime::texture_atlas::{AtlasError, TextureAtlas, TextureAtlases, ATLAS_WIDTH_HEIGHT};

#[test]
fn new_atlas_keeps_its_texture_id() {
    let atlas = TextureAtlas::new(TextureId(7));
    assert_eq!(atlas.get_atlas_texture_id(), TextureId(7));
    assert!(atlas.get_region(&TextureId(7)).is_none());
}

#[test]
fn first_texture_goes_to_the_top_left_corner() {
    let mut atlas = TextureAtlas::new(TextureId(1));
    let r = atlas.load_texture_into_atlas(100, 50, TextureId(3)).unwrap();
    assert_eq!(r, (0, 0, 100, 50));
    let region = atlas.get_region(&TextureId(3)).unwrap();
    assert_eq!(region.top_left, (0, 0));
    assert_eq!(region.bottom_right, (100, 50));
    assert_eq!(region.width(), 100);
    assert_eq!(region.height(), 50);
}

#[test]
fn second_texture_goes_below_the_first() {
    // The strip below the first texture is tried before the one to its right.
    let mut atlas = TextureAtlas::new(TextureId(1));
    atlas.load_texture_into_atlas(100, 50, TextureId(3)).unwrap();
    let r = atlas.load_texture_into_atlas(10, 10, TextureId(4)).unwrap();
    assert_eq!(r, (0, 50, 10, 10));
}

#[test]
fn texture_too_wide_for_the_strip_below_goes_to_the_right() {
    let mut atlas = TextureAtlas::new(TextureId(1));
    atlas.load_texture_into_atlas(2000, 2040, TextureId(3)).unwrap();
    // Below: 2048 x 8 is no more than the threshold, so it was not kept free.
    // Right: 48 x 2040 is free.
    let r = atlas.load_texture_into_atlas(40, 40, TextureId(4)).unwrap();
    assert_eq!(r, (2000, 0, 40, 40));
}

#[test]
fn full_atlas_is_out_of_space() {
    let mut atlas = TextureAtlas::new(TextureId(1));
    let r = atlas.load_texture_into_atlas(ATLAS_WIDTH_HEIGHT, ATLAS_WIDTH_HEIGHT, TextureId(2));
    assert_eq!(r.unwrap(), (0, 0, 2048, 2048));
    let r = atlas.load_texture_into_atlas(1, 1, TextureId(3));
    assert_eq!(r, Err(AtlasError::OutOfSpace));
    assert_eq!(AtlasError::OutOfSpace.message(), "Out of space");
    assert!(atlas.get_region(&TextureId(3)).is_none());
}

#[test]
fn too_large_texture_is_out_of_space() {
    let mut atlas = TextureAtlas::new(TextureId(1));
    assert_eq!(
        atlas.load_texture_into_atlas(ATLAS_WIDTH_HEIGHT + 1, 1, TextureId(2)),
        Err(AtlasError::OutOfSpace)
    );
}

#[test]
fn packed_regions_do_not_overlap() {
    let mut atlas = TextureAtlas::new(TextureId(1));
    let mut placed = Vec::new();
    for i in 0..40u32 {
        let w = 37 + (i * 53) % 300;
        let h = 21 + (i * 71) % 250;
        if let Ok(r) = atlas.load_texture_into_atlas(w, h, TextureId(100 + i)) {
            placed.push(r);
        }
    }
    assert!(placed.len() > 10);
    for (a, ra) in placed.iter().enumerate() {
        assert!(ra.0 + ra.2 <= ATLAS_WIDTH_HEIGHT && ra.1 + ra.3 <= ATLAS_WIDTH_HEIGHT);
        for rb in placed.iter().skip(a + 1) {
            let overlap = ra.0 < rb.0 + rb.2
                && rb.0 < ra.0 + ra.2
                && ra.1 < rb.1 + rb.3
                && rb.1 < ra.1 + ra.3;
            assert!(!overlap, "{:?} overlaps {:?}", ra, rb);
        }
    }
}

#[test]
fn atlases_create_the_first_atlas_on_demand() {
    let mut atlases = TextureAtlases::new();
    assert_eq!(atlases.len(), 0);
    let r = atlases.load_texture_into_atlas(TextureId(9), 64, 32);
    assert_eq!(r, (0, 0, 64, 32));
    assert_eq!(atlases.len(), 1);
    assert_eq!(atlases.texture_atlas(0).get_atlas_texture_id(), TextureId(9));
    let region = atlases.atlas_region(TextureId(9)).unwrap();
    assert_eq!(region.bottom_right, (64, 32));
}

#[test]
fn atlases_open_a_new_atlas_when_the_last_is_full() {
    let mut atlases = TextureAtlases::new();
    atlases.load_texture_into_atlas(TextureId(1), 2048, 2048);
    let r = atlases.load_texture_into_atlas(TextureId(2), 16, 16);
    assert_eq!(r, (0, 0, 16, 16));
    assert_eq!(atlases.len(), 2);
    assert_eq!(atlases.texture_atlas(1).get_atlas_texture_id(), TextureId(2));
    assert!(atlases.atlas_region(TextureId(3)).is_none());
}

#[test]
fn texture_metadata_getters() {
    let m = TextureMetaData::new(TextureId(5), 640, 480);
    assert_eq!(m.texture_id(), TextureId(5));
    assert_eq!(m.width(), 640);
    assert_eq!(m.height(), 480);
}

#[test]
fn render_targets_sizes() {
    let all = RenderTargetType::all();
    assert_eq!(all.len(), 6);
    assert_eq!(all[0], RenderTargetType::ColorMsaa);
    assert_eq!(RenderTargetType::ColorMsaa.dimensions(800, 600), (800, 600));
    assert_eq!(RenderTargetType::ColorDownSample1x.dimensions(800, 600), (400, 300));
    assert_eq!(RenderTargetType::DownSample2xScratch.dimensions(800, 600), (200, 150));
    assert_eq!(RenderTargetType::ColorMsaa.sample_count(), 4);
    assert_eq!(RenderTargetType::PostProcess.sample_count(), 1);
    assert_eq!(RenderTargetType::ColorResolve.label(), "GpuTextureManager::ColorResolve");
}
