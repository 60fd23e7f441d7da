use macroquad::miniquad::{RawId, TextureId};
use macroquad::texture::Texture2D;
use texture_preload::image_preload::{DecodeError, DecodedImage, TextureManager};
use texture_preload::images_obj::{ImageObject, RenderParams, MIN_ZOOM, UNIT_ZOOM};

fn tex(n: u32) -> Texture2D {
    Texture2D::from_miniquad_texture(TextureId::from_raw_id(RawId::OpenGl(n)))
}

fn solid(n: u32, w: u16, h: u16, alpha: u8) -> Result<DecodedImage, DecodeError> {
    let mut bytes = Vec::new();
    for _ in 0..(w as usize * h as usize) {
        bytes.extend_from_slice(&[1, 2, 3, alpha]);
    }
    Ok(DecodedImage { texture: tex(n), width: w, height: h, bytes })
}

fn two_asset_cache() -> TextureManager {
    let mut cache = TextureManager::new();
    let failed = cache.preload_all(&["a.png", "b.png"], vec![solid(1, 2, 2, 255), solid(2, 2, 2, 0)], tex(0));
    assert!(failed.is_empty());
    cache
}

#[test]
fn hit_test_follows_bound_asset_and_clear() {
    let cache = two_asset_cache();
    let mut slot = ImageObject::new(&cache, "", 300, 200, 10, 20, true, 1000);
    assert!(slot.switch_texture(&cache, "a.png"));
    assert!(slot.hit_test(&cache, 0, 0));
    assert!(slot.switch_texture(&cache, "b.png"));
    assert!(!slot.hit_test(&cache, 0, 0));
    slot.clear_image();
    assert!(!slot.hit_test(&cache, 0, 0));
    assert!(slot.is_empty());
    assert!(!slot.is_collidable());
}

#[test]
fn bind_to_unknown_name_keeps_binding() {
    let cache = two_asset_cache();
    let mut slot = ImageObject::new(&cache, "a.png", 300, 200, 0, 0, false, 1000);
    assert!(!slot.switch_texture(&cache, "nonexistent"));
    assert_eq!(slot.get_current_texture_path(), Some("a.png".to_string()));
    slot.clear_image();
    assert!(!slot.switch_texture(&cache, "nonexistent"));
    assert_eq!(slot.get_current_texture_path(), None);
}

#[test]
fn bind_by_alias_stores_the_asset_id() {
    let mut cache = two_asset_cache();
    cache.register_alias("Back", "b.png").unwrap();
    let mut slot = ImageObject::new(&cache, "Back", 1, 1, 0, 0, false, 1000);
    assert_eq!(slot.get_current_texture_path(), Some("b.png".to_string()));
    assert!(slot.switch_texture_by_name(&cache, "Back"));
    assert!(!slot.switch_texture_by_name(&cache, "a.png"));
    assert_eq!(slot.get_current_texture_path(), Some("b.png".to_string()));
}

#[test]
fn new_with_unresolved_path_starts_cleared() {
    let cache = two_asset_cache();
    let slot = ImageObject::new(&cache, "", 300, 200, 5, 6, true, 1000);
    assert!(slot.is_empty());
    assert_eq!(slot.render_params(&cache), None);
    assert_eq!(slot.texture_size(&cache), None);
    assert_eq!(slot.get_mask(&cache), None);
    assert_eq!(slot.pos(), (5, 6));
    assert_eq!(slot.size(), (300, 200));
}

#[test]
fn zoom_never_drops_below_floor() {
    let cache = two_asset_cache();
    let mut slot = ImageObject::new(&cache, "a.png", 1, 1, 0, 0, false, 50);
    assert_eq!(slot.get_zoom_level(), MIN_ZOOM);
    slot.reset_zoom();
    assert_eq!(slot.get_zoom_level(), UNIT_ZOOM);
    slot.zoom_in(250);
    assert_eq!(slot.get_zoom_level(), 1250);
    slot.zoom_out(1_000_000);
    assert_eq!(slot.get_zoom_level(), 100);
    slot.zoom_in(i64::MIN);
    assert_eq!(slot.get_zoom_level(), 100);
    slot.zoom_out(i64::MIN);
    assert_eq!(slot.get_zoom_level(), u32::MAX);
    slot.set_zoom(-5);
    assert_eq!(slot.get_zoom_level(), 100);
    slot.set_zoom(99);
    assert_eq!(slot.get_zoom_level(), 100);
    slot.set_zoom(101);
    assert_eq!(slot.get_zoom_level(), 101);
}

#[test]
fn render_params_scale_box_or_asset_size() {
    let cache = two_asset_cache();
    let mut slot = ImageObject::new(&cache, "a.png", 300, 200, -4, 7, true, 1500);
    assert_eq!(
        slot.render_params(&cache),
        Some(RenderParams { x: -4, y: 7, width_milli: 450_000, height_milli: 300_000 })
    );
    slot.toggle_stretch();
    assert!(!slot.is_stretch_enabled());
    assert_eq!(
        slot.render_params(&cache),
        Some(RenderParams { x: -4, y: 7, width_milli: 3000, height_milli: 3000 })
    );
    slot.set_position(1, 2);
    slot.enable_stretch();
    slot.set_zoom(1000);
    assert_eq!(
        slot.render_params(&cache),
        Some(RenderParams { x: 1, y: 2, width_milli: 300_000, height_milli: 200_000 })
    );
    slot.disable_stretch();
    slot.set_stretch(true);
    assert!(slot.is_stretch_enabled());
}

#[test]
fn hit_test_outside_image_is_false() {
    let cache = two_asset_cache();
    let slot = ImageObject::new(&cache, "a.png", 300, 200, 0, 0, true, 1000);
    assert!(slot.hit_test(&cache, 1, 1));
    assert!(!slot.hit_test(&cache, 2, 0));
    assert!(!slot.hit_test(&cache, 0, 2));
    assert_eq!(slot.texture_size(&cache), Some((2, 2)));
    assert_eq!(slot.get_mask(&cache), Some(&vec![0xF0]));
}

#[test]
fn hit_test_reads_each_pixel() {
    let mut cache = TextureManager::new();
    let bytes = vec![0, 0, 0, 0, 0, 0, 0, 255, 0, 0, 0, 255, 0, 0, 0, 0];
    cache.preload("d.png", Ok(DecodedImage { texture: tex(3), width: 2, height: 2, bytes })).unwrap();
    let slot = ImageObject::new(&cache, "d.png", 2, 2, 0, 0, false, 1000);
    assert!(!slot.hit_test(&cache, 0, 0));
    assert!(slot.hit_test(&cache, 1, 0));
    assert!(slot.hit_test(&cache, 0, 1));
    assert!(!slot.hit_test(&cache, 1, 1));
}
