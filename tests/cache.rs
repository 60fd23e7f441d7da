use macroquad::miniquad::{RawId, TextureId};
use macroquad::texture::Texture2D;
use texture_preload::image_preload::{CacheError, DecodeError, DecodedImage, TextureManager};

fn tex(n: u32) -> Texture2D {
    Texture2D::from_miniquad_texture(TextureId::from_raw_id(RawId::OpenGl(n)))
}

fn solid(n: u32, w: u16, h: u16, alpha: u8) -> Result<DecodedImage, DecodeError> {
    let mut bytes = Vec::new();
    for _ in 0..(w as usize * h as usize) {
        bytes.extend_from_slice(&[1, 2, 3, alpha]);
    }
    Ok(DecodedImage { texture: tex(n), width: w, height: h, bytes })
}

#[test]
fn preload_twice_keeps_first_entry() {
    let mut cache = TextureManager::new();
    assert_eq!(cache.preload("a.png", solid(1, 2, 2, 255)), Ok(()));
    assert_eq!(cache.preload("a.png", solid(2, 2, 2, 0)), Ok(()));
    let e = cache.get("a.png").unwrap();
    assert!(e.texture == tex(1));
    assert_eq!(e.mask, vec![0xF0]);
    assert_eq!(cache.get_texture_paths().len(), 1);
}

#[test]
fn preload_passes_decode_failure_on() {
    let mut cache = TextureManager::new();
    assert_eq!(cache.preload("gone.png", Err(DecodeError::Unreadable)), Err(DecodeError::Unreadable));
    assert!(!cache.is_texture_preloaded("gone.png"));
}

#[test]
fn preload_rejects_short_pixel_buffer() {
    let mut cache = TextureManager::new();
    let bad = Ok(DecodedImage { texture: tex(1), width: 2, height: 2, bytes: vec![0; 15] });
    assert_eq!(cache.preload("bad.png", bad), Err(DecodeError::Malformed));
    assert!(cache.get("bad.png").is_none());
}

#[test]
fn preload_rejects_zero_sized_image() {
    let mut cache = TextureManager::new();
    let bad = Ok(DecodedImage { texture: tex(1), width: 0, height: 3, bytes: vec![] });
    assert_eq!(cache.preload("flat.png", bad), Err(DecodeError::Malformed));
}

#[test]
fn preload_records_size_and_mask() {
    let mut cache = TextureManager::new();
    cache.preload("t.png", solid(4, 3, 1, 0)).unwrap();
    let e = cache.get("t.png").unwrap();
    assert_eq!((e.width, e.height), (3, 1));
    assert_eq!(e.id, "t.png");
    assert_eq!(e.mask, vec![0x00]);
}

#[test]
fn alias_overwrite_follows_last_registration() {
    let mut cache = TextureManager::new();
    cache.preload("a.png", solid(1, 2, 2, 255)).unwrap();
    cache.preload("b.png", solid(2, 2, 2, 0)).unwrap();
    assert_eq!(cache.register_alias("Front", "a.png"), Ok(()));
    assert_eq!(cache.resolve("Front").unwrap().id, "a.png");
    assert_eq!(cache.register_alias("Front", "b.png"), Ok(()));
    assert_eq!(cache.resolve("Front").unwrap().id, "b.png");
    assert_eq!(cache.get_friendly_names(), vec!["Front".to_string()]);
}

#[test]
fn alias_to_unknown_asset_is_refused() {
    let mut cache = TextureManager::new();
    assert_eq!(cache.register_alias("Back", "nope.png"), Err(CacheError::UnknownAsset));
    assert!(!cache.has_friendly_name("Back"));
    assert!(cache.resolve("Back").is_none());
}

#[test]
fn alias_resolves_like_its_id() {
    let mut cache = TextureManager::new();
    cache.preload("a.png", solid(7, 2, 2, 255)).unwrap();
    cache.register_alias("Front", "a.png").unwrap();
    let by_name = cache.resolve("Front").unwrap();
    let by_id = cache.resolve("a.png").unwrap();
    assert_eq!(by_name.id, by_id.id);
    assert!(by_name.texture == by_id.texture);
    assert_eq!(by_name.mask, by_id.mask);
    assert_eq!(cache.get_by_name("Front").unwrap().id, "a.png");
    assert!(cache.get_by_name("a.png").is_none());
    assert_eq!(cache.get_path_for_name("Front"), Some("a.png".to_string()));
    assert_eq!(cache.get_path_for_name("Side"), None);
}

#[test]
fn preload_all_goes_on_past_failures() {
    let mut cache = TextureManager::new();
    let failed = cache.preload_all(
        &["ok.png", "missing.png"],
        vec![solid(1, 2, 2, 255), Err(DecodeError::Unreadable)],
        tex(99),
    );
    assert_eq!(failed, vec!["missing.png".to_string()]);
    assert!(cache.resolve("ok.png").is_some());
    assert!(cache.resolve("missing.png").is_none());
    let blank = cache.get_empty_texture().unwrap();
    assert_eq!((blank.width, blank.height), (1, 1));
    assert_eq!(blank.mask, vec![0]);
    assert!(blank.texture == tex(99));
}

#[test]
fn preload_all_reports_each_failure_in_order() {
    let mut cache = TextureManager::new();
    let failed = cache.preload_all(
        &["x.png", "y.png", "x.png", "z.png"],
        vec![Err(DecodeError::Unreadable), solid(2, 1, 1, 1), Err(DecodeError::Malformed), solid(3, 1, 1, 0)],
        tex(9),
    );
    assert_eq!(failed, vec!["x.png".to_string(), "x.png".to_string()]);
    let mut ids = cache.get_texture_paths();
    ids.sort();
    assert_eq!(ids, vec!["\0empty".to_string(), "y.png".to_string(), "z.png".to_string()]);
}

#[test]
fn empty_texture_is_created_once() {
    let mut cache = TextureManager::new();
    assert!(cache.get_empty_texture().is_none());
    cache.create_empty_texture(tex(5));
    cache.create_empty_texture(tex(6));
    assert!(cache.get_empty_texture().unwrap().texture == tex(5));
    assert!(cache.get("__empty__").is_none());
}

#[test]
fn add_friendly_names_registers_pairs_in_order() {
    let mut cache = TextureManager::new();
    cache.preload("a.png", solid(1, 1, 1, 255)).unwrap();
    cache.preload("b.png", solid(2, 1, 1, 255)).unwrap();
    assert_eq!(cache.add_friendly_names(&["One", "Two", "One"], &["a.png", "b.png", "b.png"]), Ok(()));
    assert_eq!(cache.get_path_for_name("One"), Some("b.png".to_string()));
    assert_eq!(cache.get_path_for_name("Two"), Some("b.png".to_string()));
    let mut names = cache.get_friendly_names();
    names.sort();
    assert_eq!(names, vec!["One".to_string(), "Two".to_string()]);
}

#[test]
fn add_friendly_names_refuses_mismatched_lists() {
    let mut cache = TextureManager::new();
    cache.preload("a.png", solid(1, 1, 1, 255)).unwrap();
    assert_eq!(cache.add_friendly_names(&["One", "Two"], &["a.png"]), Err(CacheError::LengthMismatch));
    assert!(cache.get_friendly_names().is_empty());
}

#[test]
fn add_friendly_names_refuses_unknown_path_atomically() {
    let mut cache = TextureManager::new();
    cache.preload("a.png", solid(1, 1, 1, 255)).unwrap();
    assert_eq!(cache.add_friendly_names(&["One", "Two"], &["a.png", "c.png"]), Err(CacheError::UnknownAsset));
    assert!(!cache.has_friendly_name("One"));
}
