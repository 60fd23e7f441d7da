use macroquad::miniquad::{RawId, TextureId};
use macroquad::texture::Texture2D;
use texture_preload::image_preload::{DecodeError, DecodedImage};
use texture_preload::image_viewer::ImageViewer;

fn tex(n: u32) -> Texture2D {
    Texture2D::from_miniquad_texture(TextureId::from_raw_id(RawId::OpenGl(n)))
}

fn solid(n: u32) -> Result<DecodedImage, DecodeError> {
    Ok(DecodedImage { texture: tex(n), width: 1, height: 1, bytes: vec![1, 2, 3, 4] })
}

fn three() -> ImageViewer {
    ImageViewer::new(&["one.png", "two.png", "three.png"], vec![solid(1), solid(2), solid(3)], 10, 20, 300, 200)
}

#[test]
fn next_image_wraps_round() {
    let mut v = three();
    assert_eq!(v.current_index(), 0);
    v.next_image();
    v.next_image();
    assert_eq!(v.current_filename(), Some("three.png"));
    v.next_image();
    assert_eq!(v.current_index(), 0);
    assert!(v.current_texture().unwrap().texture == tex(1));
}

#[test]
fn single_image_list_stays_put() {
    let mut v = ImageViewer::new(&["only.png"], vec![solid(1)], 0, 0, 1, 1);
    v.next_image();
    assert_eq!(v.current_index(), 0);
    let mut e = ImageViewer::new(&[], vec![], 0, 0, 1, 1);
    e.next_image();
    assert_eq!(e.current_filename(), None);
    assert!(e.current_texture().is_none());
    assert_eq!(e.image_count(), 0);
}

#[test]
fn show_by_index_and_filename() {
    let mut v = three();
    assert!(v.show_image_by_index(2));
    assert_eq!(v.current_index(), 2);
    assert!(!v.show_image_by_index(3));
    assert_eq!(v.current_index(), 2);
    assert!(v.show_image_by_filename("two.png"));
    assert_eq!(v.current_index(), 1);
    assert!(!v.show_image_by_filename("four.png"));
    assert_eq!(v.current_index(), 1);
    assert_eq!(v.position(), (10, 20));
    assert_eq!(v.size(), (300, 200));
}

#[test]
fn add_image_refuses_listed_path() {
    let mut v = three();
    assert!(!v.add_image("two.png", solid(8)));
    assert_eq!(v.image_count(), 3);
    assert!(v.add_image("four.png", solid(4)));
    assert_eq!(v.image_count(), 4);
    assert!(v.show_image_by_filename("four.png"));
    assert!(v.current_texture().unwrap().texture == tex(4));
}

#[test]
fn failed_image_stays_listed_without_texture() {
    let mut v = ImageViewer::new(&["a.png", "b.png"], vec![solid(1), Err(DecodeError::Unreadable)], 0, 0, 1, 1);
    assert_eq!(v.image_count(), 2);
    v.next_image();
    assert_eq!(v.current_filename(), Some("b.png"));
    assert!(v.current_texture().is_none());
}
