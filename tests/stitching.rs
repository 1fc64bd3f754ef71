use panorama_stitcher::{Frame, PanoramaStitcher, StitchError};

const RED: [u8; 4] = [255, 0, 0, 255];
const GREEN: [u8; 4] = [0, 255, 0, 255];
const BLUE: [u8; 4] = [0, 0, 255, 255];
const YELLOW: [u8; 4] = [255, 255, 0, 255];
const CLEAR: [u8; 4] = [0, 0, 0, 0];

fn decode(bytes: &[u8]) -> image::RgbaImage {
    image::load_from_memory(bytes).expect("a decodable image").to_rgba8()
}

fn px(img: &image::RgbaImage, x: u32, y: u32) -> [u8; 4] {
    img.get_pixel(x, y).0
}

fn solid(c: [u8; 4], w: u32, h: u32) -> Vec<u8> {
    let mut v = Vec::new();
    for _ in 0..(w * h) {
        v.extend_from_slice(&c);
    }
    v
}

#[test]
fn new_store_is_empty() {
    let mut s = PanoramaStitcher::new();
    assert_eq!(s.frame_count(), 0);
    assert_eq!(s.stitch(), Ok(Vec::new()));
}

#[test]
fn count_follows_adds_since_clear() {
    let mut s = PanoramaStitcher::new();
    for n in 1..=5usize {
        s.add_frame(&solid(RED, 1, 1), 1, 1);
        assert_eq!(s.frame_count(), n);
    }
    s.clear();
    assert_eq!(s.frame_count(), 0);
    s.add_frame(&solid(RED, 1, 1), 1, 1);
    s.add_frame(&solid(RED, 1, 1), 1, 1);
    assert_eq!(s.frame_count(), 2);
}

#[test]
fn empty_after_clear_gives_no_bytes() {
    let mut s = PanoramaStitcher::new();
    s.add_frame(&solid(GREEN, 3, 2), 3, 2);
    s.clear();
    assert_eq!(s.stitch(), Ok(Vec::new()));
}

#[test]
fn clear_resets_reference_dimensions() {
    let mut s = PanoramaStitcher::new();
    s.add_frame(&solid(GREEN, 1, 1), 1, 1);
    s.clear();
    s.add_frame(&solid(RED, 2, 1), 2, 1);
    s.add_frame(&solid(BLUE, 2, 1), 2, 1);
    let img = decode(&s.stitch().unwrap());
    assert_eq!(img.dimensions(), (4, 1));
    assert_eq!(px(&img, 0, 0), RED);
    assert_eq!(px(&img, 1, 0), RED);
    assert_eq!(px(&img, 2, 0), BLUE);
    assert_eq!(px(&img, 3, 0), BLUE);
}

#[test]
fn single_frame_quadrants_pass_through() {
    let mut s = PanoramaStitcher::new();
    let data = [255, 0, 0, 255, 0, 255, 0, 255, 0, 0, 255, 255, 255, 255, 0, 255];
    s.add_frame(&data, 2, 2);
    let bytes = s.stitch().unwrap();
    assert_eq!(&bytes[..8], &[0x89, b'P', b'N', b'G', 0x0d, 0x0a, 0x1a, 0x0a]);
    assert_ne!(bytes, data.to_vec());
    let img = decode(&bytes);
    assert_eq!(img.dimensions(), (2, 2));
    assert_eq!(px(&img, 0, 0), RED);
    assert_eq!(px(&img, 1, 0), GREEN);
    assert_eq!(px(&img, 0, 1), BLUE);
    assert_eq!(px(&img, 1, 1), YELLOW);
}

#[test]
fn two_unit_frames_abut() {
    let mut s = PanoramaStitcher::new();
    s.add_frame(&RED, 1, 1);
    s.add_frame(&BLUE, 1, 1);
    let img = decode(&s.stitch().unwrap());
    assert_eq!(img.dimensions(), (2, 1));
    assert_eq!(px(&img, 0, 0), RED);
    assert_eq!(px(&img, 1, 0), BLUE);
}

#[test]
fn partial_pixel_group_is_dropped() {
    let mut s = PanoramaStitcher::new();
    s.add_frame(&[10, 20, 30, 40, 50, 60], 1, 1);
    assert_eq!(s.frame_count(), 1);
    let img = decode(&s.stitch().unwrap());
    assert_eq!(img.dimensions(), (1, 1));
    assert_eq!(px(&img, 0, 0), [10, 20, 30, 40]);
}

#[test]
fn frame_from_short_and_long_buffers() {
    let short = Frame::from_rgba(&[1, 2, 3, 4, 5, 6, 7], 2, 1);
    assert_eq!(short.pixels, vec![1, 2, 3, 4, 0, 0, 0, 0]);
    let long = Frame::from_rgba(&[1, 2, 3, 4, 5, 6, 7, 8, 9, 10, 11, 12], 1, 1);
    assert_eq!(long.pixels, vec![1, 2, 3, 4]);
    let none = Frame::from_rgba(&[1, 2, 3, 4], 0, 3);
    assert!(none.pixels.is_empty());
}

#[test]
fn pair_of_equal_frames_side_by_side() {
    let mut s = PanoramaStitcher::new();
    let a = [RED, GREEN, BLUE, YELLOW].concat();
    let b = [YELLOW, BLUE, GREEN, RED].concat();
    s.add_frame(&a, 2, 2);
    s.add_frame(&b, 2, 2);
    let img = decode(&s.stitch().unwrap());
    assert_eq!(img.dimensions(), (4, 2));
    assert_eq!(px(&img, 0, 0), RED);
    assert_eq!(px(&img, 1, 0), GREEN);
    assert_eq!(px(&img, 0, 1), BLUE);
    assert_eq!(px(&img, 1, 1), YELLOW);
    assert_eq!(px(&img, 2, 0), YELLOW);
    assert_eq!(px(&img, 3, 0), BLUE);
    assert_eq!(px(&img, 2, 1), GREEN);
    assert_eq!(px(&img, 3, 1), RED);
}

#[test]
fn composed_canvas_bytes() {
    let mut s = PanoramaStitcher::new();
    s.add_frame(&RED, 1, 1);
    s.add_frame(&BLUE, 1, 1);
    s.add_frame(&GREEN, 1, 1);
    let canvas = s.simple_horizontal_stitch();
    assert_eq!((canvas.width, canvas.height), (3, 1));
    assert_eq!(canvas.pixels, [RED, BLUE, GREEN].concat());
}

#[test]
fn mismatched_frames_use_reference_slots() {
    let mut s = PanoramaStitcher::new();
    s.add_frame(&solid(RED, 2, 2), 2, 2);
    s.add_frame(&GREEN, 1, 1);
    s.add_frame(&solid(BLUE, 3, 3), 3, 3);
    let img = decode(&s.stitch().unwrap());
    assert_eq!(img.dimensions(), (6, 2));
    for y in 0..2 {
        assert_eq!(px(&img, 0, y), RED);
        assert_eq!(px(&img, 1, y), RED);
        assert_eq!(px(&img, 4, y), BLUE);
        assert_eq!(px(&img, 5, y), BLUE);
    }
    assert_eq!(px(&img, 2, 0), GREEN);
    assert_eq!(px(&img, 3, 0), CLEAR);
    assert_eq!(px(&img, 2, 1), CLEAR);
    assert_eq!(px(&img, 3, 1), CLEAR);
}

#[test]
fn missing_pixels_are_transparent() {
    let mut s = PanoramaStitcher::new();
    s.add_frame(&RED, 2, 2);
    let img = decode(&s.stitch().unwrap());
    assert_eq!(px(&img, 0, 0), RED);
    assert_eq!(px(&img, 1, 0), CLEAR);
    assert_eq!(px(&img, 0, 1), CLEAR);
    assert_eq!(px(&img, 1, 1), CLEAR);
}

#[test]
fn stitch_is_repeatable_and_keeps_store() {
    let mut s = PanoramaStitcher::new();
    s.add_frame(&solid(RED, 2, 1), 2, 1);
    s.add_frame(&solid(GREEN, 2, 1), 2, 1);
    let first = s.stitch().unwrap();
    assert_eq!(s.frame_count(), 2);
    let second = s.stitch().unwrap();
    assert_eq!(first, second);
    assert_eq!(s.frame_count(), 2);
}

#[test]
fn zero_sized_frame_fails_to_encode() {
    let mut s = PanoramaStitcher::new();
    s.add_frame(&RED, 0, 1);
    assert_eq!(s.frame_count(), 1);
    assert_eq!(s.stitch(), Err(StitchError::Encode));
}

#[test]
fn reference_dimensions_come_from_first_frame() {
    let mut s = PanoramaStitcher::new();
    assert_eq!((s.reference_width(), s.reference_height()), (0, 0));
    s.add_frame(&solid(RED, 3, 2), 3, 2);
    s.add_frame(&solid(RED, 5, 5), 5, 5);
    assert_eq!((s.reference_width(), s.reference_height()), (3, 2));
    s.clear();
    assert_eq!((s.reference_width(), s.reference_height()), (0, 0));
}
