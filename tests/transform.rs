use image_manip::error::MagickError;
use image_manip::image::{Image, Pixel};
use image_manip::transform::{
    auto_orient, crop, resize_to, thumbnail_to, CropGeometry, Measure, Resampling,
};

const RED: Pixel = Pixel { r: 255, g: 0, b: 0, a: 255 };

fn numbered(w: u32, h: u32) -> Image {
    let mut px = Vec::new();
    for i in 0..(w * h) {
        px.push(Pixel { r: i as u8, g: 0, b: 0, a: 255 });
    }
    Image::new(w, h, px).unwrap()
}

#[test]
fn crop_in_pixels() {
    let mut img = numbered(4, 3);
    let g = CropGeometry {
        width: Measure::Pixels(2),
        height: Measure::Pixels(2),
        x: Measure::Pixels(1),
        y: Measure::Pixels(1),
    };
    assert_eq!(crop(&mut img, &g), Ok(()));
    assert_eq!((img.width, img.height), (2, 2));
    let reds: Vec<u8> = img.pixels.iter().map(|p| p.r).collect();
    assert_eq!(reds, vec![5, 6, 9, 10]);
}

#[test]
fn crop_is_clipped_to_the_image() {
    let mut img = numbered(4, 3);
    let g = CropGeometry {
        width: Measure::Pixels(10),
        height: Measure::Pixels(10),
        x: Measure::Pixels(3),
        y: Measure::Pixels(2),
    };
    assert_eq!(crop(&mut img, &g), Ok(()));
    assert_eq!((img.width, img.height), (1, 1));
    assert_eq!(img.pixels[0].r, 11);
}

#[test]
fn crop_in_percent() {
    let mut img = numbered(10, 4);
    let g = CropGeometry {
        width: Measure::Percent(50),
        height: Measure::Percent(50),
        x: Measure::Percent(50),
        y: Measure::Pixels(0),
    };
    assert_eq!(crop(&mut img, &g), Ok(()));
    assert_eq!((img.width, img.height), (5, 2));
    assert_eq!(img.pixels[0].r, 5);
    assert_eq!(img.pixels[5].r, 15);
}

#[test]
fn crop_missing_the_image_fails() {
    let mut img = numbered(4, 3);
    let g = CropGeometry {
        width: Measure::Pixels(2),
        height: Measure::Pixels(2),
        x: Measure::Pixels(4),
        y: Measure::Pixels(0),
    };
    assert_eq!(crop(&mut img, &g), Err(MagickError::InvalidGeometry));
    assert_eq!((img.width, img.height), (4, 3));
}

#[test]
fn resize_changes_dimensions() {
    let mut img = Image::filled(8, 6, RED).unwrap();
    assert_eq!(resize_to(&mut img, 4, 3, Resampling::Nearest), Ok(()));
    assert_eq!((img.width, img.height), (4, 3));
    assert_eq!(img.pixels.len(), 12);
    assert!(img.pixels.iter().all(|p| *p == RED));
}

#[test]
fn nearest_resampling_picks_source_pixels() {
    let mut img = numbered(4, 1);
    assert_eq!(resize_to(&mut img, 2, 1, Resampling::Nearest), Ok(()));
    assert_eq!(img.width, 2);
    assert_ne!(img.pixels[0].r, img.pixels[1].r);
}

#[test]
fn thumbnail_changes_dimensions() {
    let mut img = Image::filled(10, 10, RED).unwrap();
    assert_eq!(thumbnail_to(&mut img, 5, 2), Ok(()));
    assert_eq!((img.width, img.height), (5, 2));
    assert!(img.pixels.iter().all(|p| *p == RED));
}

#[test]
fn auto_orient_rotates_and_clears() {
    let mut img = numbered(2, 1);
    img.orientation = Some(6);
    auto_orient(&mut img);
    assert_eq!((img.width, img.height), (1, 2));
    assert_eq!(img.pixels[0].r, 0);
    assert_eq!(img.pixels[1].r, 1);
    assert_eq!(img.orientation, None);
}

#[test]
fn auto_orient_flips() {
    let mut img = numbered(3, 1);
    img.orientation = Some(2);
    auto_orient(&mut img);
    let reds: Vec<u8> = img.pixels.iter().map(|p| p.r).collect();
    assert_eq!(reds, vec![2, 1, 0]);
    assert_eq!(img.orientation, None);
}

#[test]
fn auto_orient_without_orientation_changes_nothing() {
    let mut img = numbered(3, 2);
    let before = img.pixels.clone();
    auto_orient(&mut img);
    assert_eq!(img.pixels, before);
    img.orientation = Some(1);
    auto_orient(&mut img);
    assert_eq!(img.pixels, before);
    assert_eq!(img.orientation, None);
}

#[test]
fn lanczos_resize_changes_dimensions() {
    let mut img = numbered(6, 4);
    assert_eq!(resize_to(&mut img, 3, 2, Resampling::Lanczos3), Ok(()));
    assert_eq!((img.width, img.height), (3, 2));
    assert_eq!(img.pixels.len(), 6);
}

#[test]
fn thumbnail_refuses_a_block_too_large_to_sum() {
    let mut img = Image::filled(6_000_000, 1, RED).unwrap();
    assert_eq!(thumbnail_to(&mut img, 1, 1), Err(MagickError::InvalidGeometry));
    assert_eq!((img.width, img.height), (6_000_000, 1));
    assert_eq!(thumbnail_to(&mut img, 1000, 1), Ok(()));
    assert_eq!((img.width, img.height), (1000, 1));
}

#[test]
fn auto_orient_follows_every_exif_code() {
    let mut img = numbered(3, 2);
    img.orientation = Some(1);
    auto_orient(&mut img);
    assert_eq!((img.width, img.height), (3, 2));
    let reds: Vec<u8> = img.pixels.iter().map(|p| p.r).collect();
    assert_eq!(reds, vec![0, 1, 2, 3, 4, 5]);
    let mut img = numbered(3, 2);
    img.orientation = Some(2);
    auto_orient(&mut img);
    assert_eq!((img.width, img.height), (3, 2));
    let reds: Vec<u8> = img.pixels.iter().map(|p| p.r).collect();
    assert_eq!(reds, vec![2, 1, 0, 5, 4, 3]);
    let mut img = numbered(3, 2);
    img.orientation = Some(3);
    auto_orient(&mut img);
    assert_eq!((img.width, img.height), (3, 2));
    let reds: Vec<u8> = img.pixels.iter().map(|p| p.r).collect();
    assert_eq!(reds, vec![5, 4, 3, 2, 1, 0]);
    let mut img = numbered(3, 2);
    img.orientation = Some(4);
    auto_orient(&mut img);
    assert_eq!((img.width, img.height), (3, 2));
    let reds: Vec<u8> = img.pixels.iter().map(|p| p.r).collect();
    assert_eq!(reds, vec![3, 4, 5, 0, 1, 2]);
    let mut img = numbered(3, 2);
    img.orientation = Some(5);
    auto_orient(&mut img);
    assert_eq!((img.width, img.height), (2, 3));
    let reds: Vec<u8> = img.pixels.iter().map(|p| p.r).collect();
    assert_eq!(reds, vec![0, 3, 1, 4, 2, 5]);
    let mut img = numbered(3, 2);
    img.orientation = Some(6);
    auto_orient(&mut img);
    assert_eq!((img.width, img.height), (2, 3));
    let reds: Vec<u8> = img.pixels.iter().map(|p| p.r).collect();
    assert_eq!(reds, vec![3, 0, 4, 1, 5, 2]);
    let mut img = numbered(3, 2);
    img.orientation = Some(7);
    auto_orient(&mut img);
    assert_eq!((img.width, img.height), (2, 3));
    let reds: Vec<u8> = img.pixels.iter().map(|p| p.r).collect();
    assert_eq!(reds, vec![5, 2, 4, 1, 3, 0]);
    let mut img = numbered(3, 2);
    img.orientation = Some(8);
    auto_orient(&mut img);
    assert_eq!((img.width, img.height), (2, 3));
    let reds: Vec<u8> = img.pixels.iter().map(|p| p.r).collect();
    assert_eq!(reds, vec![2, 5, 1, 4, 0, 3]);
}

#[test]
fn crop_and_orientation_keep_the_alpha_flag() {
    let mut img = numbered(4, 3);
    img.has_alpha = false;
    img.orientation = Some(6);
    auto_orient(&mut img);
    assert!(!img.has_alpha);
    let before = img.pixels.clone();
    auto_orient(&mut img);
    assert_eq!(img.pixels, before);
    assert!(!img.has_alpha);
    let g = CropGeometry {
        width: Measure::Pixels(1),
        height: Measure::Pixels(1),
        x: Measure::Pixels(0),
        y: Measure::Pixels(0),
    };
    assert_eq!(crop(&mut img, &g), Ok(()));
    assert!(!img.has_alpha);
}
