use image::{DynamicImage, GenericImageView};
use webp_converter::converter::limit_width;

#[test]
fn wide_images_are_shrunk_to_max_width() {
    let img = DynamicImage::new_rgb8(4000, 3000);
    let out = limit_width(img, 1920);
    assert_eq!(out.dimensions(), (1920, 1440));
}

#[test]
fn narrow_images_are_left_alone() {
    let img = DynamicImage::new_rgb8(100, 50);
    let out = limit_width(img, 1920);
    assert_eq!(out.dimensions(), (100, 50));
    let img = DynamicImage::new_rgb8(1920, 7);
    assert_eq!(limit_width(img, 1920).dimensions(), (1920, 7));
}

#[test]
fn resized_images_fit_the_bounds() {
    for (w, h, max) in [(4000u32, 0u32, 1920u32), (4000, 1, 1920), (10, 3, 0), (3001, 1000, 1000), (5, 7, 4)] {
        let out = limit_width(DynamicImage::new_rgb8(w, h), max);
        let (nw, nh) = out.dimensions();
        assert!(nw <= max.max(1), "{}x{} -> {}x{}", w, h, nw, nh);
        assert!(nh <= h.max(1), "{}x{} -> {}x{}", w, h, nw, nh);
    }
}
