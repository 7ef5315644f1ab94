use reconstruction::models::ImageSize;
use reconstruction::render::{gray_image, red_image, render_levels, Tint};

#[test]
fn gray_image_layout() {
    let levels: Vec<u8> = (0..900u32).map(|i| (i % 256) as u8).collect();
    let img = gray_image(&levels, ImageSize::Small);
    assert_eq!(img.image.dimensions(), (30, 30));
    for x in 0..30u32 {
        for y in 0..30u32 {
            let l = levels[(x * 30 + y) as usize];
            assert_eq!(img.image.get_pixel(x, y).0, [l, l, l]);
        }
    }
}

#[test]
fn red_image_transposes_layout() {
    let levels = vec![10u8, 20, 30, 40, 99];
    let img = red_image(&levels, 2);
    assert_eq!(img.image.dimensions(), (2, 2));
    assert_eq!(img.image.get_pixel(0, 0).0, [10, 0, 0]);
    assert_eq!(img.image.get_pixel(0, 1).0, [20, 0, 0]);
    assert_eq!(img.image.get_pixel(1, 0).0, [30, 0, 0]);
    assert_eq!(img.image.get_pixel(1, 1).0, [40, 0, 0]);
    assert_eq!(img.image.as_raw(), &vec![10, 0, 0, 30, 0, 0, 20, 0, 0, 40, 0, 0]);
}

#[test]
fn medium_image_size() {
    let levels = vec![7u8; 3600];
    let img = gray_image(&levels, ImageSize::Medium);
    assert_eq!(img.image.dimensions(), (60, 60));
    assert_eq!(img.image.get_pixel(59, 59).0, [7, 7, 7]);
}

#[test]
fn empty_image() {
    let img = render_levels(&vec![], 0, Tint::Gray);
    assert_eq!(img.image.dimensions(), (0, 0));
}
