use channel_masks::pixel::Color;
use channel_masks::raster::{fits, Raster};

fn color(r: u8, g: u8, b: u8, a: u8) -> Color {
    Color { r, g, b, a }
}

#[test]
fn new_raster_has_the_size_asked_for() {
    let raster = Raster::new(3, 2).unwrap();
    assert_eq!(raster.width(), 3);
    assert_eq!(raster.height(), 2);
}

#[test]
fn new_raster_is_transparent_everywhere() {
    let raster = Raster::new(3, 2).unwrap();
    for y in 0..2 {
        for x in 0..3 {
            assert_eq!(raster.get_pixel(x, y), Some(color(0, 0, 0, 0)));
        }
    }
}

#[test]
fn new_raster_may_be_empty() {
    let raster = Raster::new(0, 7).unwrap();
    assert_eq!(raster.width(), 0);
    assert_eq!(raster.height(), 7);
    assert_eq!(raster.get_pixel(0, 0), None);
    assert_eq!(raster.to_bytes(), Vec::<u8>::new());
}

#[test]
fn new_raster_refuses_what_cannot_be_allocated() {
    assert!(Raster::new(u32::MAX, u32::MAX).is_none());
    assert!(!fits(u32::MAX, u32::MAX));
    assert!(fits(0, u32::MAX));
    assert!(fits(1024, 768));
}

#[test]
fn fits_wants_the_row_bytes_in_a_usize_and_all_bytes_in_a_vector() {
    let sizes = [
        (1u32, 1u32),
        (65_536, 65_536),
        (0x3fff_ffff, 0),
        (0x4000_0000, 0),
        (u32::MAX, 0),
        (u32::MAX, 1),
        (u32::MAX, 2),
        (0, u32::MAX),
        (u32::MAX, u32::MAX),
    ];
    for (w, h) in sizes {
        let row = 4 * (w as u128);
        let all = row * (h as u128);
        let expected = row <= usize::MAX as u128 && all <= isize::MAX as u128;
        assert_eq!(fits(w, h), expected);
        assert_eq!(Raster::new(w, 0).is_some(), row <= usize::MAX as u128);
    }
}

#[test]
fn a_row_of_a_quarter_of_the_address_space_is_the_widest() {
    let widest = (usize::MAX as u128 / 4).min(u32::MAX as u128) as u32;
    assert!(fits(widest, 0));
    let empty = Raster::new(widest, 0).unwrap();
    assert_eq!((empty.width(), empty.height()), (widest, 0));
    if widest < u32::MAX {
        assert!(!fits(widest + 1, 0));
        assert!(Raster::new(widest + 1, 0).is_none());
    }
}

#[test]
fn put_pixel_changes_one_place_only() {
    let mut raster = Raster::new(3, 2).unwrap();
    assert!(raster.put_pixel(2, 1, color(1, 2, 3, 4)));
    assert!(raster.put_pixel(0, 0, color(9, 8, 7, 6)));
    for y in 0..2 {
        for x in 0..3 {
            let expected = if (x, y) == (2, 1) {
                color(1, 2, 3, 4)
            } else if (x, y) == (0, 0) {
                color(9, 8, 7, 6)
            } else {
                color(0, 0, 0, 0)
            };
            assert_eq!(raster.get_pixel(x, y), Some(expected));
        }
    }
    assert_eq!(raster.width(), 3);
    assert_eq!(raster.height(), 2);
}

#[test]
fn put_pixel_outside_changes_nothing() {
    let mut raster = Raster::new(3, 2).unwrap();
    assert!(!raster.put_pixel(3, 0, color(1, 2, 3, 4)));
    assert!(!raster.put_pixel(0, 2, color(1, 2, 3, 4)));
    assert_eq!(raster.to_bytes(), vec![0u8; 24]);
}

#[test]
fn get_pixel_outside_is_none() {
    let raster = Raster::new(3, 2).unwrap();
    assert_eq!(raster.get_pixel(3, 0), None);
    assert_eq!(raster.get_pixel(0, 2), None);
    assert_eq!(raster.get_pixel(u32::MAX, u32::MAX), None);
}

#[test]
fn from_bytes_reads_rows_from_the_top() {
    let bytes: Vec<u8> = (0..24).collect();
    let raster = Raster::from_bytes(3, 2, &bytes).unwrap();
    assert_eq!(raster.width(), 3);
    assert_eq!(raster.height(), 2);
    assert_eq!(raster.get_pixel(0, 0), Some(color(0, 1, 2, 3)));
    assert_eq!(raster.get_pixel(1, 0), Some(color(4, 5, 6, 7)));
    assert_eq!(raster.get_pixel(2, 0), Some(color(8, 9, 10, 11)));
    assert_eq!(raster.get_pixel(0, 1), Some(color(12, 13, 14, 15)));
    assert_eq!(raster.get_pixel(2, 1), Some(color(20, 21, 22, 23)));
}

#[test]
fn from_bytes_wants_four_bytes_a_pixel() {
    assert!(Raster::from_bytes(3, 2, &[0u8; 23]).is_none());
    assert!(Raster::from_bytes(3, 2, &[0u8; 25]).is_none());
    assert!(Raster::from_bytes(3, 2, &[]).is_none());
    assert!(Raster::from_bytes(0, 0, &[]).is_some());
    assert!(Raster::from_bytes(u32::MAX, u32::MAX, &[]).is_none());
}

#[test]
fn to_bytes_gives_back_what_from_bytes_took() {
    let bytes: Vec<u8> = (0..60).map(|i| (i * 7 % 256) as u8).collect();
    let raster = Raster::from_bytes(5, 3, &bytes).unwrap();
    assert_eq!(raster.to_bytes(), bytes);
}

#[test]
fn to_bytes_follows_put_pixel() {
    let mut raster = Raster::new(2, 2).unwrap();
    raster.put_pixel(1, 0, color(1, 2, 3, 4));
    raster.put_pixel(0, 1, color(5, 6, 7, 8));
    assert_eq!(raster.to_bytes(), vec![0, 0, 0, 0, 1, 2, 3, 4, 5, 6, 7, 8, 0, 0, 0, 0]);
}

#[test]
fn raster_agrees_with_the_image_crate_on_layout() {
    let mut buffer = image::RgbaImage::new(4, 3);
    for y in 0..3u32 {
        for x in 0..4u32 {
            let v = (y * 4 + x) as u8;
            buffer.put_pixel(x, y, image::Rgba([v, v + 50, v + 100, v + 150]));
        }
    }
    let raster = Raster::from_bytes(buffer.width(), buffer.height(), buffer.as_raw()).unwrap();
    for y in 0..3u32 {
        for x in 0..4u32 {
            let p = buffer.get_pixel(x, y).0;
            assert_eq!(raster.get_pixel(x, y), Some(color(p[0], p[1], p[2], p[3])));
        }
    }
    let back = image::RgbaImage::from_raw(raster.width(), raster.height(), raster.to_bytes()).unwrap();
    assert_eq!(back, buffer);
}
