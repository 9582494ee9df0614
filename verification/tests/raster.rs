use image_editor::pixel::Pixel;
use image_editor::raster::Image;

fn sample(width: u32, height: u32) -> Image {
    let len = (width * height * 4) as usize;
    let data: Vec<u8> = (0..len).map(|i| ((i * 7 + 3) % 256) as u8).collect();
    Image::from_raw(width, height, data).unwrap()
}

#[test]
fn from_raw_takes_exactly_four_bytes_a_pixel() {
    assert!(Image::from_raw(2, 3, vec![0; 24]).is_some());
    assert!(Image::from_raw(2, 3, vec![0; 23]).is_none());
    assert!(Image::from_raw(2, 3, vec![0; 25]).is_none());
    assert!(Image::from_raw(2, 3, vec![0; 28]).is_none());
    assert!(Image::from_raw(2, 3, vec![]).is_none());
    assert!(Image::from_raw(3, 2, vec![0; 24]).is_some());
}

#[test]
fn from_raw_takes_images_without_pixels() {
    assert!(Image::from_raw(0, 0, vec![]).is_some());
    assert!(Image::from_raw(0, 5, vec![]).is_some());
    assert!(Image::from_raw(5, 0, vec![]).is_some());
    assert!(Image::from_raw(0, 5, vec![0; 4]).is_none());
    assert!(Image::from_raw(u32::MAX, u32::MAX, vec![0; 4]).is_none());
    assert!(Image::from_raw(u32::MAX, u32::MAX, vec![]).is_none());
    assert!(Image::from_raw(u32::MAX, 0, vec![]).is_some());
}

#[test]
fn sides_are_kept() {
    let img = sample(5, 3);
    assert_eq!(img.width(), 5);
    assert_eq!(img.height(), 3);
}

#[test]
fn get_pixel_reads_row_major_rgba() {
    let data: Vec<u8> = (0..24).collect();
    let img = Image::from_raw(3, 2, data).unwrap();
    assert_eq!(img.get_pixel(0, 0), Some(Pixel { r: 0, g: 1, b: 2, a: 3 }));
    assert_eq!(img.get_pixel(1, 0), Some(Pixel { r: 4, g: 5, b: 6, a: 7 }));
    assert_eq!(img.get_pixel(2, 0), Some(Pixel { r: 8, g: 9, b: 10, a: 11 }));
    assert_eq!(img.get_pixel(0, 1), Some(Pixel { r: 12, g: 13, b: 14, a: 15 }));
    assert_eq!(img.get_pixel(2, 1), Some(Pixel { r: 20, g: 21, b: 22, a: 23 }));
}

#[test]
fn get_pixel_outside_is_none() {
    let img = sample(3, 2);
    assert_eq!(img.get_pixel(3, 0), None);
    assert_eq!(img.get_pixel(0, 2), None);
    assert_eq!(img.get_pixel(3, 2), None);
    assert_eq!(img.get_pixel(u32::MAX, 0), None);
    assert_eq!(img.get_pixel(0, u32::MAX), None);
    let empty = Image::from_raw(0, 0, vec![]).unwrap();
    assert_eq!(empty.get_pixel(0, 0), None);
}

#[test]
fn raw_bytes_come_back_as_given() {
    let data: Vec<u8> = (0..48).map(|i| (i * 5) as u8).collect();
    let img = Image::from_raw(4, 3, data.clone()).unwrap();
    assert_eq!(img.as_raw(), &data);
    assert_eq!(img.into_raw(), data);
}

#[test]
fn clone_is_equal_and_apart() {
    let img = sample(4, 4);
    let copy = img.clone();
    assert_eq!(copy.width(), 4);
    assert_eq!(copy.height(), 4);
    assert_eq!(copy.as_raw(), img.as_raw());
}

#[test]
fn opaque_pixel_has_full_alpha() {
    assert_eq!(Pixel::rgb(10, 20, 30), Pixel { r: 10, g: 20, b: 30, a: 255 });
}

#[test]
fn has_pixels_needs_both_sides() {
    assert!(sample(3, 2).has_pixels());
    assert!(sample(1, 1).has_pixels());
    assert!(!Image::from_raw(0, 5, vec![]).unwrap().has_pixels());
    assert!(!Image::from_raw(5, 0, vec![]).unwrap().has_pixels());
    assert!(!Image::from_raw(0, 0, vec![]).unwrap().has_pixels());
}
