use halfblock::pixels::{Image, Rgba};

#[test]
fn from_raw_takes_four_bytes_a_pixel() {
    assert!(Image::from_raw(2, 3, vec![0; 24]).is_some());
    assert!(Image::from_raw(1, 1, vec![1, 2, 3, 4]).is_some());
}

#[test]
fn from_raw_refuses_other_lengths() {
    assert!(Image::from_raw(2, 3, vec![0; 23]).is_none());
    assert!(Image::from_raw(2, 3, vec![0; 25]).is_none());
    assert!(Image::from_raw(2, 3, vec![0; 6]).is_none());
    assert!(Image::from_raw(1, 1, vec![]).is_none());
    assert!(Image::from_raw(u32::MAX, u32::MAX, vec![0; 4]).is_none());
}

#[test]
fn from_raw_takes_empty_pictures() {
    let flat = Image::from_raw(5, 0, vec![]).unwrap();
    assert_eq!((flat.width(), flat.height()), (5, 0));
    let thin = Image::from_raw(0, 5, vec![]).unwrap();
    assert_eq!((thin.width(), thin.height()), (0, 5));
    assert!(Image::from_raw(0, 5, vec![0; 4]).is_none());
}

#[test]
fn get_pixel_reads_row_by_row() {
    let data: Vec<u8> = (0..24).collect();
    let image = Image::from_raw(3, 2, data).unwrap();
    assert_eq!(image.width(), 3);
    assert_eq!(image.height(), 2);
    assert_eq!(image.get_pixel(0, 0), Rgba { r: 0, g: 1, b: 2, a: 3 });
    assert_eq!(image.get_pixel(2, 0), Rgba { r: 8, g: 9, b: 10, a: 11 });
    assert_eq!(image.get_pixel(0, 1), Rgba { r: 12, g: 13, b: 14, a: 15 });
    assert_eq!(image.get_pixel(2, 1), Rgba { r: 20, g: 21, b: 22, a: 23 });
}

#[test]
fn into_raw_gives_the_bytes_back() {
    let data: Vec<u8> = (0..16).collect();
    let image = Image::from_raw(2, 2, data.clone()).unwrap();
    assert_eq!(image.into_raw(), data);
}
