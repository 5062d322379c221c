use image_filters::image::Image;
use image_filters::mirror::{mirror_x, mirror_y};
use image_filters::pixel::Pixel;

fn numbered(width: u32, height: u32) -> Image {
    let mut pixels = Vec::new();
    for i in 0..(width * height) {
        let v = i as u8;
        pixels.push(Pixel::rgb(v, v + 50, v + 100));
    }
    Image::from_raw(pixels, width, height).unwrap()
}

fn reds(image: &Image) -> Vec<u8> {
    image.pixels().iter().map(|p| p.red).collect()
}

#[test]
fn mirror_x_copies_the_left_column_of_a_checkerboard() {
    let a = Pixel::rgb(100, 100, 100);
    let b = Pixel::rgb(0, 0, 0);
    let mut image = Image::from_raw(vec![a, b, a, b], 2, 2).unwrap();
    mirror_x(&mut image);
    assert_eq!(image.pixels(), [a, a, a, a]);
}

#[test]
fn mirror_x_on_an_even_width() {
    let mut image = numbered(4, 2);
    mirror_x(&mut image);
    assert_eq!(reds(&image), vec![0, 1, 1, 0, 4, 5, 5, 4]);
    assert_eq!(image.get(3), Pixel::rgb(0, 50, 100));
}

#[test]
fn mirror_x_on_an_odd_width_keeps_the_centre_column() {
    let mut image = numbered(5, 2);
    mirror_x(&mut image);
    assert_eq!(reds(&image), vec![0, 1, 2, 1, 0, 5, 6, 7, 6, 5]);
}

#[test]
fn mirror_x_on_a_single_column_changes_nothing() {
    let mut image = numbered(1, 3);
    mirror_x(&mut image);
    assert_eq!(reds(&image), vec![0, 1, 2]);
}

#[test]
fn mirror_y_on_an_even_height() {
    let mut image = numbered(2, 4);
    mirror_y(&mut image);
    assert_eq!(reds(&image), vec![0, 1, 2, 3, 2, 3, 0, 1]);
}

#[test]
fn mirror_y_on_an_odd_height_keeps_the_centre_row() {
    let mut image = numbered(2, 5);
    mirror_y(&mut image);
    assert_eq!(reds(&image), vec![0, 1, 2, 3, 4, 5, 2, 3, 0, 1]);
}

#[test]
fn mirror_y_on_a_single_row_changes_nothing() {
    let mut image = numbered(3, 1);
    mirror_y(&mut image);
    assert_eq!(reds(&image), vec![0, 1, 2]);
}

#[test]
fn mirror_x_twice_equals_mirror_x_once() {
    for (width, height) in [(1, 1), (2, 2), (3, 3), (4, 3), (5, 2), (6, 1), (7, 4)] {
        let mut once = numbered(width, height);
        mirror_x(&mut once);
        let mut twice = once.snapshot();
        mirror_x(&mut twice);
        assert_eq!(twice.pixels(), once.pixels());
    }
}

#[test]
fn mirror_y_twice_equals_mirror_y_once() {
    for (width, height) in [(1, 1), (2, 2), (3, 3), (3, 4), (2, 5), (1, 6), (4, 7)] {
        let mut once = numbered(width, height);
        mirror_y(&mut once);
        let mut twice = once.snapshot();
        mirror_y(&mut twice);
        assert_eq!(twice.pixels(), once.pixels());
    }
}

#[test]
fn mirrors_leave_an_empty_image_empty() {
    let mut image = Image::from_raw(Vec::new(), 0, 3).unwrap();
    mirror_x(&mut image);
    mirror_y(&mut image);
    assert_eq!(image.len(), 0);
    assert_eq!(image.width(), 0);
    assert_eq!(image.height(), 3);
}
