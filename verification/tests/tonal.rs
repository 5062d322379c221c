use image_filters::image::Image;
use image_filters::pixel::Pixel;
use image_filters::tonal::{grayscale, invert};

fn sample() -> Image {
    Image::from_raw(
        vec![
            Pixel::rgb(0, 0, 1),
            Pixel::rgb(100, 150, 200),
            Pixel::rgb(255, 255, 255),
            Pixel::rgb(10, 20, 31),
            Pixel::rgb(7, 7, 7),
            Pixel::rgb(3, 200, 90),
        ],
        3,
        2,
    )
    .unwrap()
}

#[test]
fn grayscale_rewrites_every_pixel() {
    let mut image = sample();
    grayscale(&mut image);
    assert_eq!(image.pixels(), [
        Pixel::rgb(0, 0, 0),
        Pixel::rgb(150, 150, 150),
        Pixel::rgb(255, 255, 255),
        Pixel::rgb(20, 20, 20),
        Pixel::rgb(7, 7, 7),
        Pixel::rgb(97, 97, 97),
    ]);
    assert_eq!(image.width(), 3);
    assert_eq!(image.height(), 2);
}

#[test]
fn invert_rewrites_every_pixel() {
    let mut image = sample();
    invert(&mut image);
    assert_eq!(image.pixels(), [
        Pixel::rgb(255, 255, 254),
        Pixel::rgb(155, 105, 55),
        Pixel::rgb(0, 0, 0),
        Pixel::rgb(245, 235, 224),
        Pixel::rgb(248, 248, 248),
        Pixel::rgb(252, 55, 165),
    ]);
}

#[test]
fn invert_twice_gives_the_image_back() {
    let mut image = sample();
    invert(&mut image);
    invert(&mut image);
    assert_eq!(image.pixels(), sample().pixels());
}

#[test]
fn grayscale_twice_equals_grayscale_once() {
    let mut once = sample();
    grayscale(&mut once);
    let mut twice = once.snapshot();
    grayscale(&mut twice);
    assert_eq!(twice.pixels(), once.pixels());
}

#[test]
fn grayscale_then_invert_differs_from_invert_then_grayscale() {
    let mut gray_first = sample();
    grayscale(&mut gray_first);
    invert(&mut gray_first);

    let mut invert_first = sample();
    invert(&mut invert_first);
    grayscale(&mut invert_first);

    assert_ne!(gray_first.pixels(), invert_first.pixels());
    assert_eq!(gray_first.get(0), Pixel::rgb(255, 255, 255));
    assert_eq!(invert_first.get(0), Pixel::rgb(254, 254, 254));
    assert_eq!(gray_first.get(1), invert_first.get(1));
}

#[test]
fn grayscale_and_invert_commute_on_a_gray_image() {
    let mut gray = sample();
    grayscale(&mut gray);

    let mut gray_first = gray.snapshot();
    grayscale(&mut gray_first);
    invert(&mut gray_first);

    let mut invert_first = gray.snapshot();
    invert(&mut invert_first);
    grayscale(&mut invert_first);

    assert_eq!(gray_first.pixels(), invert_first.pixels());
}

#[test]
fn tonal_filters_leave_an_empty_image_empty() {
    let mut image = Image::from_raw(Vec::new(), 4, 0).unwrap();
    grayscale(&mut image);
    invert(&mut image);
    assert_eq!(image.len(), 0);
}
