use image_filters::edge::{edge, edge_detection};
use image_filters::filter::{FilterType, ImageFilterExt};
use image_filters::image::Image;
use image_filters::pixel::Pixel;
use image_filters::sobel::response;
use image_filters::sobel::{SOBEL_3X3_X, SOBEL_3X3_Y, SOBEL_5X5_X, SOBEL_5X5_Y, SOBEL_7X7_X, SOBEL_7X7_Y};

fn gray_image(values: &[u8], width: u32, height: u32) -> Image {
    let pixels = values.iter().map(|&v| Pixel::rgb(v, v, v)).collect();
    Image::from_raw(pixels, width, height).unwrap()
}

fn squares(side: u32, modulus: u32) -> Image {
    let values: Vec<u8> = (0..side * side).map(|i| ((i * i) % modulus) as u8).collect();
    gray_image(&values, side, side)
}

fn coloured(width: u32, height: u32) -> Image {
    let mut pixels = Vec::new();
    for i in 0..(width * height) {
        let v = (i * 7 % 256) as u8;
        pixels.push(Pixel::rgb(v, 255 - v, (v / 2) + 3));
    }
    Image::from_raw(pixels, width, height).unwrap()
}

const SAMPLE: [u8; 9] = [119, 80, 122, 177, 154, 212, 89, 25, 152];

#[test]
fn edge_detection_sets_the_centre_and_keeps_the_border() {
    let mut image = gray_image(&SAMPLE, 3, 3);
    edge_detection(&mut image);
    assert_eq!(image.get(4), Pixel::rgb(174, 174, 174));
    for i in [0, 1, 2, 3, 5, 6, 7, 8] {
        let v = SAMPLE[i];
        assert_eq!(image.get(i), Pixel::rgb(v, v, v));
    }
}

#[test]
fn responses_of_the_size_three_kernels() {
    let image = gray_image(&SAMPLE, 3, 3);
    assert_eq!(response(&image, &SOBEL_3X3_X, 4), 136);
    assert_eq!(response(&image, &SOBEL_3X3_Y, 4), -110);
}

#[test]
fn responses_of_the_size_five_kernels() {
    let image = squares(5, 7);
    assert_eq!(response(&image, &SOBEL_5X5_X, 12), -26);
    assert_eq!(response(&image, &SOBEL_5X5_Y, 12), 52);
}

#[test]
fn responses_of_the_size_seven_kernels() {
    let image = squares(7, 5);
    assert_eq!(response(&image, &SOBEL_7X7_X, 24), -2);
    assert_eq!(response(&image, &SOBEL_7X7_Y, 24), -14);
}

#[test]
fn edge_with_size_code_two_uses_the_kernels_of_size_five() {
    let mut image = squares(5, 7);
    edge(&mut image, 2);
    let before = squares(5, 7);
    for i in 0..25 {
        if i == 12 {
            assert_eq!(image.get(i), Pixel::rgb(58, 58, 58));
        } else {
            assert_eq!(image.get(i), before.get(i));
        }
    }
}

#[test]
fn edge_with_size_code_three_uses_the_kernels_of_size_seven() {
    let mut image = squares(7, 5);
    edge(&mut image, 3);
    let before = squares(7, 5);
    for i in 0..49 {
        if i == 24 {
            assert_eq!(image.get(i), Pixel::rgb(14, 14, 14));
        } else {
            assert_eq!(image.get(i), before.get(i));
        }
    }
}

#[test]
fn edge_with_an_unknown_size_code_changes_nothing() {
    for code in [0u8, 4, 5, 17, 255] {
        let mut image = coloured(6, 5);
        edge(&mut image, code);
        assert_eq!(image.pixels(), coloured(6, 5).pixels());

        let mut image = coloured(6, 5);
        image.filter(FilterType::SobelFilter(code));
        assert_eq!(image.pixels(), coloured(6, 5).pixels());
    }
}

#[test]
fn edge_detection_agrees_with_size_code_one() {
    for (width, height) in [(1, 1), (3, 3), (4, 3), (6, 5), (9, 7)] {
        let mut fixed = coloured(width, height);
        edge_detection(&mut fixed);
        let mut parametric = coloured(width, height);
        edge(&mut parametric, 1);
        assert_eq!(fixed.pixels(), parametric.pixels());
    }
}

#[test]
fn edge_detection_reads_the_red_channel_held_on_entry() {
    let mut pixels = Vec::new();
    for &red in SAMPLE.iter() {
        pixels.push(Pixel::rgb(red, 30, 60));
    }
    let mut image = Image::from_raw(pixels, 3, 3).unwrap();
    edge_detection(&mut image);
    assert_eq!(image.get(4), Pixel::rgb(174, 174, 174));
    assert_eq!(image.get(0), Pixel::rgb(69, 69, 69));
    assert_eq!(image.get(8), Pixel::rgb(80, 80, 80));
}

#[test]
fn edge_detection_on_a_vertical_step() {
    let values = [0, 0, 10, 10, 0, 0, 10, 10, 0, 0, 10, 10];
    let mut image = gray_image(&values, 4, 3);
    edge_detection(&mut image);
    assert_eq!(image.get(5), Pixel::rgb(40, 40, 40));
    assert_eq!(image.get(6), Pixel::rgb(40, 40, 40));
    assert_eq!(image.get(4), Pixel::rgb(0, 0, 0));
    assert_eq!(image.get(7), Pixel::rgb(10, 10, 10));
}

#[test]
fn edge_detection_saturates_strong_gradients() {
    let values = [10, 20, 30, 40, 50, 60, 70, 80, 95];
    let mut image = gray_image(&values, 3, 3);
    edge_detection(&mut image);
    assert_eq!(image.get(4), Pixel::rgb(255, 255, 255));
}

#[test]
fn edge_on_an_image_smaller_than_the_kernel_only_turns_it_gray() {
    for code in [1u8, 2, 3] {
        let mut image = coloured(2, 2);
        edge(&mut image, code);
        let before = coloured(2, 2);
        for i in 0..4 {
            let p = before.get(i);
            let level = ((p.red as u16 + p.green as u16 + p.blue as u16) / 3) as u8;
            assert_eq!(image.get(i), Pixel::rgb(level, level, level));
        }
    }
    let mut image = coloured(6, 6);
    edge(&mut image, 3);
    let before = coloured(6, 6);
    for i in 0..36 {
        let p = before.get(i);
        let level = ((p.red as u16 + p.green as u16 + p.blue as u16) / 3) as u8;
        assert_eq!(image.get(i), Pixel::rgb(level, level, level));
    }
}

#[test]
fn edge_filters_leave_an_empty_image_empty() {
    let mut image = Image::from_raw(Vec::new(), 0, 0).unwrap();
    edge_detection(&mut image);
    edge(&mut image, 1);
    edge(&mut image, 3);
    assert_eq!(image.len(), 0);
}

#[test]
fn filter_dispatches_every_variant() {
    let mut image = coloured(4, 4);
    image.filter(FilterType::Invert);
    image.filter(FilterType::Invert);
    assert_eq!(image.pixels(), coloured(4, 4).pixels());

    let mut by_filter = coloured(4, 4);
    by_filter.filter(FilterType::EdgeDetection);
    let mut direct = coloured(4, 4);
    edge_detection(&mut direct);
    assert_eq!(by_filter.pixels(), direct.pixels());

    let mut by_filter = coloured(4, 4);
    by_filter.filter(FilterType::MirrorY);
    assert_eq!(by_filter.get(12), coloured(4, 4).get(0));
    assert_eq!(by_filter.get(9), coloured(4, 4).get(5));
}

#[test]
fn gradient_filter_with_kernels_of_size_one_reaches_every_pixel() {
    let mut image = coloured(3, 2);
    image_filters::edge::gradient_filter::<1>(&mut image, &[[1]], &[[0]]);
    let before = coloured(3, 2);
    for i in 0..6 {
        let red = before.get(i).red;
        assert_eq!(image.get(i), Pixel::rgb(red, red, red));
    }

    let mut image = coloured(3, 2);
    image_filters::edge::gradient_filter::<1>(&mut image, &[[3]], &[[-4]]);
    assert_eq!(image.get(0), Pixel::rgb(0, 0, 0));
    assert_eq!(image.get(1), Pixel::rgb(35, 35, 35));
    assert_eq!(image.get(5), Pixel::rgb(175, 175, 175));
}
