use image_filters::magnitude::magnitude;

#[test]
fn magnitude_of_a_pythagorean_triple() {
    assert_eq!(magnitude(3, 4), 5);
    assert_eq!(magnitude(-3, 4), 5);
    assert_eq!(magnitude(3, -4), 5);
    assert_eq!(magnitude(-4, -3), 5);
}

#[test]
fn magnitude_rounds_down() {
    assert_eq!(magnitude(136, -110), 174);
    assert_eq!(magnitude(1, 1), 1);
    assert_eq!(magnitude(2, 2), 2);
    assert_eq!(magnitude(7, 0), 7);
    assert_eq!(magnitude(0, 0), 0);
    assert_eq!(magnitude(1, 0), 1);
}

#[test]
fn magnitude_saturates_at_255() {
    assert_eq!(magnitude(254, 0), 254);
    assert_eq!(magnitude(255, 0), 255);
    assert_eq!(magnitude(0, -255), 255);
    assert_eq!(magnitude(256, 0), 255);
    assert_eq!(magnitude(180, 180), 254);
    assert_eq!(magnitude(181, 180), 255);
    assert_eq!(magnitude(254, 254), 255);
    assert_eq!(magnitude(85, 245), 255);
    assert_eq!(magnitude(i64::MAX, i64::MIN), 255);
    assert_eq!(magnitude(i64::MIN, 0), 255);
}

#[test]
fn magnitude_matches_the_square_root_on_small_gradients() {
    for x in -40i64..=40 {
        for y in -40i64..=40 {
            let n = x * x + y * y;
            let g = magnitude(x, y) as i64;
            assert!(g * g <= n && n < (g + 1) * (g + 1));
            assert_eq!(g, (n as f64).sqrt() as i64);
        }
    }
}
