use resize::{enlarge_dimensions, shrink_dimensions};

#[test]
fn shrink_5000_3000() {
    let actual = shrink_dimensions(5000, 3000, 2000);
    let expected = Some((2000, 1200));
    assert_eq!(actual, expected);
}

#[test]
fn shrink_3000_5000() {
    let actual = shrink_dimensions(3000, 5000, 2000);
    let expected = Some((1200, 2000));
    assert_eq!(actual, expected);
}

#[test]
fn shrink_1200_1800() {
    assert!(shrink_dimensions(1200, 1800, 2000).is_none());
}

#[test]
fn enlarge_500_300() {
    let actual = enlarge_dimensions(500, 300, 1000);
    let expected = Some((1000, 600));
    assert_eq!(actual, expected);
}

#[test]
fn enlarge_300_500() {
    let actual = enlarge_dimensions(300, 500, 1000);
    let expected = Some((600, 1000));
    assert_eq!(actual, expected);
}

#[test]
fn enlarge_800_1200() {
    assert!(enlarge_dimensions(800, 1200, 1000).is_none());
}

#[test]
fn shrink_wide_scales_height_down() {
    assert_eq!(shrink_dimensions(4000, 1000, 1000), Some((1000, 250)));
    assert_eq!(shrink_dimensions(3001, 3000, 1000), Some((1000, 999)));
}

#[test]
fn shrink_rounds_as_double_precision() {
    assert_eq!(shrink_dimensions(196, 147, 128), Some((128, 95)));
    assert_eq!(shrink_dimensions(7, 5, 3), Some((3, 2)));
    assert_eq!(shrink_dimensions(49, 49, 1), Some((0, 1)));
    assert_eq!(shrink_dimensions(98, 49, 2), Some((2, 0)));
    assert_eq!(shrink_dimensions(49, 98, 2), Some((0, 2)));
}

#[test]
fn shrink_tie_uses_height() {
    assert_eq!(shrink_dimensions(3000, 3000, 1000), Some((1000, 1000)));
    assert_eq!(shrink_dimensions(2500, 2500, 1000), Some((1000, 1000)));
}

#[test]
fn shrink_fitting_is_noop() {
    assert_eq!(shrink_dimensions(2000, 2000, 2000), None);
    assert_eq!(shrink_dimensions(2000, 100, 2000), None);
    assert_eq!(shrink_dimensions(0, 0, 0), None);
}

#[test]
fn shrink_largest_sides() {
    assert_eq!(
        shrink_dimensions(u32::MAX, u32::MAX - 1, 1000),
        Some((1000, 999))
    );
    assert_eq!(shrink_dimensions(u32::MAX, u32::MAX, u32::MAX - 1), Some((u32::MAX - 1, u32::MAX - 1)));
}

#[test]
fn enlarge_tie_uses_height() {
    assert_eq!(enlarge_dimensions(400, 400, 1000), Some((1000, 1000)));
}

#[test]
fn enlarge_reaching_target_is_noop() {
    assert_eq!(enlarge_dimensions(1000, 1000, 1000), None);
    assert_eq!(enlarge_dimensions(1500, 1200, 1000), None);
}

#[test]
fn enlarge_wide_past_target_is_noop() {
    assert_eq!(enlarge_dimensions(3000, 500, 1000), None);
}

#[test]
fn enlarge_rounds_as_double_precision() {
    assert_eq!(enlarge_dimensions(3, 2, 10), Some((10, 6)));
    assert_eq!(enlarge_dimensions(2, 3, 10), Some((6, 10)));
    assert_eq!(enlarge_dimensions(98, 49, 128), Some((128, 63)));
    assert_eq!(enlarge_dimensions(49, 98, 128), Some((63, 128)));
}

#[test]
fn enlarge_zero_sides() {
    assert_eq!(enlarge_dimensions(0, 0, 5), Some((0, 5)));
    assert_eq!(enlarge_dimensions(0, 4, 8), Some((0, 8)));
    assert_eq!(enlarge_dimensions(4, 0, 8), Some((8, 0)));
    assert_eq!(enlarge_dimensions(0, 0, 0), None);
}

#[test]
fn long_side_becomes_target() {
    let cases = [(5000u32, 3000u32, 2000u32), (3000, 5000, 2000), (4096, 4095, 17), (9, 10, 3)];
    for (w, h, s) in cases {
        let (nw, nh) = shrink_dimensions(w, h, s).unwrap();
        if w > h {
            assert_eq!(nw, s);
        } else {
            assert_eq!(nh, s);
        }
    }
    let cases = [(500u32, 300u32, 1000u32), (300, 500, 1000), (17, 16, 4096), (1, 1, 2)];
    for (w, h, s) in cases {
        let (nw, nh) = enlarge_dimensions(w, h, s).unwrap();
        if w > h {
            assert_eq!(nw, s);
        } else {
            assert_eq!(nh, s);
        }
    }
}
