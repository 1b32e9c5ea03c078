use drawing_board::brush::{INFINITY_BITS, UNIT_WIDTH_BITS};
use drawing_board::line::{
    canonical_coordinate, check_line, coordinate_is_nan, key_of_line, line_from_key, same_line,
};
use drawing_board::{Brush, BrushType, Color, LinePos, TabType, BRUSH_TYPE_COUNT};

#[test]
fn brush_kinds_are_counted_in_order() {
    assert_eq!(BRUSH_TYPE_COUNT, 5);
    assert_eq!(BrushType::NoBrush.index(), 0);
    assert_eq!(BrushType::Graffiti.index(), 1);
    assert_eq!(BrushType::Pencil.index(), 2);
    assert_eq!(BrushType::Marker.index(), 3);
    assert_eq!(BrushType::Eraser.index(), 4);
    for i in 0..BRUSH_TYPE_COUNT {
        assert_eq!(BrushType::from_index(i).unwrap().index(), i);
    }
    assert_eq!(BrushType::from_index(5), None);
    assert_eq!(BrushType::from_index(usize::MAX), None);
}

#[test]
fn brush_kinds_have_names() {
    assert_eq!(BrushType::NoBrush.name(), "None");
    assert_eq!(BrushType::Graffiti.name(), "Graffiti");
    assert_eq!(BrushType::Pencil.name(), "Pencil");
    assert_eq!(BrushType::Marker.name(), "Marker");
    assert_eq!(BrushType::Eraser.name(), "Eraser");
}

#[test]
fn default_brush_kind_is_marker() {
    assert_eq!(BrushType::default(), BrushType::Marker);
}

#[test]
fn only_the_canvas_tab_stays_open() {
    assert!(!TabType::Canvas.closeable());
    assert!(TabType::BrushSettings.closeable());
    assert_eq!(TabType::Canvas.name(), "Canvas");
    assert_eq!(TabType::BrushSettings.name(), "BrushSettings");
}

#[test]
fn width_constants_are_the_bits_of_the_numbers() {
    assert_eq!(INFINITY_BITS, f32::INFINITY.to_bits());
    assert_eq!(UNIT_WIDTH_BITS, 1.0f32.to_bits());
    assert_eq!(Color::transparent(), Color { r: 0, g: 0, b: 0, a: 0 });
}

#[test]
fn brush_is_valid_with_positive_width() {
    let with = |width: f32| Brush {
        width: width.to_bits(),
        color: Color::transparent(),
        kind: BrushType::Marker,
    };
    assert!(with(1.0).check());
    assert!(with(f32::MIN_POSITIVE).check());
    assert!(with(f32::from_bits(1)).check());
    assert!(with(f32::MAX).check());
    assert!(with(f32::INFINITY).check());
    assert!(!with(0.0).check());
    assert!(!with(-0.0).check());
    assert!(!with(-3.0).check());
    assert!(!with(f32::NAN).check());
    assert!(!with(f32::from_bits(0x7f80_0001)).check());
}

#[test]
fn nan_is_told_from_numbers() {
    for value in [0.0f32, -0.0, 1.5, -1.5, f32::MAX, f32::MIN, f32::INFINITY, f32::NEG_INFINITY] {
        assert!(!coordinate_is_nan(value.to_bits()));
        assert!(!value.is_nan());
    }
    for bits in [0x7f80_0001u32, 0x7fc0_0000, 0x7fff_ffff, 0xff80_0001, 0xffc0_0000, 0xffff_ffff] {
        assert!(coordinate_is_nan(bits));
        assert!(f32::from_bits(bits).is_nan());
    }
}

#[test]
fn only_negative_zero_is_respelled() {
    assert_eq!(canonical_coordinate((-0.0f32).to_bits()), 0);
    assert_eq!(canonical_coordinate(0), 0);
    for value in [1.0f32, -1.0, f32::MIN_POSITIVE, -f32::MIN_POSITIVE, f32::NEG_INFINITY] {
        assert_eq!(canonical_coordinate(value.to_bits()), value.to_bits());
    }
}

#[test]
fn points_are_compared_as_numbers() {
    let plus = LinePos { x: 0.0f32.to_bits(), y: 2.0f32.to_bits() };
    let minus = LinePos { x: (-0.0f32).to_bits(), y: 2.0f32.to_bits() };
    let other = LinePos { x: 0.0f32.to_bits(), y: 2.5f32.to_bits() };
    assert!(plus.same_position(&minus));
    assert!(!plus.same_position(&other));
    assert_ne!(plus, minus);
    assert_eq!(plus.to_key(), minus.to_key());
    assert_eq!(LinePos::from_key(minus.to_key()), plus);
    assert!(plus.check());
    assert!(!LinePos { x: 0, y: f32::NAN.to_bits() }.check());
}

#[test]
fn lines_are_compared_point_by_point() {
    let a = vec![
        LinePos { x: 1.0f32.to_bits(), y: (-0.0f32).to_bits() },
        LinePos { x: 3.0f32.to_bits(), y: 4.0f32.to_bits() },
    ];
    let b = vec![
        LinePos { x: 1.0f32.to_bits(), y: 0.0f32.to_bits() },
        LinePos { x: 3.0f32.to_bits(), y: 4.0f32.to_bits() },
    ];
    let shorter = vec![LinePos { x: 1.0f32.to_bits(), y: 0.0f32.to_bits() }];
    assert!(same_line(&a, &b));
    assert!(!same_line(&a, &shorter));
    assert!(same_line(&vec![], &vec![]));
    assert_eq!(key_of_line(&a), key_of_line(&b));
    assert_eq!(key_of_line(&a), vec![(0x3f80_0000, 0), (0x4040_0000, 0x4080_0000)]);
    assert_eq!(line_from_key(&key_of_line(&a)), b);
    assert!(check_line(&a));
    assert!(!check_line(&vec![]));
    assert!(!check_line(&vec![a[0], LinePos { x: 0x7fc0_0000, y: 0 }]));
}
