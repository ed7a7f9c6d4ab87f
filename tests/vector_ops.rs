use gerber2dxf::naming::aperture_id_as_string;
use gerber2dxf::vector::{Point, Vector};

#[test]
fn rotations_undo_each_other_and_keep_length() {
    for (x, y) in [(3, 4), (-7, 2), (0, -5), (123456789, -987654321)] {
        let v = Vector { x, y };
        let cw = v.get_rotate_cw();
        let ccw = v.get_rotate_ccw();
        assert_eq!(cw.get_rotate_ccw(), v);
        assert_eq!(ccw.get_rotate_cw(), v);
        assert_eq!(cw.x as i128 * cw.x as i128 + cw.y as i128 * cw.y as i128, x as i128 * x as i128 + y as i128 * y as i128);
        assert_eq!(cw.x * v.x + cw.y * v.y, 0);
    }
    assert_eq!(Vector { x: 3, y: 4 }.get_rotate_cw(), Vector { x: -4, y: 3 });
    assert_eq!(Vector { x: 3, y: 4 }.get_rotate_ccw(), Vector { x: 4, y: -3 });
}

#[test]
fn half_turn_test_ignores_scale() {
    let a = Vector { x: -1, y: 0 };
    let c = Vector { x: 0, y: -1 };
    assert!(a.turns_past_half(&c));
    assert!(Vector { x: -7, y: 0 }.turns_past_half(&Vector { x: 0, y: -300 }));
    assert!(!c.turns_past_half(&a));
    assert!(!Vector { x: 0, y: -300 }.turns_past_half(&Vector { x: -7, y: 0 }));
    assert!(!a.turns_past_half(&Vector { x: -5, y: 0 }));
}

#[test]
fn vector_between_points_and_translation() {
    let a = Point::new(1, 2);
    let b = Point::new(-4, 9);
    let v = Vector::from_points(&a, &b);
    assert_eq!(v, Vector { x: -5, y: 7 });
    assert_eq!(v.apply(&a), b);
    assert_eq!(v.get_reversed(), Vector { x: 5, y: -7 });
    let mut w = v;
    w.reverse();
    assert_eq!(w, Vector { x: 5, y: -7 });
}

#[test]
fn symbol_names() {
    assert_eq!(aperture_id_as_string(10), "aperture_id_10");
    assert_eq!(aperture_id_as_string(0), "aperture_id_0");
    assert_eq!(aperture_id_as_string(-3), "aperture_id_-3");
    assert_eq!(aperture_id_as_string(i32::MIN), "aperture_id_-2147483648");
    assert_eq!(aperture_id_as_string(i32::MAX), "aperture_id_2147483647");
}
