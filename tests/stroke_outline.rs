use gerber2dxf::dispatch::{
    add_interpolation, check_flush, check_selection, convert, get_aperture, lookup_aperture, Aperture, Command,
    ConvertError, Converter,
};
use gerber2dxf::stroke::{add_circle_interpolation, end_cap, interpolation_arc, Primitive};
use gerber2dxf::vector::{Point, Vector};

fn pt(x: i64, y: i64) -> Point {
    Point::new(x, y)
}

fn v(x: i64, y: i64) -> Vector {
    Vector { x, y }
}

/// Where an offset edge's end lands once its offset is scaled to the pen radius.
fn displaced(p: Point, offset: Vector, diameter: u64) -> (f64, f64) {
    let len = ((offset.x as f64).powi(2) + (offset.y as f64).powi(2)).sqrt();
    let r = diameter as f64 / 2.0;
    (p.x as f64 + offset.x as f64 * r / len, p.y as f64 + offset.y as f64 * r / len)
}

fn stroke(points: &[Point], diameter: u64) -> Vec<Primitive> {
    let mut out = Vec::new();
    add_circle_interpolation(&mut out, &points.to_vec(), diameter);
    out
}

#[test]
fn straight_segment_gives_two_edges_and_two_caps() {
    let out = stroke(&[pt(0, 0), pt(10, 0)], 2);
    assert_eq!(out.len(), 4);
    assert_eq!(out[0], Primitive::Line { from: pt(0, 0), to: pt(10, 0), offset: v(0, 10), diameter: 2 });
    assert_eq!(out[1], Primitive::Line { from: pt(0, 0), to: pt(10, 0), offset: v(0, -10), diameter: 2 });
    assert_eq!(out[2], Primitive::Arc { center: pt(0, 0), start: v(0, 10), end: v(0, -10), diameter: 2 });
    assert_eq!(out[3], Primitive::Arc { center: pt(10, 0), start: v(0, -10), end: v(0, 10), diameter: 2 });
    if let Primitive::Line { from, to, offset, diameter } = out[0] {
        assert_eq!(displaced(from, offset, diameter), (0.0, 1.0));
        assert_eq!(displaced(to, offset, diameter), (10.0, 1.0));
    }
    if let Primitive::Line { from, to, offset, diameter } = out[1] {
        assert_eq!(displaced(from, offset, diameter), (0.0, -1.0));
        assert_eq!(displaced(to, offset, diameter), (10.0, -1.0));
    }
}

#[test]
fn left_turn_gives_one_corner_arc_at_the_joint() {
    let out = stroke(&[pt(0, 0), pt(10, 0), pt(10, 10)], 2);
    assert_eq!(out.len(), 7);
    let lines = out.iter().filter(|p| matches!(p, Primitive::Line { .. })).count();
    assert_eq!(lines, 4);
    assert_eq!(out[2], Primitive::Arc { center: pt(10, 0), start: v(0, -10), end: v(10, 0), diameter: 2 });
    assert_eq!(out[5], Primitive::Arc { center: pt(0, 0), start: v(0, 10), end: v(0, -10), diameter: 2 });
    assert_eq!(out[6], Primitive::Arc { center: pt(10, 10), start: v(10, 0), end: v(-10, 0), diameter: 2 });
}

#[test]
fn right_turn_takes_the_other_outer_side() {
    let arc = interpolation_arc(&pt(0, 0), &pt(10, 0), &pt(10, -10), 2);
    assert_eq!(arc, Primitive::Arc { center: pt(10, 0), start: v(10, 0), end: v(0, 10), diameter: 2 });
}

#[test]
fn outline_counts_for_longer_paths() {
    let path = [pt(0, 0), pt(5, 0), pt(5, 5), pt(9, 7), pt(2, 3)];
    let n = path.len();
    let out = stroke(&path, 4);
    assert_eq!(out.len(), 3 * n - 2);
    let lines = out.iter().filter(|p| matches!(p, Primitive::Line { .. })).count();
    assert_eq!(lines, 2 * (n - 1));
    let corners = out
        .iter()
        .filter(|p| match p {
            Primitive::Arc { center, .. } => path[1..n - 1].contains(center),
            _ => false,
        })
        .count();
    assert_eq!(corners, n - 2);
    assert_eq!(out[3 * n - 4], end_cap(&path[0], &path[1], 4));
    assert_eq!(out[3 * n - 3], end_cap(&path[n - 1], &path[n - 2], 4));
}

#[test]
fn reversed_path_gives_the_same_outline() {
    let path = vec![pt(0, 0), pt(10, 0), pt(10, 10), pt(-3, 4)];
    let mut back = path.clone();
    back.reverse();
    let fwd = stroke(&path, 2);
    let rev = stroke(&back, 2);
    let canon = |p: &Primitive| match p {
        Primitive::Line { from, to, offset, diameter } => {
            let (a, b) = if (from.x, from.y) <= (to.x, to.y) { (*from, *to) } else { (*to, *from) };
            format!("L {:?} {:?} {:?} {}", a, b, offset, diameter)
        }
        other => format!("{:?}", other),
    };
    let mut f: Vec<String> = fwd.iter().map(canon).collect();
    let mut r: Vec<String> = rev.iter().map(canon).collect();
    f.sort();
    r.sort();
    assert_eq!(f, r);
}

#[test]
fn flush_of_one_point_places_the_aperture() {
    let apertures = vec![(10, Aperture::Circle { diameter: 2 })];
    let mut drawing = Vec::new();
    let mut path = vec![pt(3, 4)];
    assert_eq!(check_flush(&apertures, &path, Some(10)), Ok(()));
    add_interpolation(&mut drawing, &apertures, &mut path, Some(10));
    assert_eq!(drawing, vec![Primitive::Placement { aperture: 10, location: pt(3, 4) }]);
    assert!(path.is_empty());
}

#[test]
fn flush_of_empty_path_draws_nothing() {
    let apertures = vec![(10, Aperture::Circle { diameter: 2 })];
    let mut drawing = Vec::new();
    let mut path = Vec::new();
    add_interpolation(&mut drawing, &apertures, &mut path, Some(10));
    assert!(drawing.is_empty());
}

#[test]
fn flush_of_empty_path_in_region_mode_gives_empty_polyline() {
    let apertures = vec![(10, Aperture::Circle { diameter: 2 })];
    let mut drawing = Vec::new();
    let mut path = Vec::new();
    add_interpolation(&mut drawing, &apertures, &mut path, None);
    assert_eq!(drawing, vec![Primitive::Polyline { points: vec![] }]);
}

#[test]
fn flush_rejects_rectangle_strokes_and_repeated_points() {
    let apertures = vec![(11, Aperture::Rectangle { width: 2, height: 3 }), (12, Aperture::Circle { diameter: 2 })];
    let path = vec![pt(0, 0), pt(1, 1)];
    assert_eq!(check_flush(&apertures, &path, Some(11)), Err(ConvertError::UnsupportedAperture(11)));
    assert_eq!(check_flush(&apertures, &path, Some(12)), Ok(()));
    assert_eq!(check_flush(&apertures, &path, Some(13)), Err(ConvertError::UnknownAperture(13)));
    assert_eq!(check_flush(&apertures, &path, None), Ok(()));
    let repeated = vec![pt(0, 0), pt(1, 1), pt(1, 1)];
    assert_eq!(check_flush(&apertures, &repeated, Some(12)), Err(ConvertError::DegenerateSegment));
    let cmds = vec![
        Command::SelectAperture(11),
        Command::Move(Some(pt(0, 0))),
        Command::Interpolate(Some(pt(1, 1))),
        Command::ModeChange,
    ];
    assert_eq!(convert(&apertures, &cmds), Err(ConvertError::UnsupportedAperture(11)));
    let cmds = vec![
        Command::SelectAperture(12),
        Command::Move(Some(pt(0, 0))),
        Command::Interpolate(Some(pt(0, 0))),
        Command::ModeChange,
    ];
    assert_eq!(convert(&apertures, &cmds), Err(ConvertError::DegenerateSegment));
}

#[test]
fn selection_checks_and_lookup() {
    let apertures = vec![(11, Aperture::Rectangle { width: 2, height: 3 }), (12, Aperture::Circle { diameter: 2 })];
    assert_eq!(check_selection(&apertures, None), Err(ConvertError::NoApertureSelected));
    assert_eq!(check_selection(&apertures, Some(5)), Err(ConvertError::UnknownAperture(5)));
    assert_eq!(check_selection(&apertures, Some(12)), Ok(()));
    assert_eq!(lookup_aperture(&apertures, 11), Some(Aperture::Rectangle { width: 2, height: 3 }));
    assert_eq!(lookup_aperture(&apertures, 5), None);
    assert_eq!(get_aperture(&apertures, Some(12)), Aperture::Circle { diameter: 2 });
}

#[test]
fn flash_with_undefined_aperture_fails() {
    let cmds = vec![Command::SelectAperture(5), Command::Flash(Some(pt(1, 1)))];
    assert_eq!(convert(&vec![(10, Aperture::Circle { diameter: 2 })], &cmds), Err(ConvertError::UnknownAperture(5)));
}

#[test]
fn flash_before_selection_fails() {
    let cmds = vec![Command::Flash(Some(pt(1, 1)))];
    assert_eq!(convert(&vec![(10, Aperture::Circle { diameter: 2 })], &cmds), Err(ConvertError::NoApertureSelected));
}

#[test]
fn flash_without_coordinates_fails() {
    let cmds = vec![Command::SelectAperture(10), Command::Flash(None)];
    assert_eq!(convert(&vec![(10, Aperture::Circle { diameter: 2 })], &cmds), Err(ConvertError::BadFlashCoordinates));
}

#[test]
fn region_points_become_one_polyline() {
    let apertures = vec![(10, Aperture::Circle { diameter: 2 })];
    let mut conv = Converter::new();
    for c in [
        Command::Interpolate(Some(pt(0, 0))),
        Command::Interpolate(Some(pt(5, 0))),
        Command::Interpolate(None),
        Command::Interpolate(Some(pt(5, 5))),
    ] {
        assert_eq!(conv.step(&apertures, c), Ok(()));
    }
    assert!(conv.drawing.is_empty());
    assert_eq!(conv.step(&apertures, Command::ModeChange), Ok(()));
    assert_eq!(conv.drawing, vec![Primitive::Polyline { points: vec![pt(0, 0), pt(5, 0), pt(5, 5)] }]);
    assert!(conv.current_path.is_empty());
}

#[test]
fn region_begin_clears_the_selection() {
    let apertures = vec![(10, Aperture::Circle { diameter: 2 })];
    let cmds = vec![
        Command::SelectAperture(10),
        Command::RegionBegin,
        Command::Move(Some(pt(1, 1))),
        Command::Interpolate(Some(pt(2, 1))),
        Command::RegionEnd,
    ];
    let out = convert(&apertures, &cmds).unwrap();
    assert_eq!(
        out,
        vec![
            Primitive::Polyline { points: vec![] },
            Primitive::Polyline { points: vec![] },
            Primitive::Polyline { points: vec![pt(1, 1), pt(2, 1)] },
        ]
    );
}

#[test]
fn strokes_flashes_and_moves_in_command_order() {
    let apertures = vec![(10, Aperture::Circle { diameter: 2 }), (11, Aperture::Rectangle { width: 1, height: 1 })];
    let cmds = vec![
        Command::SelectAperture(10),
        Command::Move(Some(pt(0, 0))),
        Command::Interpolate(Some(pt(10, 0))),
        Command::SelectAperture(11),
        Command::Flash(Some(pt(20, 20))),
        Command::Move(Some(pt(30, 30))),
        Command::RegionEnd,
    ];
    let out = convert(&apertures, &cmds).unwrap();
    let mut expected = vec![Primitive::Polyline { points: vec![] }];
    expected.extend(stroke(&[pt(0, 0), pt(10, 0)], 2));
    expected.push(Primitive::Placement { aperture: 11, location: pt(20, 20) });
    expected.push(Primitive::Placement { aperture: 11, location: pt(30, 30) });
    assert_eq!(out, expected);
}
