use worldmap::viewport::{Direction, Viewport, UNITS_PER_DEGREE};

const U: i64 = UNITS_PER_DEGREE;

fn bounds(v: &Viewport) -> (i64, i64, i64, i64) {
    (v.min_x, v.max_x, v.min_y, v.max_y)
}

#[test]
fn default_spans_the_plane() {
    let v = Viewport::default();
    assert_eq!(bounds(&v), (-180 * U, 180 * U, -90 * U, 90 * U));
    assert_eq!(v, Viewport::new());
}

#[test]
fn zoom_in_once_from_default() {
    let mut v = Viewport::default();
    v.zoom(1);
    assert_eq!(bounds(&v), (-178 * U, 178 * U, -89 * U, 89 * U));
    assert_eq!(v.max_x - v.min_x, 356 * U);
    assert_eq!(v.max_y - v.min_y, 178 * U);
}

#[test]
fn zoom_out_once_from_default() {
    let mut v = Viewport::default();
    v.zoom(-1);
    assert_eq!(bounds(&v), (-182 * U, 182 * U, -91 * U, 91 * U));
}

#[test]
fn zoom_then_unzoom_restores() {
    for n in [-7, -1, 0, 1, 3, 44] {
        let mut v = Viewport::default();
        v.pan(Direction::Left);
        let before = v;
        v.zoom(n);
        v.zoom(-n);
        assert_eq!(v, before);
    }
}

#[test]
fn zoom_that_would_invert_is_refused() {
    let mut v = Viewport::default();
    // 89 steps leave one degree above and below the centre; one more would close it
    v.zoom(89);
    assert_eq!(bounds(&v), (-2 * U, 2 * U, -U, U));
    v.zoom(1);
    assert_eq!(bounds(&v), (-2 * U, 2 * U, -U, U));
    let mut w = Viewport::default();
    w.zoom(1000);
    assert_eq!(w, Viewport::default());
    w.zoom(i32::MIN);
    assert!(w.min_x < w.max_x && w.min_y < w.max_y);
}

#[test]
fn pan_left_once_from_default() {
    let mut v = Viewport::default();
    v.pan(Direction::Left);
    assert_eq!(bounds(&v), (-181 * U, 179 * U, -90 * U, 90 * U));
}

#[test]
fn pan_each_direction() {
    let cases = [
        (Direction::Up, (-180 * U, 180 * U, -89 * U, 91 * U)),
        (Direction::Down, (-180 * U, 180 * U, -91 * U, 89 * U)),
        (Direction::Left, (-181 * U, 179 * U, -90 * U, 90 * U)),
        (Direction::Right, (-179 * U, 181 * U, -90 * U, 90 * U)),
    ];
    for (dir, expected) in cases {
        let mut v = Viewport::default();
        v.zoom(3);
        let (w, h) = (v.max_x - v.min_x, v.max_y - v.min_y);
        let mut d = Viewport::default();
        d.pan(dir);
        assert_eq!(bounds(&d), expected);
        v.pan(dir);
        assert_eq!((v.max_x - v.min_x, v.max_y - v.min_y), (w, h));
    }
}

#[test]
fn translate_past_i64_leaves_viewport() {
    let mut v = Viewport { min_x: i64::MAX - 10, max_x: i64::MAX, min_y: 0, max_y: 1 };
    let before = v;
    v.translate(11, 0);
    assert_eq!(v, before);
    v.translate(10, 5);
    assert_eq!(bounds(&v), (i64::MAX - 10, i64::MAX, 0, 1));
    v.translate(-10, 5);
    assert_eq!(bounds(&v), (i64::MAX - 20, i64::MAX - 10, 5, 6));
}

#[test]
fn drag_moves_against_columns_and_with_rows() {
    let mut v = Viewport::default();
    v.drag(5, 5);
    assert_eq!(bounds(&v), (-181 * U, 179 * U, -89 * U, 91 * U));
    let mut w = Viewport::default();
    w.drag(-1, 0);
    assert_eq!(bounds(&w), (-180 * U + U / 5, 180 * U + U / 5, -90 * U, 90 * U));
}

#[test]
fn boundary_points_are_shown() {
    let v = Viewport::default();
    assert!(v.contains(180 * U, 90 * U));
    assert!(v.contains(-180 * U, -90 * U));
    assert!(v.contains(180 * U, -90 * U));
    assert!(v.contains(0, 0));
    assert!(!v.contains(180 * U + 1, 0));
    assert!(!v.contains(0, -90 * U - 1));
    let flat = Viewport { min_x: 0, max_x: 0, min_y: -1, max_y: 1 };
    assert!(!flat.contains(0, 0));
}
