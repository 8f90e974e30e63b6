use worldmap::input::{
    App, Event, KeyCode, KeyEvent, KeyEventKind, MouseButton, MouseEvent, MouseEventKind,
};
use worldmap::viewport::{Viewport, UNITS_PER_DEGREE};

const U: i64 = UNITS_PER_DEGREE;

fn press(code: KeyCode) -> Event {
    Event::Key(KeyEvent { code, kind: KeyEventKind::Press })
}

fn mouse(kind: MouseEventKind, column: u16, row: u16) -> Event {
    Event::Mouse(MouseEvent { kind, column, row })
}

fn bounds(app: &App) -> (i64, i64, i64, i64) {
    let v = &app.viewport;
    (v.min_x, v.max_x, v.min_y, v.max_y)
}

#[test]
fn handle_key_event() {
    let mut app = App::default();
    app.handle_key_event(KeyEvent { code: KeyCode::Right, kind: KeyEventKind::Press });
    assert_eq!(app.viewport, Viewport::default());

    app.handle_key_event(KeyEvent { code: KeyCode::Left, kind: KeyEventKind::Press });
    assert_eq!(app.viewport, Viewport::default());

    let mut app = App::default();
    app.handle_key_event(KeyEvent { code: KeyCode::Char('q'), kind: KeyEventKind::Press });
    assert!(app.exit);
}

#[test]
fn keys_zoom_and_pan() {
    let mut app = App::new();
    app.handle_event(press(KeyCode::Up));
    assert_eq!(bounds(&app), (-178 * U, 178 * U, -89 * U, 89 * U));
    app.handle_event(press(KeyCode::Down));
    assert_eq!(app.viewport, Viewport::default());
    app.handle_event(press(KeyCode::Char('w')));
    assert_eq!(bounds(&app), (-180 * U, 180 * U, -89 * U, 91 * U));
    app.handle_event(press(KeyCode::Char('s')));
    app.handle_event(press(KeyCode::Char('a')));
    assert_eq!(bounds(&app), (-181 * U, 179 * U, -90 * U, 90 * U));
    app.handle_event(press(KeyCode::Char('d')));
    assert_eq!(app.viewport, Viewport::default());
    app.handle_event(press(KeyCode::Char('x')));
    app.handle_event(press(KeyCode::Other));
    app.handle_event(Event::Other);
    assert_eq!(app.viewport, Viewport::default());
    assert!(app.is_running());
}

#[test]
fn only_presses_act() {
    let mut app = App::new();
    app.handle_event(Event::Key(KeyEvent { code: KeyCode::Up, kind: KeyEventKind::Repeat }));
    app.handle_event(Event::Key(KeyEvent { code: KeyCode::Char('q'), kind: KeyEventKind::Release }));
    assert_eq!(app.viewport, Viewport::default());
    assert!(app.is_running());
}

#[test]
fn quit_stops_the_loop() {
    let mut app = App::new();
    let mut frames = 0;
    let events = [press(KeyCode::Up), press(KeyCode::Char('q')), press(KeyCode::Down)];
    let mut next = 0;
    while app.is_running() {
        frames += 1;
        app.handle_event(events[next]);
        next += 1;
    }
    assert_eq!(frames, 2);
    assert_eq!(next, 2);
    assert!(app.exit);
    app.handle_event(press(KeyCode::Down));
    assert!(!app.is_running());
}

#[test]
fn drag_sequence_and_release() {
    let mut app = App::new();
    app.handle_event(mouse(MouseEventKind::Down(MouseButton::Left), 50, 20));
    assert_eq!(app.last_mouse_drag_position, Some((50, 20)));
    assert_eq!(app.viewport, Viewport::default());
    app.handle_event(mouse(MouseEventKind::Drag(MouseButton::Left), 55, 25));
    assert_eq!(bounds(&app), (-181 * U, 179 * U, -89 * U, 91 * U));
    assert_eq!(app.last_mouse_drag_position, Some((55, 25)));

    app.handle_event(mouse(MouseEventKind::Up(MouseButton::Left), 55, 25));
    assert_eq!(app.last_mouse_drag_position, None);
    let after_release = app.viewport;
    app.handle_event(mouse(MouseEventKind::Drag(MouseButton::Left), 70, 40));
    assert_eq!(app.viewport, after_release);
    assert_eq!(app.last_mouse_drag_position, Some((70, 40)));
    app.handle_event(mouse(MouseEventKind::Drag(MouseButton::Left), 69, 40));
    assert_eq!(app.viewport.min_x, after_release.min_x + U / 5);
}

#[test]
fn first_drag_records_without_moving() {
    let mut app = App::new();
    app.handle_event(mouse(MouseEventKind::Drag(MouseButton::Left), 0, u16::MAX));
    assert_eq!(app.viewport, Viewport::default());
    app.handle_event(mouse(MouseEventKind::Drag(MouseButton::Left), u16::MAX, 0));
    let d = 65535 * (U / 5);
    assert_eq!(bounds(&app), (-180 * U - d, 180 * U - d, -90 * U - d, 90 * U - d));
}

#[test]
fn wheel_zooms_and_other_mouse_events_do_nothing() {
    let mut app = App::new();
    app.handle_event(mouse(MouseEventKind::ScrollUp, 1, 1));
    assert_eq!(bounds(&app), (-178 * U, 178 * U, -89 * U, 89 * U));
    app.handle_event(mouse(MouseEventKind::ScrollDown, 1, 1));
    assert_eq!(app.viewport, Viewport::default());
    app.handle_event(mouse(MouseEventKind::Moved, 3, 3));
    app.handle_event(mouse(MouseEventKind::Down(MouseButton::Right), 3, 3));
    app.handle_event(mouse(MouseEventKind::Drag(MouseButton::Right), 9, 9));
    app.handle_event(mouse(MouseEventKind::ScrollLeft, 3, 3));
    assert_eq!(app.viewport, Viewport::default());
    assert_eq!(app.last_mouse_drag_position, None);
}
