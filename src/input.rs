use vstd::prelude::*;

use crate::viewport::{Direction, Viewport};

verus! {

/// The identity of a key.
#[derive(Clone, Copy, Debug, PartialEq, Eq, Structural)]
pub enum KeyCode {
    Char(char),
    Up,
    Down,
    Left,
    Right,
    Other,
}

/// Whether a key went down, repeats, or went up.
#[derive(Clone, Copy, Debug, PartialEq, Eq, Structural)]
pub enum KeyEventKind {
    Press,
    Repeat,
    Release,
}

/// A key event.
#[derive(Clone, Copy, Debug, PartialEq, Eq, Structural)]
pub struct KeyEvent {
    pub code: KeyCode,
    pub kind: KeyEventKind,
}

/// A mouse button.
#[derive(Clone, Copy, Debug, PartialEq, Eq, Structural)]
pub enum MouseButton {
    Left,
    Right,
    Middle,
}

/// What the mouse did.
#[derive(Clone, Copy, Debug, PartialEq, Eq, Structural)]
pub enum MouseEventKind {
    Down(MouseButton),
    Up(MouseButton),
    Drag(MouseButton),
    Moved,
    ScrollDown,
    ScrollUp,
    ScrollLeft,
    ScrollRight,
}

/// A mouse event, with the screen cell of the pointer.
#[derive(Clone, Copy, Debug, PartialEq, Eq, Structural)]
pub struct MouseEvent {
    pub kind: MouseEventKind,
    pub column: u16,
    pub row: u16,
}

/// One input event.
#[derive(Clone, Copy, Debug, PartialEq, Eq, Structural)]
pub enum Event {
    Key(KeyEvent),
    Mouse(MouseEvent),
    Other,
}

/// What a key does.
pub enum Action {
    Quit,
    ZoomIn,
    ZoomOut,
    Pan(Direction),
    Nothing,
}

/// The action bound to a key: `q` quits, Up and Down zoom in and out, and
/// `w`, `a`, `s`, `d` pan up, left, down and right.
pub open spec fn key_action(code: KeyCode) -> Action {
    match code {
        KeyCode::Char(c) => if c == 'q' {
            Action::Quit
        } else if c == 'w' {
            Action::Pan(Direction::Up)
        } else if c == 'a' {
            Action::Pan(Direction::Left)
        } else if c == 's' {
            Action::Pan(Direction::Down)
        } else if c == 'd' {
            Action::Pan(Direction::Right)
        } else {
            Action::Nothing
        },
        KeyCode::Up => Action::ZoomIn,
        KeyCode::Down => Action::ZoomOut,
        _ => Action::Nothing,
    }
}

/// The state of the viewer: the viewport, whether it is to exit, and the
/// pointer cell last seen during a left-button drag.
pub struct App {
    pub exit: bool,
    pub viewport: Viewport,
    pub last_mouse_drag_position: Option<(u16, u16)>,
}

impl App {
    /// The state after a key's action.
    pub open spec fn after_key(self, code: KeyCode) -> App {
        match key_action(code) {
            Action::Quit => App { exit: true, ..self },
            Action::ZoomIn => App { viewport: self.viewport.zoomed(1), ..self },
            Action::ZoomOut => App { viewport: self.viewport.zoomed(-1), ..self },
            Action::Pan(d) => App { viewport: self.viewport.panned(d), ..self },
            Action::Nothing => self,
        }
    }

    /// The state after a mouse event. A left-button press or drag records
    /// the pointer cell; a drag that follows a recorded cell first moves the
    /// viewport by the difference; a button release forgets the cell; the
    /// wheel zooms.
    pub open spec fn after_mouse(self, m: MouseEvent) -> App {
        match m.kind {
            MouseEventKind::Down(MouseButton::Left) => App {
                last_mouse_drag_position: Some((m.column, m.row)),
                ..self
            },
            MouseEventKind::Drag(MouseButton::Left) => {
                let viewport = match self.last_mouse_drag_position {
                    Some((column, row)) => self.viewport.dragged(
                        m.column - column,
                        m.row - row,
                    ),
                    None => self.viewport,
                };
                App { viewport, last_mouse_drag_position: Some((m.column, m.row)), ..self }
            },
            MouseEventKind::Up(_) => App { last_mouse_drag_position: None, ..self },
            MouseEventKind::ScrollUp => App { viewport: self.viewport.zoomed(1), ..self },
            MouseEventKind::ScrollDown => App { viewport: self.viewport.zoomed(-1), ..self },
            _ => self,
        }
    }

    /// The state after any event: only key presses act among key events.
    pub open spec fn after_event(self, e: Event) -> App {
        match e {
            Event::Key(k) => if k.kind == KeyEventKind::Press {
                self.after_key(k.code)
            } else {
                self
            },
            Event::Mouse(m) => self.after_mouse(m),
            Event::Other => self,
        }
    }

    /// The viewer at start: the full plane, no drag, running.
    pub open spec fn initial() -> App {
        App { exit: false, viewport: Viewport::spec_default(), last_mouse_drag_position: None }
    }

    /// The viewer at start.
    pub fn new() -> (r: App)
        ensures
            r == App::initial(),
    {
        App { exit: false, viewport: Viewport::new(), last_mouse_drag_position: None }
    }

    /// Whether another frame is to be drawn.
    pub fn is_running(&self) -> (r: bool)
        ensures
            r == !self.exit,
    {
        !self.exit
    }

    /// Handles one input event.
    pub fn handle_event(&mut self, e: Event)
        ensures
            *final(self) == old(self).after_event(e),
    {
        match e {
            Event::Key(k) => {
                if k.kind == KeyEventKind::Press {
                    self.handle_key_event(k);
                }
            },
            Event::Mouse(m) => self.handle_mouse_event(m),
            Event::Other => {},
        }
    }

    /// Carries out the action bound to a key.
    pub fn handle_key_event(&mut self, key_event: KeyEvent)
        ensures
            *final(self) == old(self).after_key(key_event.code),
    {
        match key_event.code {
            KeyCode::Char('q') => self.exit(),
            KeyCode::Up => self.increment_zoom(),
            KeyCode::Down => self.decrement_zoom(),
            KeyCode::Char('w') => self.pan_up(),
            KeyCode::Char('a') => self.pan_left(),
            KeyCode::Char('s') => self.pan_down(),
            KeyCode::Char('d') => self.pan_right(),
            _ => {},
        }
    }

    /// Tracks a mouse drag, a button release and the wheel.
    pub fn handle_mouse_event(&mut self, mouse_event: MouseEvent)
        ensures
            *final(self) == old(self).after_mouse(mouse_event),
    {
        match mouse_event.kind {
            MouseEventKind::Down(MouseButton::Left) => {
                self.last_mouse_drag_position = Some((mouse_event.column, mouse_event.row));
            },
            MouseEventKind::Drag(MouseButton::Left) => {
                if let Some((column, row)) = self.last_mouse_drag_position {
                    let horizontal: i32 = mouse_event.column as i32 - column as i32;
                    let vertical: i32 = mouse_event.row as i32 - row as i32;
                    self.viewport.drag(horizontal, vertical);
                }
                self.last_mouse_drag_position = Some((mouse_event.column, mouse_event.row));
            },
            MouseEventKind::Up(_) => {
                self.last_mouse_drag_position = None;
            },
            MouseEventKind::ScrollUp => self.increment_zoom(),
            MouseEventKind::ScrollDown => self.decrement_zoom(),
            _ => {},
        }
    }

    /// Marks the viewer to exit.
    pub fn exit(&mut self)
        ensures
            *final(self) == (App { exit: true, ..*old(self) }),
    {
        self.exit = true;
    }

    /// Zooms in one step.
    pub fn increment_zoom(&mut self)
        ensures
            *final(self) == (App { viewport: old(self).viewport.zoomed(1), ..*old(self) }),
    {
        self.viewport.zoom(1);
    }

    /// Zooms out one step.
    pub fn decrement_zoom(&mut self)
        ensures
            *final(self) == (App { viewport: old(self).viewport.zoomed(-1), ..*old(self) }),
    {
        self.viewport.zoom(-1);
    }

    /// Pans one step up.
    pub fn pan_up(&mut self)
        ensures
            *final(self) == (App { viewport: old(self).viewport.panned(Direction::Up), ..*old(self) }),
    {
        self.viewport.pan(Direction::Up);
    }

    /// Pans one step left.
    pub fn pan_left(&mut self)
        ensures
            *final(self) == (App { viewport: old(self).viewport.panned(Direction::Left), ..*old(self) }),
    {
        self.viewport.pan(Direction::Left);
    }

    /// Pans one step down.
    pub fn pan_down(&mut self)
        ensures
            *final(self) == (App { viewport: old(self).viewport.panned(Direction::Down), ..*old(self) }),
    {
        self.viewport.pan(Direction::Down);
    }

    /// Pans one step right.
    pub fn pan_right(&mut self)
        ensures
            *final(self) == (App { viewport: old(self).viewport.panned(Direction::Right), ..*old(self) }),
    {
        self.viewport.pan(Direction::Right);
    }
}

impl Default for App {
    fn default() -> (r: App)
        ensures
            r == App::initial(),
    {
        App::new()
    }
}

/// The quit key stops the viewer: after its press no further frame is drawn.
pub proof fn lemma_quit_stops(app: App)
    ensures
        app.after_event(Event::Key(KeyEvent { code: KeyCode::Char('q'), kind: KeyEventKind::Press })).exit,
{
}

/// Once the viewer is to exit, no event brings it back.
pub proof fn lemma_exit_is_final(app: App, e: Event)
    requires
        app.exit,
    ensures
        app.after_event(e).exit,
{
}

/// A button release forgets the drag, so the next drag event moves nothing
/// and only records the new cell.
pub proof fn lemma_release_ends_drag(app: App, b: MouseButton, up: MouseEvent, m: MouseEvent)
    requires
        up.kind == MouseEventKind::Up(b),
        m.kind == MouseEventKind::Drag(MouseButton::Left),
    ensures
        app.after_mouse(up).after_mouse(m).viewport == app.viewport,
        app.after_mouse(up).after_mouse(m).last_mouse_drag_position == Some((m.column, m.row)),
{
}

} // verus!
