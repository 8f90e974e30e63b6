use vstd::prelude::*;

verus! {

/// Fixed-point units in one degree of longitude or latitude.
pub const UNITS_PER_DEGREE: i64 = 10_000_000;

/// How far each horizontal side moves per step of zoom: two degrees.
pub const ZOOM_STEP_SIZE: i64 = 2 * UNITS_PER_DEGREE;

/// How far each vertical side moves per step of zoom: half the horizontal
/// step, which keeps the map's two-to-one aspect.
pub const ZOOM_HALF_STEP_SIZE: i64 = UNITS_PER_DEGREE;

/// How far the viewport moves per step of pan: one degree.
pub const PAN_STEP_SIZE: i64 = UNITS_PER_DEGREE;

/// How far the viewport moves per screen cell of mouse drag: a fifth of a degree.
pub const DRAG_STEP_SIZE: i64 = 2_000_000;

/// Whether an integer can be held in an `i64`.
pub open spec fn fits_i64(v: int) -> bool {
    i64::MIN <= v <= i64::MAX
}

/// One of the four directions of a pan.
#[derive(Clone, Copy, Debug, PartialEq, Eq, Structural)]
pub enum Direction {
    Up,
    Down,
    Left,
    Right,
}

/// The rectangle of the plane that is shown, in fixed-point units.
#[derive(Clone, Copy, Debug, PartialEq, Eq, Structural)]
pub struct Viewport {
    pub min_x: i64,
    pub max_x: i64,
    pub min_y: i64,
    pub max_y: i64,
}

impl Viewport {
    /// The rectangle is neither empty nor inverted on either axis.
    pub open spec fn wf(self) -> bool {
        self.min_x < self.max_x && self.min_y < self.max_y
    }

    /// The full plane, [-180, 180] x [-90, 90] degrees.
    pub open spec fn spec_default() -> Viewport {
        Viewport {
            min_x: (-180 * UNITS_PER_DEGREE) as i64,
            max_x: (180 * UNITS_PER_DEGREE) as i64,
            min_y: (-90 * UNITS_PER_DEGREE) as i64,
            max_y: (90 * UNITS_PER_DEGREE) as i64,
        }
    }

    /// Zooming by `z` steps keeps every bound representable and the
    /// rectangle well formed.
    pub open spec fn can_zoom(self, z: int) -> bool {
        let dx = z * ZOOM_STEP_SIZE;
        let dy = z * ZOOM_HALF_STEP_SIZE;
        &&& fits_i64(self.min_x + dx)
        &&& fits_i64(self.max_x - dx)
        &&& fits_i64(self.min_y + dy)
        &&& fits_i64(self.max_y - dy)
        &&& self.min_x + dx < self.max_x - dx
        &&& self.min_y + dy < self.max_y - dy
    }

    /// The viewport after `z` steps of zoom: each horizontal side moves
    /// inward by `z` zoom steps, each vertical side by half as much; a zoom
    /// that would invert the rectangle or leave `i64` is refused.
    pub open spec fn zoomed(self, z: int) -> Viewport {
        if self.can_zoom(z) {
            Viewport {
                min_x: (self.min_x + z * ZOOM_STEP_SIZE) as i64,
                max_x: (self.max_x - z * ZOOM_STEP_SIZE) as i64,
                min_y: (self.min_y + z * ZOOM_HALF_STEP_SIZE) as i64,
                max_y: (self.max_y - z * ZOOM_HALF_STEP_SIZE) as i64,
            }
        } else {
            self
        }
    }

    /// Moving by `(dx, dy)` keeps every bound representable.
    pub open spec fn can_translate(self, dx: int, dy: int) -> bool {
        &&& fits_i64(self.min_x + dx)
        &&& fits_i64(self.max_x + dx)
        &&& fits_i64(self.min_y + dy)
        &&& fits_i64(self.max_y + dy)
    }

    /// The viewport moved by `(dx, dy)`, or unchanged where a bound would
    /// leave `i64`.
    pub open spec fn translated(self, dx: int, dy: int) -> Viewport {
        if self.can_translate(dx, dy) {
            Viewport {
                min_x: (self.min_x + dx) as i64,
                max_x: (self.max_x + dx) as i64,
                min_y: (self.min_y + dy) as i64,
                max_y: (self.max_y + dy) as i64,
            }
        } else {
            self
        }
    }

    /// The offset of one pan step in a direction.
    pub open spec fn pan_offset(dir: Direction) -> (int, int) {
        match dir {
            Direction::Up => (0, PAN_STEP_SIZE as int),
            Direction::Down => (0, -PAN_STEP_SIZE),
            Direction::Left => (-PAN_STEP_SIZE, 0),
            Direction::Right => (PAN_STEP_SIZE as int, 0),
        }
    }

    /// The viewport after one pan step.
    pub open spec fn panned(self, dir: Direction) -> Viewport {
        self.translated(Self::pan_offset(dir).0, Self::pan_offset(dir).1)
    }

    /// The viewport after the pointer moved `columns` cells right and `rows`
    /// cells down while dragging: the plane follows the pointer horizontally,
    /// and moves up with it as rows grow.
    pub open spec fn dragged(self, columns: int, rows: int) -> Viewport {
        self.translated(-columns * DRAG_STEP_SIZE, rows * DRAG_STEP_SIZE)
    }

    /// Whether a point of the plane is shown: every side is inclusive, and
    /// an empty or inverted rectangle shows nothing.
    pub open spec fn shows(self, x: int, y: int) -> bool {
        &&& self.min_x <= x <= self.max_x
        &&& self.min_y <= y <= self.max_y
        &&& self.min_x < self.max_x
        &&& self.min_y < self.max_y
    }

    /// The full plane.
    pub fn new() -> (r: Viewport)
        ensures
            r == Self::spec_default(),
            r.wf(),
    {
        Viewport {
            min_x: -180 * UNITS_PER_DEGREE,
            max_x: 180 * UNITS_PER_DEGREE,
            min_y: -90 * UNITS_PER_DEGREE,
            max_y: 90 * UNITS_PER_DEGREE,
        }
    }

    /// Shrinks (positive `z`) or grows (negative `z`) the rectangle about
    /// its centre; refused where it would invert the rectangle.
    pub fn zoom(&mut self, z: i32)
        ensures
            *final(self) == old(self).zoomed(z as int),
            old(self).wf() ==> final(self).wf(),
    {
        let dx: i128 = z as i128 * ZOOM_STEP_SIZE as i128;
        proof {
            let zi = z as int;
            assert(-0x8000_0000 * 10_000_000 <= zi * 10_000_000 <= 0x7fff_ffff * 10_000_000)
                by (nonlinear_arith)
                requires
                    -0x8000_0000 <= zi <= 0x7fff_ffff,
            ;
            assert(-0x8000_0000 * 20_000_000 <= zi * 20_000_000 <= 0x7fff_ffff * 20_000_000)
                by (nonlinear_arith)
                requires
                    -0x8000_0000 <= zi <= 0x7fff_ffff,
            ;
        }
        let dy: i128 = z as i128 * ZOOM_HALF_STEP_SIZE as i128;
        let min_x: i128 = self.min_x as i128 + dx;
        let max_x: i128 = self.max_x as i128 - dx;
        let min_y: i128 = self.min_y as i128 + dy;
        let max_y: i128 = self.max_y as i128 - dy;
        if i64::MIN as i128 <= min_x && min_x <= i64::MAX as i128
            && i64::MIN as i128 <= max_x && max_x <= i64::MAX as i128
            && i64::MIN as i128 <= min_y && min_y <= i64::MAX as i128
            && i64::MIN as i128 <= max_y && max_y <= i64::MAX as i128
            && min_x < max_x && min_y < max_y
        {
            self.min_x = min_x as i64;
            self.max_x = max_x as i64;
            self.min_y = min_y as i64;
            self.max_y = max_y as i64;
        }
    }

    /// Moves the rectangle by `(dx, dy)` units, keeping its size; left as
    /// it is where a bound would leave `i64`.
    pub fn translate(&mut self, dx: i64, dy: i64)
        ensures
            *final(self) == old(self).translated(dx as int, dy as int),
            final(self).max_x - final(self).min_x == old(self).max_x - old(self).min_x,
            final(self).max_y - final(self).min_y == old(self).max_y - old(self).min_y,
    {
        let min_x: i128 = self.min_x as i128 + dx as i128;
        let max_x: i128 = self.max_x as i128 + dx as i128;
        let min_y: i128 = self.min_y as i128 + dy as i128;
        let max_y: i128 = self.max_y as i128 + dy as i128;
        if i64::MIN as i128 <= min_x && min_x <= i64::MAX as i128
            && i64::MIN as i128 <= max_x && max_x <= i64::MAX as i128
            && i64::MIN as i128 <= min_y && min_y <= i64::MAX as i128
            && i64::MIN as i128 <= max_y && max_y <= i64::MAX as i128
        {
            self.min_x = min_x as i64;
            self.max_x = max_x as i64;
            self.min_y = min_y as i64;
            self.max_y = max_y as i64;
        }
    }

    /// One pan step in a direction; touches only that axis's bounds.
    pub fn pan(&mut self, dir: Direction)
        ensures
            *final(self) == old(self).panned(dir),
            final(self).max_x - final(self).min_x == old(self).max_x - old(self).min_x,
            final(self).max_y - final(self).min_y == old(self).max_y - old(self).min_y,
    {
        match dir {
            Direction::Up => self.translate(0, PAN_STEP_SIZE),
            Direction::Down => self.translate(0, -PAN_STEP_SIZE),
            Direction::Left => self.translate(-PAN_STEP_SIZE, 0),
            Direction::Right => self.translate(PAN_STEP_SIZE, 0),
        }
    }

    /// Follows a drag of the pointer by `columns` cells right and `rows`
    /// cells down.
    pub fn drag(&mut self, columns: i32, rows: i32)
        ensures
            *final(self) == old(self).dragged(columns as int, rows as int),
    {
        let dx: i64 = -(columns as i64) * DRAG_STEP_SIZE;
        let dy: i64 = rows as i64 * DRAG_STEP_SIZE;
        self.translate(dx, dy);
    }

    /// Whether the point `(x, y)` lies in the rectangle, boundary included.
    pub fn contains(&self, x: i64, y: i64) -> (r: bool)
        ensures
            r == self.shows(x as int, y as int),
    {
        self.min_x <= x && x <= self.max_x && self.min_y <= y && y <= self.max_y
            && self.min_x < self.max_x && self.min_y < self.max_y
    }
}

impl Default for Viewport {
    fn default() -> (r: Viewport)
        ensures
            r == Viewport::spec_default(),
    {
        Viewport::new()
    }
}

/// Zooming in by `n` steps and then out by `n` steps gives back the
/// original rectangle, whenever the first zoom is carried out.
pub proof fn lemma_zoom_round_trip(v: Viewport, n: int)
    requires
        v.wf(),
        v.can_zoom(n),
    ensures
        v.zoomed(n).zoomed(-n) == v,
{
    assert((-n) * ZOOM_STEP_SIZE == -(n * ZOOM_STEP_SIZE)) by (nonlinear_arith);
    assert((-n) * ZOOM_HALF_STEP_SIZE == -(n * ZOOM_HALF_STEP_SIZE)) by (nonlinear_arith);
}

/// A pan in any direction keeps the width and the height of the rectangle.
pub proof fn lemma_pan_keeps_size(v: Viewport, dir: Direction)
    ensures
        v.panned(dir).max_x - v.panned(dir).min_x == v.max_x - v.min_x,
        v.panned(dir).max_y - v.panned(dir).min_y == v.max_y - v.min_y,
{
}

} // verus!
