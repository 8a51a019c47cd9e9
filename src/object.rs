use vstd::prelude::*;
use crate::grid::TileGrid;

verus! {

/// A display color as red, green and blue components.
#[derive(Debug, Clone, Copy, PartialEq, Eq, Structural)]
pub struct Color {
    pub r: u8,
    pub g: u8,
    pub b: u8,
}

/// The state of one play session: the map that movement consults.
pub struct Game {
    pub map: TileGrid,
}

/// A single cardinal step requested by the player.
#[derive(Debug, Clone, Copy, PartialEq, Eq, Structural)]
pub enum Direction {
    Up,
    Down,
    Left,
    Right,
}

pub open spec fn delta_of(d: Direction) -> (int, int) {
    match d {
        Direction::Up => (0, -1),
        Direction::Down => (0, 1),
        Direction::Left => (-1, 0),
        Direction::Right => (1, 0),
    }
}

impl Direction {
    /// The position change `(dx, dy)` of one step; up is toward row 0.
    pub fn delta(&self) -> (r: (i32, i32))
        ensures
            (r.0 as int, r.1 as int) == delta_of(*self),
    {
        match self {
            Direction::Up => (0, -1),
            Direction::Down => (0, 1),
            Direction::Left => (-1, 0),
            Direction::Right => (1, 0),
        }
    }
}

/// Whether an entity at `(x, y)` may step by `(dx, dy)`: exactly when the
/// destination is floor.
pub fn can_move(map: &TileGrid, x: i32, y: i32, dx: i32, dy: i32) -> (r: bool)
    requires
        map.wf(),
        map@.contains(x + dx, y + dy),
    ensures
        r == map@.floor.contains((x + dx, y + dy)),
{
    !map.is_blocked(x + dx, y + dy)
}

/// A movable entity on the map, drawn as a glyph in a color.
#[derive(Debug, Clone, Copy, PartialEq, Eq, Structural)]
pub struct Object {
    pub x: i32,
    pub y: i32,
    pub glyph: char,
    pub color: Color,
}

impl Object {
    pub fn new(x: i32, y: i32, glyph: char, color: Color) -> (r: Object)
        ensures
            r == (Object { x, y, glyph, color }),
    {
        Object { x, y, glyph, color }
    }

    /// Moves by `(dx, dy)` when the destination is floor; otherwise
    /// nothing changes.
    pub fn move_by(&mut self, dx: i32, dy: i32, game: &Game)
        requires
            game.map.wf(),
            game.map@.contains(old(self).x + dx, old(self).y + dy),
        ensures
            game.map@.floor.contains((old(self).x + dx, old(self).y + dy)) ==> *final(self) == (
            Object { x: (old(self).x + dx) as i32, y: (old(self).y + dy) as i32, ..*old(self) }),
            !game.map@.floor.contains((old(self).x + dx, old(self).y + dy)) ==> *final(self)
                == *old(self),
    {
        if can_move(&game.map, self.x, self.y, dx, dy) {
            self.x = self.x + dx;
            self.y = self.y + dy;
        }
    }
}

} // verus!
