//! A movable character on the grid: a position, a glyph, and a color,
//! with collision-checked and unchecked movement.
use vstd::prelude::*;

use crate::in_bounds;
use crate::mapgen::GameMap;
use crate::render::OffscreenBuffer;
use crate::tile::Rgb;

verus! {

/// A character on the grid: its position, its display glyph, and the
/// color the glyph is drawn in.
#[derive(Debug)]
pub struct Entity {
    pub x: i32,
    pub y: i32,
    pub glyph: char,
    pub color: Rgb,
}

impl Entity {
    /// The entity stands on the grid.
    pub open spec fn pos_in_bounds(self) -> bool {
        in_bounds(self.x as int, self.y as int)
    }

    /// Builds an entity at `(x, y)` showing `glyph` in `color`.
    pub fn new(x: i32, y: i32, glyph: char, color: Rgb) -> (e: Entity)
        requires
            in_bounds(x as int, y as int),
        ensures
            e.x == x,
            e.y == y,
            e.glyph == glyph,
            e.color == color,
            e.pos_in_bounds(),
    {
        Entity { x, y, glyph, color }
    }

    /// Map-checked movement: steps by `(dx, dy)` unless the destination
    /// tile is blocked, in which case the position is kept. Either way
    /// the position afterwards is the old one or the old one plus the
    /// delta, and never anything else.
    pub fn move_by(&mut self, dx: i32, dy: i32, map: &GameMap)
        requires
            map.wf(),
            old(self).pos_in_bounds(),
            in_bounds(old(self).x + dx, old(self).y + dy),
        ensures
            final(self).glyph == old(self).glyph,
            final(self).color == old(self).color,
            map.grid()[old(self).x + dx][old(self).y + dy].blocked ==> *final(self) == *old(self),
            !map.grid()[old(self).x + dx][old(self).y + dy].blocked ==> final(self).x == old(self).x
                + dx && final(self).y == old(self).y + dy,
            (final(self).x == old(self).x && final(self).y == old(self).y) || (final(self).x == old(
                self,
            ).x + dx && final(self).y == old(self).y + dy),
            final(self).pos_in_bounds(),
    {
        if !map.tile_at(self.x + dx, self.y + dy).blocked {
            self.x = self.x + dx;
            self.y = self.y + dy;
        }
    }

    /// Unchecked movement: steps by `(dx, dy)` with no look at any
    /// tile, always landing on exactly the old position plus the delta.
    pub fn move_by_unchecked(&mut self, dx: i32, dy: i32)
        requires
            in_bounds(old(self).x + dx, old(self).y + dy),
        ensures
            final(self).glyph == old(self).glyph,
            final(self).color == old(self).color,
            final(self).x == old(self).x + dx,
            final(self).y == old(self).y + dy,
            final(self).pos_in_bounds(),
    {
        self.x = self.x + dx;
        self.y = self.y + dy;
    }

    /// Draws the entity: writes its glyph at its position in its own
    /// color, leaving the cell's background and every other cell as
    /// they were. The buffer's foreground color is left set to the
    /// entity's color.
    pub fn draw(&self, con: &mut OffscreenBuffer)
        requires
            old(con).wf(),
            self.pos_in_bounds(),
        ensures
            final(con).wf(),
            final(con).default_fg == self.color,
            final(con).grid()[self.x as int][self.y as int].glyph == self.glyph,
            final(con).grid()[self.x as int][self.y as int].fg == self.color,
            final(con).grid()[self.x as int][self.y as int].bg == old(con).grid()[self.x as int][self.y as int].bg,
            forall|i: int, j: int|
                in_bounds(i, j) && !(i == self.x as int && j == self.y as int)
                    ==> (#[trigger] final(con).grid()[i][j]) == old(con).grid()[i][j],
    {
        con.set_default_foreground(self.color);
        con.put_char(self.x, self.y, self.glyph);
    }

    /// Erases the entity's glyph: writes a blank at its position in
    /// the buffer's current foreground color, leaving the cell's
    /// background and every other cell as they were.
    pub fn clear(&self, con: &mut OffscreenBuffer)
        requires
            old(con).wf(),
            self.pos_in_bounds(),
        ensures
            final(con).wf(),
            final(con).default_fg == old(con).default_fg,
            final(con).grid()[self.x as int][self.y as int].glyph == ' ',
            final(con).grid()[self.x as int][self.y as int].fg == old(con).default_fg,
            final(con).grid()[self.x as int][self.y as int].bg == old(con).grid()[self.x as int][self.y as int].bg,
            forall|i: int, j: int|
                in_bounds(i, j) && !(i == self.x as int && j == self.y as int)
                    ==> (#[trigger] final(con).grid()[i][j]) == old(con).grid()[i][j],
    {
        con.put_char(self.x, self.y, ' ');
    }
}

} // verus!
