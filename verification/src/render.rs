//! The offscreen drawing surface: a grid of character cells that the
//! render step composes a frame into. Presenting the finished frame on
//! a window is the caller's affair; everything here is the buffer's
//! own state.
use vstd::prelude::*;

use crate::MAP_HEIGHT;
use crate::MAP_WIDTH;
use crate::entity::Entity;
use crate::in_bounds;
use crate::mapgen::GameMap;
use crate::tile::Rgb;

verus! {

/// One cell of the drawing surface: the glyph shown there, the color
/// it is drawn in, and the background color behind it.
#[derive(Clone, Copy, Debug, PartialEq, Eq, Structural)]
pub struct Cell {
    pub glyph: char,
    pub fg: Rgb,
    pub bg: Rgb,
}

/// The background color painted behind sight-blocking cells.
pub open spec fn dark_wall_color() -> Rgb {
    Rgb { r: 0, g: 0, b: 100 }
}

/// The background color painted behind open cells.
pub open spec fn dark_ground_color() -> Rgb {
    Rgb { r: 50, g: 50, b: 150 }
}

/// The color every cell starts with: white glyphs on black.
pub open spec fn white_color() -> Rgb {
    Rgb { r: 255, g: 255, b: 255 }
}

/// The all-black color.
pub open spec fn black_color() -> Rgb {
    Rgb { r: 0, g: 0, b: 0 }
}

/// A cell as freshly allocated: a blank glyph, white on black.
pub open spec fn blank_cell() -> Cell {
    Cell { glyph: ' ', fg: white_color(), bg: black_color() }
}

/// An offscreen buffer of `MAP_WIDTH` by `MAP_HEIGHT` cells, indexed
/// `[x][y]`, plus the foreground color that the next written glyph
/// takes.
pub struct OffscreenBuffer {
    pub cells: Vec<Vec<Cell>>,
    pub default_fg: Rgb,
}

impl OffscreenBuffer {
    /// The cells as a sequence of columns.
    pub open spec fn grid(self) -> Seq<Seq<Cell>> {
        Seq::new(self.cells@.len(), |x: int| self.cells@[x]@)
    }

    /// The buffer has its fixed dimensions.
    pub open spec fn wf(self) -> bool {
        &&& self.grid().len() == MAP_WIDTH as int
        &&& forall|x: int|
            0 <= x < self.grid().len() ==> (#[trigger] self.grid()[x]).len() == MAP_HEIGHT as int
    }

    /// Allocates the buffer with every cell blank and white as the
    /// foreground color.
    pub fn new() -> (con: OffscreenBuffer)
        ensures
            con.wf(),
            con.default_fg == white_color(),
            forall|x: int, y: int| in_bounds(x, y) ==> (#[trigger] con.grid()[x][y]) == blank_cell(),
    {
        let mut cells: Vec<Vec<Cell>> = Vec::new();
        let mut x: usize = 0;
        while x < MAP_WIDTH as usize
            invariant
                x <= MAP_WIDTH as int,
                cells@.len() == x as int,
                forall|i: int| 0 <= i < x as int ==> (#[trigger] cells@[i])@.len() == MAP_HEIGHT as int,
                forall|i: int, j: int|
                    0 <= i < x as int && 0 <= j < MAP_HEIGHT as int ==> (#[trigger] cells@[i]@[j])
                        == blank_cell(),
            decreases MAP_WIDTH as int - x as int,
        {
            let mut col: Vec<Cell> = Vec::new();
            let mut y: usize = 0;
            while y < MAP_HEIGHT as usize
                invariant
                    y <= MAP_HEIGHT as int,
                    col@.len() == y as int,
                    forall|j: int| 0 <= j < y as int ==> (#[trigger] col@[j]) == blank_cell(),
                decreases MAP_HEIGHT as int - y as int,
            {
                col.push(
                    Cell {
                        glyph: ' ',
                        fg: Rgb { r: 255, g: 255, b: 255 },
                        bg: Rgb { r: 0, g: 0, b: 0 },
                    },
                );
                y = y + 1;
            }
            cells.push(col);
            x = x + 1;
        }
        OffscreenBuffer { cells, default_fg: Rgb { r: 255, g: 255, b: 255 } }
    }

    /// Sets the foreground color that later glyph writes take.
    pub fn set_default_foreground(&mut self, color: Rgb)
        requires
            old(self).wf(),
        ensures
            final(self).wf(),
            final(self).default_fg == color,
            final(self).grid() == old(self).grid(),
    {
        self.default_fg = color;
    }

    /// Writes `glyph` at `(x, y)` in the current foreground color,
    /// keeping the cell's background and every other cell.
    pub fn put_char(&mut self, x: i32, y: i32, glyph: char)
        requires
            old(self).wf(),
            in_bounds(x as int, y as int),
        ensures
            final(self).wf(),
            final(self).default_fg == old(self).default_fg,
            final(self).grid()[x as int][y as int].glyph == glyph,
            final(self).grid()[x as int][y as int].fg == old(self).default_fg,
            final(self).grid()[x as int][y as int].bg == old(self).grid()[x as int][y as int].bg,
            forall|i: int, j: int|
                in_bounds(i, j) && !(i == x as int && j == y as int)
                    ==> (#[trigger] final(self).grid()[i][j]) == old(self).grid()[i][j],
    {
        proof {
            assert(self.grid()[x as int] == self.cells@[x as int]@);
            assert(self.grid()[x as int].len() == MAP_HEIGHT as int);
        }
        let fg = self.default_fg;
        let bg = self.cells[x as usize][y as usize].bg;
        self.cells[x as usize][y as usize] = Cell { glyph, fg, bg };
        proof {
            assert forall|i: int| 0 <= i < self.grid().len() implies (#[trigger] self.grid()[i]).len()
                == MAP_HEIGHT as int by {
                assert(self.grid()[i] == self.cells@[i]@);
                assert(old(self).grid()[i] == old(self).cells@[i]@);
            }
            assert forall|i: int, j: int|
                in_bounds(i, j) && !(i == x as int && j == y as int) implies (#[trigger] self.grid()[i][j])
                == old(self).grid()[i][j] by {
                assert(self.grid()[i] == self.cells@[i]@);
                assert(old(self).grid()[i] == old(self).cells@[i]@);
            }
            assert(self.grid()[x as int] == self.cells@[x as int]@);
        }
    }

    /// Paints the background of the cell at `(x, y)`, keeping its
    /// glyph and foreground and every other cell.
    pub fn set_char_background(&mut self, x: i32, y: i32, color: Rgb)
        requires
            old(self).wf(),
            in_bounds(x as int, y as int),
        ensures
            final(self).wf(),
            final(self).default_fg == old(self).default_fg,
            final(self).grid()[x as int][y as int].glyph == old(self).grid()[x as int][y as int].glyph,
            final(self).grid()[x as int][y as int].fg == old(self).grid()[x as int][y as int].fg,
            final(self).grid()[x as int][y as int].bg == color,
            forall|i: int, j: int|
                in_bounds(i, j) && !(i == x as int && j == y as int)
                    ==> (#[trigger] final(self).grid()[i][j]) == old(self).grid()[i][j],
    {
        proof {
            assert(self.grid()[x as int] == self.cells@[x as int]@);
            assert(self.grid()[x as int].len() == MAP_HEIGHT as int);
        }
        let glyph = self.cells[x as usize][y as usize].glyph;
        let fg = self.cells[x as usize][y as usize].fg;
        self.cells[x as usize][y as usize] = Cell { glyph, fg, bg: color };
        proof {
            assert forall|i: int| 0 <= i < self.grid().len() implies (#[trigger] self.grid()[i]).len()
                == MAP_HEIGHT as int by {
                assert(self.grid()[i] == self.cells@[i]@);
                assert(old(self).grid()[i] == old(self).cells@[i]@);
            }
            assert forall|i: int, j: int|
                in_bounds(i, j) && !(i == x as int && j == y as int) implies (#[trigger] self.grid()[i][j])
                == old(self).grid()[i][j] by {
                assert(self.grid()[i] == self.cells@[i]@);
                assert(old(self).grid()[i] == old(self).cells@[i]@);
            }
            assert(self.grid()[x as int] == self.cells@[x as int]@);
        }
    }

    /// Reads the cell at `(x, y)`.
    pub fn cell_at(&self, x: i32, y: i32) -> (c: Cell)
        requires
            self.wf(),
            in_bounds(x as int, y as int),
        ensures
            c == self.grid()[x as int][y as int],
    {
        proof {
            assert(self.grid()[x as int] == self.cells@[x as int]@);
            assert(self.grid()[x as int].len() == MAP_HEIGHT as int);
        }
        self.cells[x as usize][y as usize]
    }
}

/// The last entity of `es` standing at `(x, y)`, if any: when several
/// entities share a cell, the one drawn last is the one seen.
pub open spec fn last_entity_at(es: Seq<Entity>, x: int, y: int) -> Option<Entity>
    decreases es.len(),
{
    if es.len() == 0 {
        None
    } else if es.last().x == x && es.last().y == y {
        Some(es.last())
    } else {
        last_entity_at(es.drop_last(), x, y)
    }
}

/// The glyph shown at `(x, y)` after the entities of `es` are drawn in
/// order over a cell whose glyph was `base`.
pub open spec fn drawn_glyph(es: Seq<Entity>, x: int, y: int, base: char) -> char {
    match last_entity_at(es, x, y) {
        Some(e) => e.glyph,
        None => base,
    }
}

/// The foreground color shown at `(x, y)` after the entities of `es`
/// are drawn in order over a cell whose foreground was `base`.
pub open spec fn drawn_fg(es: Seq<Entity>, x: int, y: int, base: Rgb) -> Rgb {
    match last_entity_at(es, x, y) {
        Some(e) => e.color,
        None => base,
    }
}

/// Whether some entity of `es` stands at `(x, y)`.
pub open spec fn entity_at(es: Seq<Entity>, x: int, y: int) -> bool {
    exists|k: int| 0 <= k < es.len() && (#[trigger] es[k]).x == x && es[k].y == y
}

/// The background color a cell is painted with: one dark color when
/// its tile blocks sight, another when it is open.
pub open spec fn background_for(block_sight: bool) -> Rgb {
    if block_sight {
        dark_wall_color()
    } else {
        dark_ground_color()
    }
}

/// Composes one frame into the buffer: draws every entity's glyph at
/// its position in its color, then paints every cell's background from
/// its tile, dark wall behind sight-blocking cells and dark ground
/// behind open ones. The caller presents the finished buffer before
/// erasing the entities again with `clear_entities`.
pub fn render_all(con: &mut OffscreenBuffer, entities: &Vec<Entity>, map: &GameMap)
    requires
        old(con).wf(),
        map.wf(),
        forall|k: int| 0 <= k < entities@.len() ==> (#[trigger] entities@[k]).pos_in_bounds(),
    ensures
        final(con).wf(),
        forall|x: int, y: int|
            in_bounds(x, y) ==> (#[trigger] final(con).grid()[x][y]).glyph == drawn_glyph(
                entities@,
                x,
                y,
                old(con).grid()[x][y].glyph,
            ),
        forall|x: int, y: int|
            in_bounds(x, y) ==> (#[trigger] final(con).grid()[x][y]).fg == drawn_fg(
                entities@,
                x,
                y,
                old(con).grid()[x][y].fg,
            ),
        forall|x: int, y: int|
            in_bounds(x, y) ==> (#[trigger] final(con).grid()[x][y]).bg == background_for(
                map.grid()[x][y].block_sight,
            ),
        final(con).default_fg == (if entities@.len() > 0 {
            entities@.last().color
        } else {
            old(con).default_fg
        }),
{
    let ghost s = entities@;
    let ghost g0 = con.grid();
    let ghost fg0 = con.default_fg;

    let mut k: usize = 0;
    while k < entities.len()
        invariant
            con.wf(),
            k <= s.len(),
            s == entities@,
            forall|idx: int| 0 <= idx < s.len() ==> (#[trigger] s[idx]).pos_in_bounds(),
            con.default_fg == (if k as int > 0 {
                s[k as int - 1].color
            } else {
                fg0
            }),
            forall|x: int, y: int|
                in_bounds(x, y) ==> (#[trigger] con.grid()[x][y]).bg == g0[x][y].bg,
            forall|x: int, y: int|
                in_bounds(x, y) ==> (#[trigger] con.grid()[x][y]).glyph == drawn_glyph(
                    s.take(k as int),
                    x,
                    y,
                    g0[x][y].glyph,
                ),
            forall|x: int, y: int|
                in_bounds(x, y) ==> (#[trigger] con.grid()[x][y]).fg == drawn_fg(
                    s.take(k as int),
                    x,
                    y,
                    g0[x][y].fg,
                ),
        decreases s.len() - k as int,
    {
        let ghost kk = k as int;
        let e = &entities[k];
        e.draw(con);
        proof {
            assert(s.take(kk + 1).drop_last() =~= s.take(kk));
            assert(s.take(kk + 1).last() == s[kk]);
            assert forall|x: int, y: int| in_bounds(x, y) implies #[trigger] last_entity_at(
                s.take(kk + 1),
                x,
                y,
            ) == (if s[kk].x == x && s[kk].y == y {
                Some(s[kk])
            } else {
                last_entity_at(s.take(kk), x, y)
            }) by {
                assert(s.take(kk + 1).len() == kk + 1);
            }
        }
        k = k + 1;
    }
    proof {
        assert(s.take(s.len() as int) =~= s);
    }

    let ghost mid = con.grid();
    let ghost mid_fg = con.default_fg;
    let mut y: i32 = 0;
    while y < MAP_HEIGHT
        invariant
            con.wf(),
            map.wf(),
            0 <= y <= MAP_HEIGHT as int,
            con.default_fg == mid_fg,
            forall|i: int, j: int|
                in_bounds(i, j) ==> (#[trigger] con.grid()[i][j]).glyph == mid[i][j].glyph,
            forall|i: int, j: int|
                in_bounds(i, j) ==> (#[trigger] con.grid()[i][j]).fg == mid[i][j].fg,
            forall|i: int, j: int|
                in_bounds(i, j) ==> (#[trigger] con.grid()[i][j]).bg == (if j < y as int {
                    background_for(map.grid()[i][j].block_sight)
                } else {
                    mid[i][j].bg
                }),
        decreases MAP_HEIGHT as int - y as int,
    {
        let mut x: i32 = 0;
        while x < MAP_WIDTH
            invariant
                con.wf(),
                map.wf(),
                0 <= y < MAP_HEIGHT as int,
                0 <= x <= MAP_WIDTH as int,
                con.default_fg == mid_fg,
                forall|i: int, j: int|
                    in_bounds(i, j) ==> (#[trigger] con.grid()[i][j]).glyph == mid[i][j].glyph,
                forall|i: int, j: int|
                    in_bounds(i, j) ==> (#[trigger] con.grid()[i][j]).fg == mid[i][j].fg,
                forall|i: int, j: int|
                    in_bounds(i, j) ==> (#[trigger] con.grid()[i][j]).bg == (if j < y as int || (j
                        == y as int && i < x as int) {
                        background_for(map.grid()[i][j].block_sight)
                    } else {
                        mid[i][j].bg
                    }),
            decreases MAP_WIDTH as int - x as int,
        {
            let wall = map.tile_at(x, y).block_sight;
            if wall {
                con.set_char_background(x, y, Rgb { r: 0, g: 0, b: 100 });
            } else {
                con.set_char_background(x, y, Rgb { r: 50, g: 50, b: 150 });
            }
            x = x + 1;
        }
        y = y + 1;
    }
}

/// Erases every entity's glyph from the buffer: each cell an entity
/// stands on gets a blank glyph in the buffer's current foreground
/// color, and every other cell is untouched. Run after the composed
/// frame has been presented, so that the next frame starts clean.
pub fn clear_entities(con: &mut OffscreenBuffer, entities: &Vec<Entity>)
    requires
        old(con).wf(),
        forall|k: int| 0 <= k < entities@.len() ==> (#[trigger] entities@[k]).pos_in_bounds(),
    ensures
        final(con).wf(),
        final(con).default_fg == old(con).default_fg,
        forall|x: int, y: int|
            in_bounds(x, y) ==> (#[trigger] final(con).grid()[x][y]).glyph == (if entity_at(
                entities@,
                x,
                y,
            ) {
                ' '
            } else {
                old(con).grid()[x][y].glyph
            }),
        forall|x: int, y: int|
            in_bounds(x, y) ==> (#[trigger] final(con).grid()[x][y]).fg == (if entity_at(
                entities@,
                x,
                y,
            ) {
                old(con).default_fg
            } else {
                old(con).grid()[x][y].fg
            }),
        forall|x: int, y: int|
            in_bounds(x, y) ==> (#[trigger] final(con).grid()[x][y]).bg == old(con).grid()[x][y].bg,
{
    let ghost s = entities@;
    let ghost g0 = con.grid();
    let ghost fg0 = con.default_fg;
    let mut k: usize = 0;
    while k < entities.len()
        invariant
            con.wf(),
            k <= s.len(),
            s == entities@,
            forall|idx: int| 0 <= idx < s.len() ==> (#[trigger] s[idx]).pos_in_bounds(),
            con.default_fg == fg0,
            forall|x: int, y: int|
                in_bounds(x, y) ==> (#[trigger] con.grid()[x][y]).glyph == (if entity_at(
                    s.take(k as int),
                    x,
                    y,
                ) {
                    ' '
                } else {
                    g0[x][y].glyph
                }),
            forall|x: int, y: int|
                in_bounds(x, y) ==> (#[trigger] con.grid()[x][y]).fg == (if entity_at(
                    s.take(k as int),
                    x,
                    y,
                ) {
                    fg0
                } else {
                    g0[x][y].fg
                }),
            forall|x: int, y: int|
                in_bounds(x, y) ==> (#[trigger] con.grid()[x][y]).bg == g0[x][y].bg,
        decreases s.len() - k as int,
    {
        let ghost kk = k as int;
        let e = &entities[k];
        e.clear(con);
        proof {
            assert forall|x: int, y: int| in_bounds(x, y) implies #[trigger] entity_at(
                s.take(kk + 1),
                x,
                y,
            ) == (entity_at(s.take(kk), x, y) || (s[kk].x == x && s[kk].y == y)) by {
                let t1 = s.take(kk + 1);
                let t0 = s.take(kk);
                if entity_at(t1, x, y) {
                    let w = choose|w: int| 0 <= w < t1.len() && (#[trigger] t1[w]).x == x && t1[w].y == y;
                    if w < kk {
                        assert(0 <= w < t0.len() && t0[w].x == x && t0[w].y == y);
                    } else {
                        assert(t1[w] == s[kk]);
                    }
                }
                if entity_at(t0, x, y) {
                    let w = choose|w: int| 0 <= w < t0.len() && (#[trigger] t0[w]).x == x && t0[w].y == y;
                    assert(0 <= w < t1.len() && t1[w].x == x && t1[w].y == y);
                }
                if s[kk].x == x && s[kk].y == y {
                    assert(0 <= kk < t1.len() && t1[kk].x == x && t1[kk].y == y);
                }
            }
        }
        k = k + 1;
    }
    proof {
        assert(s.take(s.len() as int) =~= s);
    }
}

} // verus!
