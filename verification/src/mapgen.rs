//! The tile grid and its generator: an all-wall grid into which two
//! rooms and a connecting tunnel are carved.
use vstd::prelude::*;

use crate::MAP_HEIGHT;
use crate::MAP_WIDTH;
use crate::in_bounds;
use crate::rect::Rect;
use crate::rect::rect_interior_contains;
use crate::tile::Tile;
use crate::tile::ground_tile;
use crate::tile::wall_tile;

verus! {

/// The grid of tiles, indexed `[x][y]`, always `MAP_WIDTH` by `MAP_HEIGHT`.
pub struct GameMap {
    pub tiles: Vec<Vec<Tile>>,
}

/// Whether a grid of tile columns has the fixed map dimensions.
pub open spec fn grid_wf(g: Seq<Seq<Tile>>) -> bool {
    &&& g.len() == MAP_WIDTH as int
    &&& forall|x: int| 0 <= x < g.len() ==> (#[trigger] g[x]).len() == MAP_HEIGHT as int
}

impl GameMap {
    /// The grid as a sequence of columns of tiles.
    pub open spec fn grid(self) -> Seq<Seq<Tile>> {
        Seq::new(self.tiles@.len(), |x: int| self.tiles@[x]@)
    }

    /// The grid has its fixed dimensions.
    pub open spec fn wf(self) -> bool {
        grid_wf(self.grid())
    }

    /// Builds the all-wall grid that generation starts from.
    pub fn new() -> (m: GameMap)
        ensures
            m.wf(),
            forall|x: int, y: int| in_bounds(x, y) ==> (#[trigger] m.grid()[x][y]) == wall_tile(),
    {
        let mut tiles: Vec<Vec<Tile>> = Vec::new();
        let mut x: usize = 0;
        while x < MAP_WIDTH as usize
            invariant
                x <= MAP_WIDTH as int,
                tiles@.len() == x as int,
                forall|i: int| 0 <= i < x as int ==> (#[trigger] tiles@[i])@.len() == MAP_HEIGHT as int,
                forall|i: int, j: int|
                    0 <= i < x as int && 0 <= j < MAP_HEIGHT as int ==> (#[trigger] tiles@[i]@[j])
                        == wall_tile(),
            decreases MAP_WIDTH as int - x as int,
        {
            let mut col: Vec<Tile> = Vec::new();
            let mut y: usize = 0;
            while y < MAP_HEIGHT as usize
                invariant
                    y <= MAP_HEIGHT as int,
                    col@.len() == y as int,
                    forall|j: int| 0 <= j < y as int ==> (#[trigger] col@[j]) == wall_tile(),
                decreases MAP_HEIGHT as int - y as int,
            {
                col.push(Tile::wall());
                y = y + 1;
            }
            tiles.push(col);
            x = x + 1;
        }
        GameMap { tiles }
    }

    /// Reads the tile at `(x, y)`.
    pub fn tile_at(&self, x: i32, y: i32) -> (t: Tile)
        requires
            self.wf(),
            in_bounds(x as int, y as int),
        ensures
            t == self.grid()[x as int][y as int],
    {
        proof {
            assert(self.grid()[x as int] == self.tiles@[x as int]@);
            assert(self.grid()[x as int].len() == MAP_HEIGHT as int);
        }
        self.tiles[x as usize][y as usize]
    }

    /// Overwrites the tile at `(x, y)`, leaving every other cell as it was.
    pub fn set_tile(&mut self, x: i32, y: i32, t: Tile)
        requires
            old(self).wf(),
            in_bounds(x as int, y as int),
        ensures
            final(self).wf(),
            forall|i: int, j: int|
                in_bounds(i, j) ==> (#[trigger] final(self).grid()[i][j]) == (if i == x as int && j
                    == y as int {
                    t
                } else {
                    old(self).grid()[i][j]
                }),
    {
        proof {
            assert(self.grid()[x as int] == self.tiles@[x as int]@);
            assert(self.grid()[x as int].len() == MAP_HEIGHT as int);
        }
        self.tiles[x as usize][y as usize] = t;
        proof {
            assert forall|i: int, j: int| in_bounds(i, j) implies (#[trigger] self.grid()[i][j])
                == (if i == x as int && j == y as int {
                t
            } else {
                old(self).grid()[i][j]
            }) by {
                assert(self.grid()[i] == self.tiles@[i]@);
                assert(old(self).grid()[i] == old(self).tiles@[i]@);
            }
            assert forall|i: int| 0 <= i < self.grid().len() implies (#[trigger] self.grid()[i]).len()
                == MAP_HEIGHT as int by {
                assert(self.grid()[i] == self.tiles@[i]@);
                assert(old(self).grid()[i] == old(self).tiles@[i]@);
            }
        }
    }
}

/// The grid `g` with the interior of `room` carved to ground and every
/// other cell kept.
pub open spec fn carved_grid(g: Seq<Seq<Tile>>, room: Rect) -> Seq<Seq<Tile>> {
    Seq::new(
        g.len(),
        |x: int|
            Seq::new(
                g[x].len(),
                |y: int|
                    if rect_interior_contains(room, x, y) {
                        ground_tile()
                    } else {
                        g[x][y]
                    },
            ),
    )
}

/// Carving a rectangle a second time changes nothing: the cells inside
/// its interior are already ground, and no other cell is touched.
pub proof fn lemma_carve_idempotent(g: Seq<Seq<Tile>>, room: Rect)
    ensures
        carved_grid(carved_grid(g, room), room) == carved_grid(g, room),
{
    let once = carved_grid(g, room);
    let twice = carved_grid(once, room);
    assert forall|x: int| 0 <= x < twice.len() implies twice[x] =~= once[x] by {
        assert forall|y: int| 0 <= y < twice[x].len() implies twice[x][y] == once[x][y] by {
            if rect_interior_contains(room, x, y) {
                assert(twice[x][y] == ground_tile());
            }
        }
    }
    assert(twice =~= once);
}

/// Sets every cell strictly inside `room`'s border to ground.
pub fn create_room(room: Rect, map: &mut GameMap)
    requires
        old(map).wf(),
        0 <= room.x1 <= room.x2 <= MAP_WIDTH as int,
        0 <= room.y1 <= room.y2 <= MAP_HEIGHT as int,
    ensures
        final(map).wf(),
        final(map).grid() == carved_grid(old(map).grid(), room),
{
    let ghost target = carved_grid(old(map).grid(), room);
    let mut x: i32 = room.x1 + 1;
    while x < room.x2
        invariant
            map.wf(),
            0 <= room.x1 <= room.x2 <= MAP_WIDTH as int,
            0 <= room.y1 <= room.y2 <= MAP_HEIGHT as int,
            room.x1 + 1 <= x <= room.x2 + 1,
            forall|i: int, j: int|
                in_bounds(i, j) ==> (#[trigger] map.grid()[i][j]) == (if rect_interior_contains(
                    room,
                    i,
                    j,
                ) && i < x {
                    ground_tile()
                } else {
                    old(map).grid()[i][j]
                }),
        decreases room.x2 - x,
    {
        let mut y: i32 = room.y1 + 1;
        while y < room.y2
            invariant
                map.wf(),
                0 <= room.x1 <= room.x2 <= MAP_WIDTH as int,
                0 <= room.y1 <= room.y2 <= MAP_HEIGHT as int,
                room.x1 + 1 <= x < room.x2,
                room.y1 + 1 <= y <= room.y2 + 1,
                forall|i: int, j: int|
                    in_bounds(i, j) ==> (#[trigger] map.grid()[i][j]) == (if rect_interior_contains(
                        room,
                        i,
                        j,
                    ) && (i < x || (i == x && j < y)) {
                        ground_tile()
                    } else {
                        old(map).grid()[i][j]
                    }),
            decreases room.y2 - y,
        {
            map.set_tile(x, y, Tile::ground());
            y = y + 1;
        }
        x = x + 1;
    }
    proof {
        assert forall|i: int| 0 <= i < map.grid().len() implies map.grid()[i] =~= target[i] by {
            assert forall|j: int| 0 <= j < map.grid()[i].len() implies map.grid()[i][j] == target[i][j] by {
                assert(in_bounds(i, j));
            }
        }
        assert(map.grid() =~= target);
    }
}

/// Whether `(cx, cy)` lies on the horizontal span at row `y` between
/// `x1` and `x2`, inclusive and in either order.
pub open spec fn on_h_tunnel(x1: int, x2: int, y: int, cx: int, cy: int) -> bool {
    &&& cy == y
    &&& (if x1 <= x2 {
        x1 <= cx <= x2
    } else {
        x2 <= cx <= x1
    })
}

/// The grid `g` with the row-`y` span between `x1` and `x2` carved to
/// ground and every other cell kept.
pub open spec fn h_tunneled_grid(g: Seq<Seq<Tile>>, x1: int, x2: int, y: int) -> Seq<Seq<Tile>> {
    Seq::new(
        g.len(),
        |cx: int|
            Seq::new(
                g[cx].len(),
                |cy: int|
                    if on_h_tunnel(x1, x2, y, cx, cy) {
                        ground_tile()
                    } else {
                        g[cx][cy]
                    },
            ),
    )
}

/// Carves a straight horizontal tunnel at row `y`, covering every
/// column from `x1` to `x2` inclusive, whichever order they come in.
pub fn create_h_tunnel(x1: i32, x2: i32, y: i32, map: &mut GameMap)
    requires
        old(map).wf(),
        0 <= x1 < MAP_WIDTH as int,
        0 <= x2 < MAP_WIDTH as int,
        0 <= y < MAP_HEIGHT as int,
    ensures
        final(map).wf(),
        final(map).grid() == h_tunneled_grid(old(map).grid(), x1 as int, x2 as int, y as int),
{
    let ghost target = h_tunneled_grid(old(map).grid(), x1 as int, x2 as int, y as int);
    let lo: i32 = if x1 < x2 { x1 } else { x2 };
    let hi: i32 = if x1 < x2 { x2 } else { x1 };
    let mut x: i32 = lo;
    while x < hi + 1
        invariant
            map.wf(),
            0 <= lo <= hi < MAP_WIDTH as int,
            0 <= y < MAP_HEIGHT as int,
            lo <= x <= hi + 1,
            lo as int == (if x1 <= x2 { x1 as int } else { x2 as int }),
            hi as int == (if x1 <= x2 { x2 as int } else { x1 as int }),
            forall|i: int, j: int|
                in_bounds(i, j) ==> (#[trigger] map.grid()[i][j]) == (if on_h_tunnel(
                    x1 as int,
                    x2 as int,
                    y as int,
                    i,
                    j,
                ) && i < x {
                    ground_tile()
                } else {
                    old(map).grid()[i][j]
                }),
        decreases hi + 1 - x,
    {
        map.set_tile(x, y, Tile::ground());
        x = x + 1;
    }
    proof {
        assert forall|i: int| 0 <= i < map.grid().len() implies map.grid()[i] =~= target[i] by {
            assert forall|j: int| 0 <= j < map.grid()[i].len() implies map.grid()[i][j] == target[i][j] by {
                assert(in_bounds(i, j));
            }
        }
        assert(map.grid() =~= target);
    }
}

/// The first room carved into the grid: origin `(20, 15)`, `10` wide
/// and `15` tall, so its open interior is `21..30` by `16..30`.
pub open spec fn first_room() -> Rect {
    Rect { x1: 20, y1: 15, x2: 30, y2: 30 }
}

/// The second room carved into the grid: origin `(50, 15)`, `10` wide
/// and `15` tall, so its open interior is `51..60` by `16..30`.
pub open spec fn second_room() -> Rect {
    Rect { x1: 50, y1: 15, x2: 60, y2: 30 }
}

/// Whether generation leaves the cell at `(x, y)` open: inside either
/// room's interior, or on the tunnel joining them along row `23`.
pub open spec fn map_is_carved_at(x: int, y: int) -> bool {
    ||| rect_interior_contains(first_room(), x, y)
    ||| rect_interior_contains(second_room(), x, y)
    ||| on_h_tunnel(25, 55, 23, x, y)
}

/// Generates the fixed starting map: an all-wall grid with the two
/// rooms carved out and a horizontal tunnel connecting them. Every
/// cell inside a room interior or on the tunnel is ground; every other
/// cell is wall.
pub fn make_map() -> (m: GameMap)
    ensures
        m.wf(),
        forall|x: int, y: int|
            in_bounds(x, y) ==> (#[trigger] m.grid()[x][y]) == (if map_is_carved_at(x, y) {
                ground_tile()
            } else {
                wall_tile()
            }),
{
    let mut map = GameMap::new();

    let room1 = Rect::new(20, 15, 10, 15);
    let room2 = Rect::new(50, 15, 10, 15);
    create_room(room1, &mut map);
    create_room(room2, &mut map);
    create_h_tunnel(25, 55, 23, &mut map);

    proof {
        assert(room1 == first_room());
        assert(room2 == second_room());
    }
    map
}

/// Whether `(cx, cy)` lies on the vertical span at column `x` between
/// `y1` and `y2`, inclusive and in either order.
pub open spec fn on_v_tunnel(y1: int, y2: int, x: int, cx: int, cy: int) -> bool {
    &&& cx == x
    &&& (if y1 <= y2 {
        y1 <= cy <= y2
    } else {
        y2 <= cy <= y1
    })
}

/// The grid `g` with the column-`x` span between `y1` and `y2` carved
/// to ground and every other cell kept.
pub open spec fn v_tunneled_grid(g: Seq<Seq<Tile>>, y1: int, y2: int, x: int) -> Seq<Seq<Tile>> {
    Seq::new(
        g.len(),
        |cx: int|
            Seq::new(
                g[cx].len(),
                |cy: int|
                    if on_v_tunnel(y1, y2, x, cx, cy) {
                        ground_tile()
                    } else {
                        g[cx][cy]
                    },
            ),
    )
}

/// Carves a straight vertical tunnel at column `x`, covering every row
/// from `y1` to `y2` inclusive, whichever order they come in.
pub fn create_v_tunnel(y1: i32, y2: i32, x: i32, map: &mut GameMap)
    requires
        old(map).wf(),
        0 <= y1 < MAP_HEIGHT as int,
        0 <= y2 < MAP_HEIGHT as int,
        0 <= x < MAP_WIDTH as int,
    ensures
        final(map).wf(),
        final(map).grid() == v_tunneled_grid(old(map).grid(), y1 as int, y2 as int, x as int),
{
    let ghost target = v_tunneled_grid(old(map).grid(), y1 as int, y2 as int, x as int);
    let lo: i32 = if y1 < y2 { y1 } else { y2 };
    let hi: i32 = if y1 < y2 { y2 } else { y1 };
    let mut y: i32 = lo;
    while y < hi + 1
        invariant
            map.wf(),
            0 <= lo <= hi < MAP_HEIGHT as int,
            0 <= x < MAP_WIDTH as int,
            lo <= y <= hi + 1,
            lo as int == (if y1 <= y2 { y1 as int } else { y2 as int }),
            hi as int == (if y1 <= y2 { y2 as int } else { y1 as int }),
            forall|i: int, j: int|
                in_bounds(i, j) ==> (#[trigger] map.grid()[i][j]) == (if on_v_tunnel(
                    y1 as int,
                    y2 as int,
                    x as int,
                    i,
                    j,
                ) && j < y {
                    ground_tile()
                } else {
                    old(map).grid()[i][j]
                }),
        decreases hi + 1 - y,
    {
        map.set_tile(x, y, Tile::ground());
        y = y + 1;
    }
    proof {
        assert forall|i: int| 0 <= i < map.grid().len() implies map.grid()[i] =~= target[i] by {
            assert forall|j: int| 0 <= j < map.grid()[i].len() implies map.grid()[i][j] == target[i][j] by {
                assert(in_bounds(i, j));
            }
        }
        assert(map.grid() =~= target);
    }
}

} // verus!
