//! A small roguelike core: a tile grid with carved rooms and tunnels,
//! movable entities with collision checks, an offscreen drawing surface,
//! and a keyboard dispatch step. Windowing and input live outside the
//! library; everything here is pure logic over plain values.
use vstd::prelude::*;

mod entity;
mod input;
mod mapgen;
mod rect;
mod render;
mod tile;

pub use entity::Entity;
pub use input::fullscreen_after;
pub use input::handle_keys;
pub use input::key_dx;
pub use input::key_dy;
pub use input::KeyCode;
pub use input::KeyPress;
pub use input::lemma_fullscreen_toggle_involution;
pub use input::toggles_fullscreen;
pub use mapgen::carved_grid;
pub use mapgen::create_h_tunnel;
pub use mapgen::create_room;
pub use mapgen::create_v_tunnel;
pub use mapgen::first_room;
pub use mapgen::GameMap;
pub use mapgen::grid_wf;
pub use mapgen::h_tunneled_grid;
pub use mapgen::lemma_carve_idempotent;
pub use mapgen::make_map;
pub use mapgen::map_is_carved_at;
pub use mapgen::on_h_tunnel;
pub use mapgen::on_v_tunnel;
pub use mapgen::second_room;
pub use mapgen::v_tunneled_grid;
pub use rect::Rect;
pub use rect::rect_interior_contains;
pub use render::background_for;
pub use render::black_color;
pub use render::blank_cell;
pub use render::Cell;
pub use render::clear_entities;
pub use render::dark_ground_color;
pub use render::dark_wall_color;
pub use render::drawn_fg;
pub use render::drawn_glyph;
pub use render::entity_at;
pub use render::last_entity_at;
pub use render::OffscreenBuffer;
pub use render::render_all;
pub use render::white_color;
pub use tile::ground_tile;
pub use tile::Rgb;
pub use tile::Tile;
pub use tile::wall_tile;


verus! {

/// Width of the tile grid, in cells.
pub const MAP_WIDTH: i32 = 80;

/// Height of the tile grid, in cells.
pub const MAP_HEIGHT: i32 = 45;

/// Whether a cell coordinate lies on the grid.
pub open spec fn in_bounds(x: int, y: int) -> bool {
    &&& 0 <= x < MAP_WIDTH as int
    &&& 0 <= y < MAP_HEIGHT as int
}

} // verus!
