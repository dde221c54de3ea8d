use rustnruin::Entity;
use rustnruin::GameMap;
use rustnruin::KeyCode;
use rustnruin::KeyPress;
use rustnruin::OffscreenBuffer;
use rustnruin::Rect;
use rustnruin::Rgb;
use rustnruin::Tile;
use rustnruin::MAP_HEIGHT;
use rustnruin::MAP_WIDTH;
use rustnruin::clear_entities;
use rustnruin::create_h_tunnel;
use rustnruin::create_room;
use rustnruin::create_v_tunnel;
use rustnruin::handle_keys;
use rustnruin::make_map;
use rustnruin::render_all;

fn white() -> Rgb {
    Rgb { r: 255, g: 255, b: 255 }
}

fn room_one() -> Rect {
    Rect::new(20, 15, 10, 15)
}


/// The cells that generation is expected to leave open.
fn expected_carved(x: i32, y: i32) -> bool {
    let in_first = 21 <= x && x < 30 && 16 <= y && y < 30;
    let in_second = 51 <= x && x < 60 && 16 <= y && y < 30;
    let on_tunnel = y == 23 && 25 <= x && x <= 55;
    in_first || in_second || on_tunnel
}

#[test]
fn tile_constructors() {
    let g = Tile::ground();
    assert!(!g.blocked);
    assert!(!g.block_sight);
    let w = Tile::wall();
    assert!(w.blocked);
    assert!(w.block_sight);
}

#[test]
fn rect_corners() {
    let r = Rect::new(20, 15, 10, 15);
    assert_eq!(r.x1, 20);
    assert_eq!(r.y1, 15);
    assert_eq!(r.x2, 30);
    assert_eq!(r.y2, 30);
}

#[test]
fn generated_map_is_wall_except_carvings() {
    let m = make_map();
    for x in 0..MAP_WIDTH {
        for y in 0..MAP_HEIGHT {
            let t = m.tile_at(x, y);
            if expected_carved(x, y) {
                assert!(!t.blocked, "({}, {}) should be open", x, y);
                assert!(!t.block_sight);
            } else {
                assert!(t.blocked, "({}, {}) should be wall", x, y);
                assert!(t.block_sight);
            }
        }
    }
}

#[test]
fn carving_twice_equals_carving_once() {
    let mut once = GameMap::new();
    create_room(room_one(), &mut once);
    let mut twice = GameMap::new();
    create_room(room_one(), &mut twice);
    create_room(room_one(), &mut twice);
    for x in 0..MAP_WIDTH {
        for y in 0..MAP_HEIGHT {
            assert_eq!(once.tile_at(x, y), twice.tile_at(x, y));
        }
    }
}

#[test]
fn tunnels_carve_inclusive_spans_either_direction() {
    let mut a = GameMap::new();
    create_h_tunnel(25, 55, 23, &mut a);
    let mut b = GameMap::new();
    create_h_tunnel(55, 25, 23, &mut b);
    for x in 0..MAP_WIDTH {
        for y in 0..MAP_HEIGHT {
            assert_eq!(a.tile_at(x, y), b.tile_at(x, y));
            let on_span = y == 23 && (25..=55).contains(&x);
            assert_eq!(!a.tile_at(x, y).blocked, on_span);
        }
    }
    let mut c = GameMap::new();
    create_v_tunnel(30, 10, 40, &mut c);
    for x in 0..MAP_WIDTH {
        for y in 0..MAP_HEIGHT {
            let on_span = x == 40 && (10..=30).contains(&y);
            assert_eq!(!c.tile_at(x, y).blocked, on_span);
        }
    }
}

#[test]
fn move_into_wall_is_rejected() {
    let m = make_map();
    let mut e = Entity::new(21, 16, '@', white());
    e.move_by(-1, 0, &m);
    assert_eq!((e.x, e.y), (21, 16));
    e.move_by(0, -1, &m);
    assert_eq!((e.x, e.y), (21, 16));
}

#[test]
fn move_into_open_ground_applies_delta() {
    let m = make_map();
    let mut e = Entity::new(25, 23, '@', white());
    e.move_by(1, 0, &m);
    assert_eq!((e.x, e.y), (26, 23));
    e.move_by(0, -1, &m);
    assert_eq!((e.x, e.y), (26, 22));
}

#[test]
fn unchecked_move_ignores_tiles() {
    let mut e = Entity::new(21, 16, 'O', white());
    e.move_by_unchecked(-1, 0);
    assert_eq!((e.x, e.y), (20, 16));
    e.move_by_unchecked(0, -16);
    assert_eq!((e.x, e.y), (20, 0));
}

#[test]
fn room_border_blocks_until_tunnel_is_carved() {
    let mut m = GameMap::new();
    create_room(room_one(), &mut m);
    let mut e = Entity::new(25, 23, '@', white());
    for _ in 0..10 {
        e.move_by(1, 0, &m);
    }
    assert_eq!((e.x, e.y), (29, 23));
}

#[test]
fn tunnel_row_lets_entity_cross_between_rooms() {
    let m = make_map();
    let mut e = Entity::new(25, 23, '@', white());
    for _ in 0..30 {
        e.move_by(1, 0, &m);
    }
    assert_eq!((e.x, e.y), (55, 23));
}

#[test]
fn escape_signals_quit_and_nothing_else_does() {
    let m = make_map();
    let mut fs = false;
    let mut e = Entity::new(25, 23, '@', white());
    let esc = KeyPress { code: KeyCode::Escape, alt: false };
    assert!(handle_keys(esc, &mut e, &mut fs, &m));
    let esc_alt = KeyPress { code: KeyCode::Escape, alt: true };
    assert!(handle_keys(esc_alt, &mut e, &mut fs, &m));
    for code in [
        KeyCode::Up,
        KeyCode::Down,
        KeyCode::Left,
        KeyCode::Right,
        KeyCode::Enter,
        KeyCode::Other,
    ] {
        let mut p = Entity::new(25, 23, '@', white());
        assert!(!handle_keys(KeyPress { code, alt: false }, &mut p, &mut fs, &m));
        let mut q = Entity::new(25, 23, '@', white());
        assert!(!handle_keys(KeyPress { code, alt: true }, &mut q, &mut fs, &m));
    }
}

#[test]
fn arrow_keys_move_the_player() {
    let m = make_map();
    let mut fs = false;
    let mut e = Entity::new(25, 23, '@', white());
    handle_keys(KeyPress { code: KeyCode::Right, alt: false }, &mut e, &mut fs, &m);
    assert_eq!((e.x, e.y), (26, 23));
    handle_keys(KeyPress { code: KeyCode::Up, alt: false }, &mut e, &mut fs, &m);
    assert_eq!((e.x, e.y), (26, 22));
    handle_keys(KeyPress { code: KeyCode::Down, alt: false }, &mut e, &mut fs, &m);
    assert_eq!((e.x, e.y), (26, 23));
    handle_keys(KeyPress { code: KeyCode::Left, alt: false }, &mut e, &mut fs, &m);
    assert_eq!((e.x, e.y), (25, 23));
}

#[test]
fn alt_enter_toggles_fullscreen_twice_restores_it() {
    let m = make_map();
    let mut e = Entity::new(25, 23, '@', white());
    let toggle = KeyPress { code: KeyCode::Enter, alt: true };
    let mut fs = false;
    assert!(!handle_keys(toggle, &mut e, &mut fs, &m));
    assert!(fs);
    assert!(!handle_keys(toggle, &mut e, &mut fs, &m));
    assert!(!fs);
    let plain_enter = KeyPress { code: KeyCode::Enter, alt: false };
    assert!(!handle_keys(plain_enter, &mut e, &mut fs, &m));
    assert!(!fs);
}

#[test]
fn fresh_buffer_is_blank() {
    let con = OffscreenBuffer::new();
    for x in 0..MAP_WIDTH {
        for y in 0..MAP_HEIGHT {
            let c = con.cell_at(x, y);
            assert_eq!(c.glyph, ' ');
            assert_eq!(c.fg, white());
            assert_eq!(c.bg, Rgb { r: 0, g: 0, b: 0 });
        }
    }
}

#[test]
fn draw_writes_glyph_and_color() {
    let mut con = OffscreenBuffer::new();
    let e = Entity::new(10, 10, '@', Rgb { r: 255, g: 255, b: 0 });
    e.draw(&mut con);
    let c = con.cell_at(10, 10);
    assert_eq!(c.glyph, '@');
    assert_eq!(c.fg, Rgb { r: 255, g: 255, b: 0 });
    assert_eq!(con.cell_at(10, 11).glyph, ' ');
}

#[test]
fn render_all_paints_backgrounds_and_entities() {
    let m = make_map();
    let mut con = OffscreenBuffer::new();
    let player = Entity::new(25, 23, '@', white());
    let npc = Entity::new(35, 25, 'O', Rgb { r: 255, g: 255, b: 0 });
    let entities = vec![player, npc];
    render_all(&mut con, &entities, &m);

    let dark_wall = Rgb { r: 0, g: 0, b: 100 };
    let dark_ground = Rgb { r: 50, g: 50, b: 150 };
    for x in 0..MAP_WIDTH {
        for y in 0..MAP_HEIGHT {
            let expected = if m.tile_at(x, y).block_sight { dark_wall } else { dark_ground };
            assert_eq!(con.cell_at(x, y).bg, expected);
        }
    }
    assert_eq!(con.cell_at(25, 23).glyph, '@');
    assert_eq!(con.cell_at(25, 23).fg, white());
    assert_eq!(con.cell_at(35, 25).glyph, 'O');
    assert_eq!(con.cell_at(35, 25).fg, Rgb { r: 255, g: 255, b: 0 });
    assert_eq!(con.cell_at(40, 40).glyph, ' ');
}

#[test]
fn later_entity_wins_a_shared_cell() {
    let m = make_map();
    let mut con = OffscreenBuffer::new();
    let first = Entity::new(25, 23, '@', white());
    let second = Entity::new(25, 23, 'O', Rgb { r: 255, g: 255, b: 0 });
    let entities = vec![first, second];
    render_all(&mut con, &entities, &m);
    assert_eq!(con.cell_at(25, 23).glyph, 'O');
    assert_eq!(con.cell_at(25, 23).fg, Rgb { r: 255, g: 255, b: 0 });
}

#[test]
fn clear_entities_blanks_their_cells_only() {
    let m = make_map();
    let mut con = OffscreenBuffer::new();
    let player = Entity::new(25, 23, '@', white());
    let npc = Entity::new(35, 25, 'O', Rgb { r: 255, g: 255, b: 0 });
    let entities = vec![player, npc];
    render_all(&mut con, &entities, &m);
    clear_entities(&mut con, &entities);
    assert_eq!(con.cell_at(25, 23).glyph, ' ');
    assert_eq!(con.cell_at(35, 25).glyph, ' ');
    // backgrounds survive the clearing
    assert_eq!(con.cell_at(25, 23).bg, Rgb { r: 50, g: 50, b: 150 });
    assert_eq!(con.cell_at(0, 0).bg, Rgb { r: 0, g: 0, b: 100 });
}

#[test]
fn set_tile_changes_one_cell() {
    let mut m = GameMap::new();
    m.set_tile(3, 4, Tile::ground());
    assert!(!m.tile_at(3, 4).blocked);
    assert!(m.tile_at(3, 5).blocked);
    assert!(m.tile_at(4, 4).blocked);
}

#[test]
fn entity_new_stores_fields() {
    let e = Entity::new(5, 6, 'Z', Rgb { r: 1, g: 2, b: 3 });
    assert_eq!(e.x, 5);
    assert_eq!(e.y, 6);
    assert_eq!(e.glyph, 'Z');
    assert_eq!(e.color, Rgb { r: 1, g: 2, b: 3 });
}

#[test]
fn degenerate_room_carves_nothing() {
    let mut m = GameMap::new();
    create_room(Rect::new(5, 5, 0, 0), &mut m);
    for x in 0..MAP_WIDTH {
        for y in 0..MAP_HEIGHT {
            assert!(m.tile_at(x, y).blocked);
        }
    }
}

#[test]
fn single_cell_tunnels() {
    let mut m = GameMap::new();
    create_h_tunnel(7, 7, 3, &mut m);
    create_v_tunnel(9, 9, 12, &mut m);
    for x in 0..MAP_WIDTH {
        for y in 0..MAP_HEIGHT {
            let open = (x, y) == (7, 3) || (x, y) == (12, 9);
            assert_eq!(!m.tile_at(x, y).blocked, open);
        }
    }
}

#[test]
fn zero_delta_move_stays_put() {
    let m = make_map();
    let mut e = Entity::new(25, 23, '@', white());
    e.move_by(0, 0, &m);
    assert_eq!((e.x, e.y), (25, 23));
}
