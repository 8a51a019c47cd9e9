use dungeon_gen::carve::{create_h_tunnel, create_room, create_v_tunnel};
use dungeon_gen::dungeon::{add_room, generate_map, place_room, room_fits};
use dungeon_gen::grid::{MapError, Tile, TileGrid};
use dungeon_gen::object::{can_move, Color, Direction, Game, Object};
use dungeon_gen::rect::Rect;
use rand::rngs::StdRng;
use rand::SeedableRng;

fn floor_count(g: &TileGrid) -> usize {
    let mut n = 0;
    for y in 0..g.height() {
        for x in 0..g.width() {
            if !g.is_blocked(x, y) {
                n += 1;
            }
        }
    }
    n
}

fn generate(seed: u64, w: i32, h: i32, min: i32, max: i32, attempts: u32) -> (TileGrid, Vec<Rect>) {
    let mut rng = StdRng::seed_from_u64(seed);
    generate_map(w, h, min, max, attempts, &mut rng).unwrap()
}

fn run_is_floor(g: &TileGrid, x1: i32, x2: i32, y: i32) -> bool {
    (x1.min(x2)..=x1.max(x2)).all(|x| !g.is_blocked(x, y))
}

fn col_is_floor(g: &TileGrid, y1: i32, y2: i32, x: i32) -> bool {
    (y1.min(y2)..=y1.max(y2)).all(|y| !g.is_blocked(x, y))
}

#[test]
fn tiles_have_matching_flags() {
    assert_eq!(Tile::empty(), Tile { blocked: false, block_sight: false });
    assert_eq!(Tile::wall(), Tile { blocked: true, block_sight: true });
}

#[test]
fn new_grid_is_all_walls() {
    let g = TileGrid::new(4, 3).unwrap();
    assert_eq!(g.width(), 4);
    assert_eq!(g.height(), 3);
    assert_eq!(floor_count(&g), 0);
    assert_eq!(g.get(3, 2), Tile::wall());
    assert!(g.blocks_sight(0, 0));
}

#[test]
fn new_grid_rejects_non_positive_dimensions() {
    assert_eq!(TileGrid::new(0, 5).unwrap_err(), MapError::InvalidDimensions);
    assert_eq!(TileGrid::new(5, -1).unwrap_err(), MapError::InvalidDimensions);
}

#[test]
fn set_floor_marks_one_cell() {
    let mut g = TileGrid::new(5, 4).unwrap();
    g.set_floor(3, 2);
    assert!(!g.is_blocked(3, 2));
    assert!(!g.blocks_sight(3, 2));
    assert_eq!(g.get(3, 2), Tile::empty());
    assert!(g.is_blocked(2, 3));
    assert_eq!(floor_count(&g), 1);
}

#[test]
fn set_floor_twice_equals_once() {
    let mut once = TileGrid::new(6, 6).unwrap();
    once.set_floor(2, 4);
    let mut twice = TileGrid::new(6, 6).unwrap();
    twice.set_floor(2, 4);
    twice.set_floor(2, 4);
    assert_eq!(once, twice);
}

#[test]
fn rect_new_and_center() {
    let r = Rect::new(2, 3, 6, 5);
    assert_eq!(r, Rect { x1: 2, y1: 3, x2: 8, y2: 8 });
    assert_eq!(r.center(), (5, 5));
    assert_eq!(Rect::new(0, 0, 3, 3).center(), (1, 1));
    assert_eq!(Rect { x1: -3, y1: -1, x2: 0, y2: 0 }.center(), (-1, 0));
}

#[test]
fn rect_touching_edges_intersect() {
    let a = Rect::new(0, 0, 4, 4);
    let b = Rect::new(4, 0, 3, 3);
    let c = Rect::new(5, 5, 2, 2);
    assert!(a.intersects_with(&b));
    assert!(b.intersects_with(&a));
    assert!(!a.intersects_with(&c));
    assert!(!b.intersects_with(&c));
    assert!(a.intersects_with(&a));
}

#[test]
fn room_carves_only_its_interior() {
    let mut g = TileGrid::new(10, 10).unwrap();
    create_room(Rect::new(1, 2, 4, 3), &mut g);
    // interior is x in 2..=4, y in 3..=4
    assert_eq!(floor_count(&g), 6);
    assert!(!g.is_blocked(2, 3));
    assert!(!g.is_blocked(4, 4));
    assert!(g.is_blocked(1, 3));
    assert!(g.is_blocked(5, 3));
    assert!(g.is_blocked(3, 2));
    assert!(g.is_blocked(3, 5));
}

#[test]
fn tunnels_include_both_ends() {
    let mut g = TileGrid::new(10, 10).unwrap();
    create_h_tunnel(7, 2, 4, &mut g);
    assert_eq!(floor_count(&g), 6);
    assert!(run_is_floor(&g, 2, 7, 4));
    assert!(g.is_blocked(1, 4) && g.is_blocked(8, 4));
    create_v_tunnel(1, 3, 9, &mut g);
    assert_eq!(floor_count(&g), 9);
    assert!(col_is_floor(&g, 1, 3, 9));
    assert!(g.is_blocked(9, 0) && g.is_blocked(9, 4));
}

#[test]
fn room_fits_checks_every_accepted_room() {
    let rooms = vec![Rect::new(0, 0, 3, 3), Rect::new(10, 10, 3, 3)];
    assert!(room_fits(&Rect::new(5, 5, 2, 2), &rooms));
    assert!(!room_fits(&Rect::new(13, 13, 2, 2), &rooms));
    assert!(!room_fits(&Rect::new(3, 0, 2, 2), &rooms));
    assert!(room_fits(&Rect::new(3, 0, 2, 2), &Vec::new()));
}

#[test]
fn add_room_joins_centers_with_chosen_corner() {
    let mut g = TileGrid::new(20, 20).unwrap();
    let mut rooms = Vec::new();
    add_room(&mut g, &mut rooms, Rect::new(1, 1, 4, 4), true);
    assert_eq!(floor_count(&g), 9);
    add_room(&mut g, &mut rooms, Rect::new(10, 12, 4, 4), true);
    assert_eq!(rooms.len(), 2);
    // centers (3, 3) and (12, 14); corner at (12, 3)
    assert!(run_is_floor(&g, 3, 12, 3));
    assert!(col_is_floor(&g, 3, 14, 12));
    assert!(g.is_blocked(3, 14));

    let mut g2 = TileGrid::new(20, 20).unwrap();
    let mut rooms2 = Vec::new();
    add_room(&mut g2, &mut rooms2, Rect::new(1, 1, 4, 4), false);
    add_room(&mut g2, &mut rooms2, Rect::new(10, 12, 4, 4), false);
    // corner at (3, 14)
    assert!(run_is_floor(&g2, 3, 12, 14));
    assert!(col_is_floor(&g2, 3, 14, 3));
    assert!(g2.is_blocked(12, 3));
}

#[test]
fn movement_consults_the_grid() {
    let mut g = TileGrid::new(7, 7).unwrap();
    create_room(Rect::new(0, 0, 6, 6), &mut g);
    assert!(can_move(&g, 2, 2, 0, -1));
    assert!(!can_move(&g, 1, 1, -1, 0));

    let game = Game { map: g };
    let white = Color { r: 255, g: 255, b: 255 };
    let mut player = Object::new(2, 2, '@', white);
    player.move_by(0, -1, &game);
    assert_eq!((player.x, player.y), (2, 1));
    player.move_by(0, -1, &game);
    assert_eq!((player.x, player.y), (2, 1));
    assert_eq!(player.glyph, '@');
    assert_eq!(player.color, white);
}

#[test]
fn directions_are_unit_steps() {
    assert_eq!(Direction::Up.delta(), (0, -1));
    assert_eq!(Direction::Down.delta(), (0, 1));
    assert_eq!(Direction::Left.delta(), (-1, 0));
    assert_eq!(Direction::Right.delta(), (1, 0));
}

#[test]
fn generation_rejects_bad_parameters() {
    let mut rng = StdRng::seed_from_u64(1);
    assert_eq!(generate_map(0, 10, 2, 3, 5, &mut rng).unwrap_err(), MapError::InvalidDimensions);
    assert_eq!(generate_map(10, 10, 0, 3, 5, &mut rng).unwrap_err(), MapError::InvalidRoomSize);
    assert_eq!(generate_map(10, 10, 4, 3, 5, &mut rng).unwrap_err(), MapError::InvalidRoomSize);
    assert_eq!(generate_map(10, 10, 2, 10, 5, &mut rng).unwrap_err(), MapError::RoomTooLarge);
    assert_eq!(generate_map(20, 8, 2, 8, 5, &mut rng).unwrap_err(), MapError::RoomTooLarge);
    assert!(generate_map(10, 10, 2, 9, 5, &mut rng).is_ok());
}

#[test]
fn zero_attempts_leave_all_walls() {
    let (g, rooms) = generate(5, 30, 20, 3, 6, 0);
    assert!(rooms.is_empty());
    assert_eq!(floor_count(&g), 0);
}

#[test]
fn generation_is_deterministic_for_a_seed() {
    let a = generate(42, 80, 45, 6, 10, 30);
    let b = generate(42, 80, 45, 6, 10, 30);
    assert_eq!(a, b);
}

#[test]
fn generated_rooms_are_sized_placed_and_disjoint() {
    for seed in 0..20u64 {
        let (g, rooms) = generate(seed, 80, 45, 6, 10, 30);
        assert!(rooms.len() > 1 && rooms.len() <= 30);
        for (i, a) in rooms.iter().enumerate() {
            let (w, h) = (a.x2 - a.x1, a.y2 - a.y1);
            assert!((6..=10).contains(&w) && (6..=10).contains(&h));
            assert!(a.x1 >= 0 && a.y1 >= 0 && a.x2 < g.width() && a.y2 < g.height());
            for (j, b) in rooms.iter().enumerate() {
                if i != j {
                    assert!(!a.intersects_with(b));
                }
            }
        }
    }
}

#[test]
fn generated_rooms_vary_in_size_and_place() {
    let (_, rooms) = generate(3, 80, 45, 6, 10, 30);
    assert!(rooms.iter().any(|r| r.x2 - r.x1 != 6 || r.y2 - r.y1 != 6));
    assert!(rooms.iter().any(|r| r.x1 != 0 || r.y1 != 0));
}

#[test]
fn generated_room_interiors_are_floor() {
    for seed in 0..20u64 {
        let (g, rooms) = generate(seed, 80, 45, 6, 10, 30);
        for r in &rooms {
            for x in r.x1 + 1..r.x2 {
                for y in r.y1 + 1..r.y2 {
                    assert!(!g.is_blocked(x, y));
                }
            }
        }
    }
}

#[test]
fn generated_corridors_join_consecutive_rooms() {
    for seed in 0..20u64 {
        let (g, rooms) = generate(seed, 80, 45, 6, 10, 30);
        for pair in rooms.windows(2) {
            let (px, py) = pair[0].center();
            let (nx, ny) = pair[1].center();
            let horizontal_first = run_is_floor(&g, px, nx, py) && col_is_floor(&g, py, ny, nx);
            let vertical_first = run_is_floor(&g, px, nx, ny) && col_is_floor(&g, py, ny, px);
            assert!(horizontal_first || vertical_first);
        }
    }
}

#[test]
fn generated_border_is_wall() {
    for seed in 0..20u64 {
        let (g, _) = generate(seed, 80, 45, 6, 10, 30);
        for x in 0..80 {
            assert!(g.is_blocked(x, 0) && g.is_blocked(x, 44));
        }
        for y in 0..45 {
            assert!(g.is_blocked(0, y) && g.is_blocked(79, y));
        }
    }
}

#[test]
fn tight_grid_holds_a_single_room() {
    for seed in 0..20u64 {
        let (g, rooms) = generate(seed, 6, 6, 4, 4, 50);
        assert_eq!(rooms.len(), 1);
        assert_eq!(floor_count(&g), 9);
    }
}

#[test]
fn place_room_keeps_only_fitting_candidates() {
    let mut g = TileGrid::new(20, 20).unwrap();
    let mut rooms = Vec::new();
    assert!(place_room(&mut g, &mut rooms, Rect::new(1, 1, 4, 4), true));
    assert_eq!(rooms, vec![Rect::new(1, 1, 4, 4)]);
    assert_eq!(floor_count(&g), 9);

    // touches the first room's right edge: discarded, nothing changes
    let before = floor_count(&g);
    assert!(!place_room(&mut g, &mut rooms, Rect::new(5, 1, 4, 4), false));
    assert_eq!(rooms.len(), 1);
    assert_eq!(floor_count(&g), before);

    assert!(place_room(&mut g, &mut rooms, Rect::new(10, 12, 4, 4), true));
    assert_eq!(rooms.len(), 2);
    assert!(run_is_floor(&g, 3, 12, 3));
    assert!(col_is_floor(&g, 3, 14, 12));
}

#[test]
fn carving_a_room_twice_equals_once() {
    let mut once = TileGrid::new(9, 9).unwrap();
    create_room(Rect::new(1, 2, 5, 4), &mut once);
    let mut twice = TileGrid::new(9, 9).unwrap();
    create_room(Rect::new(1, 2, 5, 4), &mut twice);
    create_room(Rect::new(1, 2, 5, 4), &mut twice);
    assert_eq!(once, twice);
}

#[test]
fn one_attempt_always_keeps_its_room() {
    for seed in 0..10u64 {
        let (g, rooms) = generate(seed, 30, 20, 3, 6, 1);
        assert_eq!(rooms.len(), 1);
        let r = rooms[0];
        assert_eq!(floor_count(&g), ((r.x2 - r.x1 - 1) * (r.y2 - r.y1 - 1)) as usize);
    }
}
