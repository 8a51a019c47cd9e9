use vstd::prelude::*;
use rand::rngs::StdRng;
use crate::carve::{corridor, create_h_tunnel, create_room, create_v_tunnel, interior};
use crate::grid::{Cell, GridView, MapError, TileGrid};
use crate::random::{coin_flip, random_in};
use crate::rect::{Rect, center_of, rects_intersect};

verus! {

/// The room and its border lie inside a `width` by `height` grid.
pub open spec fn room_in_grid(r: Rect, width: int, height: int) -> bool {
    0 <= r.x1 < r.x2 < width && 0 <= r.y1 < r.y2 < height
}

/// The room's width and height are both within `min..=max`.
pub open spec fn room_sized(r: Rect, min: int, max: int) -> bool {
    min <= r.x2 - r.x1 <= max && min <= r.y2 - r.y1 <= max
}

/// The candidate overlaps none of the rooms.
pub open spec fn fits_among(candidate: Rect, rooms: Seq<Rect>) -> bool {
    forall|i: int| 0 <= i < rooms.len() ==> !rects_intersect(candidate, #[trigger] rooms[i])
}

/// No two distinct rooms of the list overlap.
pub open spec fn pairwise_disjoint(rooms: Seq<Rect>) -> bool {
    forall|i: int, j: int|
        0 <= i < rooms.len() && 0 <= j < rooms.len() && i != j ==> !rects_intersect(
            #[trigger] rooms[i],
            #[trigger] rooms[j],
        )
}

/// The corridor that joins room `i` to the room before it, if any.
pub open spec fn joining(rooms: Seq<Rect>, coins: Seq<bool>, i: int) -> Set<Cell> {
    if i == 0 {
        Set::empty()
    } else {
        corridor(rooms[i - 1], rooms[i], coins[i])
    }
}

/// The cells carved by accepting `rooms` in order: every room's interior,
/// and the corridor from each room's center to the previous one's, shaped
/// by the coin flip with the same position.
pub open spec fn carved(rooms: Seq<Rect>, coins: Seq<bool>) -> Set<Cell>
    decreases rooms.len(),
{
    if rooms.len() == 0 {
        Set::empty()
    } else {
        let n = rooms.len() - 1;
        carved(rooms.drop_last(), coins.drop_last()).union(interior(rooms[n])).union(
            joining(rooms, coins, n),
        )
    }
}

/// The rooms kept from a sequence of candidates, in attempt order: each
/// candidate is kept exactly when it overlaps none of those kept before it.
pub open spec fn accepted(candidates: Seq<Rect>) -> Seq<Rect>
    decreases candidates.len(),
{
    if candidates.len() == 0 {
        Seq::empty()
    } else {
        let before = accepted(candidates.drop_last());
        if fits_among(candidates.last(), before) {
            before.push(candidates.last())
        } else {
            before
        }
    }
}

/// The generation parameters are well formed.
pub open spec fn valid_params(width: int, height: int, room_min_size: int, room_max_size: int) -> bool {
    &&& width > 0 && height > 0
    &&& 1 <= room_min_size <= room_max_size
    &&& room_max_size < width && room_max_size < height
}

/// What a generation run guarantees of the grid and the accepted rooms:
/// the rooms are those kept from `max_rooms` candidates drawn within the
/// bounds, and the floor is exactly what keeping them carved.
pub open spec fn valid_generation(
    map: GridView,
    rooms: Seq<Rect>,
    width: int,
    height: int,
    room_min_size: int,
    room_max_size: int,
    max_rooms: int,
) -> bool {
    &&& map.width == width && map.height == height
    &&& rooms.len() <= max_rooms
    &&& forall|i: int|
        0 <= i < rooms.len() ==> room_in_grid(#[trigger] rooms[i], width, height) && room_sized(
            rooms[i],
            room_min_size,
            room_max_size,
        )
    &&& pairwise_disjoint(rooms)
    &&& exists|candidates: Seq<Rect>|
        candidates.len() == max_rooms && (forall|i: int|
            0 <= i < candidates.len() ==> room_in_grid(#[trigger] candidates[i], width, height)
                && room_sized(candidates[i], room_min_size, room_max_size)) && rooms
            == #[trigger] accepted(candidates)
    &&& exists|coins: Seq<bool>|
        coins.len() == rooms.len() && map.floor == #[trigger] carved(rooms, coins)
}

/// Whether `candidate` overlaps none of the accepted rooms (edges included).
pub fn room_fits(candidate: &Rect, rooms: &Vec<Rect>) -> (r: bool)
    ensures
        r == fits_among(*candidate, rooms@),
{
    let mut i: usize = 0;
    while i < rooms.len()
        invariant
            i <= rooms@.len(),
            forall|k: int| 0 <= k < i ==> !rects_intersect(*candidate, #[trigger] rooms@[k]),
        decreases rooms@.len() - i,
    {
        if candidate.intersects_with(&rooms[i]) {
            return false;
        }
        i = i + 1;
    }
    true
}

/// Accepts `room`: carves its interior and, when a room was accepted
/// before, the corridor from that room's center to this one's.
pub fn add_room(map: &mut TileGrid, rooms: &mut Vec<Rect>, room: Rect, horizontal_first: bool)
    requires
        old(map).wf(),
        room_in_grid(room, old(map)@.width, old(map)@.height),
        forall|i: int|
            0 <= i < old(rooms)@.len() ==> room_in_grid(
                #[trigger] old(rooms)@[i],
                old(map)@.width,
                old(map)@.height,
            ),
    ensures
        final(map).wf(),
        final(rooms)@ == old(rooms)@.push(room),
        final(map)@ == old(map)@.with_floors(interior(room)).with_floors(
            if old(rooms)@.len() == 0 {
                Set::empty()
            } else {
                corridor(old(rooms)@.last(), room, horizontal_first)
            },
        ),
{
    let ghost g0 = map@;
    create_room(room, map);
    let ghost g1 = map@;
    let (new_x, new_y) = room.center();
    if rooms.len() > 0 {
        let (prev_x, prev_y) = rooms[rooms.len() - 1].center();
        if horizontal_first {
            create_h_tunnel(prev_x, new_x, prev_y, map);
            create_v_tunnel(prev_y, new_y, new_x, map);
        } else {
            create_h_tunnel(prev_x, new_x, new_y, map);
            create_v_tunnel(prev_y, new_y, prev_x, map);
        }
        assert(map@.floor =~= g1.with_floors(
            corridor(rooms@.last(), room, horizontal_first),
        ).floor);
    } else {
        assert(map@.floor =~= g1.with_floors(Set::empty()).floor);
    }
    rooms.push(room);
}

/// One placement attempt: keeps `candidate` exactly when it overlaps no
/// accepted room, carving it and its corridor as `add_room` does; a
/// discarded candidate leaves the map and the rooms as they were.
pub fn place_room(map: &mut TileGrid, rooms: &mut Vec<Rect>, candidate: Rect, horizontal_first: bool) -> (r: bool)
    requires
        old(map).wf(),
        room_in_grid(candidate, old(map)@.width, old(map)@.height),
        forall|i: int|
            0 <= i < old(rooms)@.len() ==> room_in_grid(
                #[trigger] old(rooms)@[i],
                old(map)@.width,
                old(map)@.height,
            ),
    ensures
        final(map).wf(),
        r == fits_among(candidate, old(rooms)@),
        r ==> final(rooms)@ == old(rooms)@.push(candidate) && final(map)@ == old(map)@.with_floors(
            interior(candidate),
        ).with_floors(
            if old(rooms)@.len() == 0 {
                Set::empty()
            } else {
                corridor(old(rooms)@.last(), candidate, horizontal_first)
            },
        ),
        !r ==> *final(map) == *old(map) && *final(rooms) == *old(rooms),
{
    if room_fits(&candidate, rooms) {
        add_room(map, rooms, candidate, horizontal_first);
        true
    } else {
        false
    }
}

proof fn lemma_carved_push(rooms: Seq<Rect>, coins: Seq<bool>, room: Rect, coin: bool)
    requires
        coins.len() == rooms.len(),
    ensures
        carved(rooms.push(room), coins.push(coin)) == carved(rooms, coins).union(
            interior(room),
        ).union(
            if rooms.len() == 0 {
                Set::empty()
            } else {
                corridor(rooms.last(), room, coin)
            },
        ),
{
    assert(rooms.push(room).drop_last() =~= rooms);
    assert(coins.push(coin).drop_last() =~= coins);
}

/// Every accepted room's interior, and every corridor that joins a room to
/// the one accepted just before it, is among the carved cells.
pub proof fn lemma_rooms_and_corridors_carved(rooms: Seq<Rect>, coins: Seq<bool>, i: int)
    requires
        coins.len() == rooms.len(),
        0 <= i < rooms.len(),
    ensures
        interior(rooms[i]).subset_of(carved(rooms, coins)),
        joining(rooms, coins, i).subset_of(carved(rooms, coins)),
    decreases rooms.len(),
{
    let n = rooms.len() - 1;
    if i < n {
        let r0 = rooms.drop_last();
        let c0 = coins.drop_last();
        lemma_rooms_and_corridors_carved(r0, c0, i);
        assert(r0[i] == rooms[i]);
        assert(joining(r0, c0, i) == joining(rooms, coins, i));
    }
}

/// A cell is carved exactly when it lies inside some accepted room or on
/// the corridor that joins some room to the one before it; every other
/// cell keeps its wall.
pub proof fn lemma_carved_cells(rooms: Seq<Rect>, coins: Seq<bool>, c: Cell)
    requires
        coins.len() == rooms.len(),
    ensures
        carved(rooms, coins).contains(c) <==> exists|i: int|
            0 <= i < rooms.len() && (#[trigger] interior(rooms[i]).contains(c) || joining(
                rooms,
                coins,
                i,
            ).contains(c)),
    decreases rooms.len(),
{
    assert forall|i: int|
        0 <= i < rooms.len() && (#[trigger] interior(rooms[i]).contains(c) || joining(
            rooms,
            coins,
            i,
        ).contains(c)) implies carved(rooms, coins).contains(c) by {
        lemma_rooms_and_corridors_carved(rooms, coins, i);
    }
    if rooms.len() > 0 && carved(rooms, coins).contains(c) {
        let n = rooms.len() - 1;
        let r0 = rooms.drop_last();
        let c0 = coins.drop_last();
        lemma_carved_cells(r0, c0, c);
        if carved(r0, c0).contains(c) {
            let i = choose|i: int|
                0 <= i < r0.len() && (#[trigger] interior(r0[i]).contains(c) || joining(
                    r0,
                    c0,
                    i,
                ).contains(c));
            assert(r0[i] == rooms[i]);
            assert(joining(r0, c0, i) == joining(rooms, coins, i));
            assert(interior(rooms[i]).contains(c) || joining(rooms, coins, i).contains(c));
        } else {
            assert(interior(rooms[n]).contains(c) || joining(rooms, coins, n).contains(c));
        }
    }
}

/// A single accepted room carves its interior and nothing else.
pub proof fn lemma_single_room_carves_interior(rooms: Seq<Rect>, coins: Seq<bool>)
    requires
        coins.len() == rooms.len(),
        rooms.len() == 1,
    ensures
        carved(rooms, coins) == interior(rooms[0]),
{
    assert(rooms.drop_last().len() == 0);
    assert(carved(rooms.drop_last(), coins.drop_last()) == Set::<Cell>::empty());
    assert(carved(rooms, coins) =~= interior(rooms[0]));
}

/// The corridor between consecutively accepted rooms is carved in full.
pub proof fn lemma_consecutive_rooms_joined(rooms: Seq<Rect>, coins: Seq<bool>, i: int)
    requires
        coins.len() == rooms.len(),
        0 <= i && i + 1 < rooms.len(),
    ensures
        corridor(rooms[i], rooms[i + 1], coins[i + 1]).subset_of(carved(rooms, coins)),
{
    lemma_rooms_and_corridors_carved(rooms, coins, i + 1);
}

/// The room is at least two cells wide and tall, so that its center lies
/// strictly inside its border.
pub open spec fn wide_enough(r: Rect) -> bool {
    r.x2 - r.x1 >= 2 && r.y2 - r.y1 >= 2
}

proof fn lemma_center_inside(r: Rect)
    requires
        0 <= r.x1,
        0 <= r.y1,
        wide_enough(r),
    ensures
        r.x1 + 1 <= center_of(r).0 <= r.x2 - 1,
        r.y1 + 1 <= center_of(r).1 <= r.y2 - 1,
{
}

/// Rooms at least two cells wide and tall that lie inside the grid carve
/// nothing on its outer ring.
pub proof fn lemma_carved_inside_margin(rooms: Seq<Rect>, coins: Seq<bool>, width: int, height: int)
    requires
        coins.len() == rooms.len(),
        forall|i: int|
            0 <= i < rooms.len() ==> room_in_grid(#[trigger] rooms[i], width, height) && wide_enough(
                rooms[i],
            ),
    ensures
        forall|c: Cell|
            #[trigger] carved(rooms, coins).contains(c) ==> 1 <= c.0 <= width - 2 && 1 <= c.1
                <= height - 2,
    decreases rooms.len(),
{
    if rooms.len() > 0 {
        let n = rooms.len() - 1;
        let r0 = rooms.drop_last();
        let c0 = coins.drop_last();
        assert forall|i: int| 0 <= i < r0.len() implies room_in_grid(#[trigger] r0[i], width, height)
            && wide_enough(r0[i]) by {
            assert(r0[i] == rooms[i]);
        }
        lemma_carved_inside_margin(r0, c0, width, height);
        let last = rooms[n];
        assert(room_in_grid(last, width, height) && wide_enough(last));
        lemma_center_inside(last);
        if n > 0 {
            let prev = rooms[n - 1];
            assert(room_in_grid(prev, width, height) && wide_enough(prev));
            lemma_center_inside(prev);
        }
        assert forall|c: Cell| #[trigger] carved(rooms, coins).contains(c) implies 1 <= c.0 <= width
            - 2 && 1 <= c.1 <= height - 2 by {
            if carved(r0, c0).contains(c) {
            } else if interior(last).contains(c) {
            } else {
                assert(joining(rooms, coins, n).contains(c));
            }
        }
    }
}

/// In a generated map whose rooms are at least two cells wide and tall,
/// every cell on the grid's outer ring is a wall.
pub proof fn lemma_border_stays_wall(
    map: GridView,
    rooms: Seq<Rect>,
    width: int,
    height: int,
    room_min_size: int,
    room_max_size: int,
    max_rooms: int,
    x: int,
    y: int,
)
    requires
        valid_generation(map, rooms, width, height, room_min_size, room_max_size, max_rooms),
        room_min_size >= 2,
        map.contains(x, y),
        x == 0 || x == width - 1 || y == 0 || y == height - 1,
    ensures
        !map.floor.contains((x, y)),
{
    let coins = choose|coins: Seq<bool>|
        coins.len() == rooms.len() && map.floor == #[trigger] carved(rooms, coins);
    assert forall|i: int| 0 <= i < rooms.len() implies room_in_grid(#[trigger] rooms[i], width, height)
        && wide_enough(rooms[i]) by {
        assert(room_sized(rooms[i], room_min_size, room_max_size));
    }
    lemma_carved_inside_margin(rooms, coins, width, height);
}

/// In a grid only two cells wider and taller than the one room size
/// allowed, no two rooms can be kept apart: at most one is accepted.
pub proof fn lemma_tight_grid_holds_one_room(rooms: Seq<Rect>, w: int)
    requires
        pairwise_disjoint(rooms),
        forall|i: int|
            0 <= i < rooms.len() ==> room_in_grid(#[trigger] rooms[i], w + 2, w + 2) && room_sized(
                rooms[i],
                w,
                w,
            ),
    ensures
        rooms.len() <= 1,
{
    if rooms.len() >= 2 {
        assert(room_in_grid(rooms[0], w + 2, w + 2) && room_sized(rooms[0], w, w));
        assert(room_in_grid(rooms[1], w + 2, w + 2) && room_sized(rooms[1], w, w));
        assert(rects_intersect(rooms[0], rooms[1]));
    }
}

/// Generates a map: a `width` by `height` grid of walls into which up to
/// `max_rooms` attempts each sample a room of side `room_min_size..=room_max_size`
/// at a random place, keep it if it overlaps no room kept before, and then
/// carve it and the corridor to the previous room. Returns the grid and the
/// kept rooms in the order they were kept.
pub fn generate_map(
    width: i32,
    height: i32,
    room_min_size: i32,
    room_max_size: i32,
    max_rooms: u32,
    rng: &mut StdRng,
) -> (r: Result<(TileGrid, Vec<Rect>), MapError>)
    requires
        width * height <= usize::MAX,
    ensures
        r is Ok <==> valid_params(width as int, height as int, room_min_size as int, room_max_size as int),
        r is Err && (width <= 0 || height <= 0) ==> r->Err_0 == MapError::InvalidDimensions,
        r is Err && width > 0 && height > 0 && (room_min_size < 1 || room_min_size > room_max_size)
            ==> r->Err_0 == MapError::InvalidRoomSize,
        r is Err && width > 0 && height > 0 && 1 <= room_min_size <= room_max_size
            ==> r->Err_0 == MapError::RoomTooLarge,
        r matches Ok(p) ==> p.0.wf() && valid_generation(
            p.0@,
            p.1@,
            width as int,
            height as int,
            room_min_size as int,
            room_max_size as int,
            max_rooms as int,
        ),
        max_rooms > 0 ==> (r matches Ok(p) ==> p.1@.len() >= 1),
        max_rooms == 0 ==> (r matches Ok(p) ==> p.1@.len() == 0 && p.0@.floor == Set::<Cell>::empty()),
{
    if width <= 0 || height <= 0 {
        return Err(MapError::InvalidDimensions);
    }
    if room_min_size < 1 || room_min_size > room_max_size {
        return Err(MapError::InvalidRoomSize);
    }
    if room_max_size >= width || room_max_size >= height {
        return Err(MapError::RoomTooLarge);
    }
    let mut map = match TileGrid::new(width, height) {
        Ok(g) => g,
        Err(e) => {
            return Err(e);
        },
    };
    let mut rooms: Vec<Rect> = Vec::new();
    let ghost mut coins: Seq<bool> = Seq::empty();
    let ghost mut candidates: Seq<Rect> = Seq::empty();
    let mut attempt: u32 = 0;
    while attempt < max_rooms
        invariant
            valid_params(width as int, height as int, room_min_size as int, room_max_size as int),
            map.wf(),
            map@.width == width && map@.height == height,
            rooms@.len() <= attempt <= max_rooms,
            coins.len() == rooms@.len(),
            map@.floor == carved(rooms@, coins),
            forall|i: int|
                0 <= i < rooms@.len() ==> room_in_grid(#[trigger] rooms@[i], width as int, height as int)
                    && room_sized(rooms@[i], room_min_size as int, room_max_size as int),
            pairwise_disjoint(rooms@),
            attempt > 0 ==> rooms@.len() >= 1,
            candidates.len() == attempt,
            rooms@ == accepted(candidates),
            forall|i: int|
                0 <= i < candidates.len() ==> room_in_grid(#[trigger] candidates[i], width as int, height as int)
                    && room_sized(candidates[i], room_min_size as int, room_max_size as int),
        decreases max_rooms - attempt,
    {
        let w = random_in(rng, room_min_size, room_max_size);
        let h = random_in(rng, room_min_size, room_max_size);
        let x = random_in(rng, 0, width - w - 1);
        let y = random_in(rng, 0, height - h - 1);
        let new_room = Rect::new(x, y, w, h);
        let horizontal_first = if rooms.len() > 0 {
            coin_flip(rng)
        } else {
            false
        };
        proof {
            lemma_carved_push(rooms@, coins, new_room, horizontal_first);
            assert(candidates.push(new_room).drop_last() =~= candidates);
        }
        let ghost before = rooms@;
        let ghost before_candidates = candidates;
        let kept = place_room(&mut map, &mut rooms, new_room, horizontal_first);
        proof {
            candidates = candidates.push(new_room);
            assert forall|i: int| 0 <= i < candidates.len() implies room_in_grid(
                #[trigger] candidates[i],
                width as int,
                height as int,
            ) && room_sized(candidates[i], room_min_size as int, room_max_size as int) by {
                if i < before_candidates.len() {
                    assert(candidates[i] == before_candidates[i]);
                }
            }
            if kept {
                coins = coins.push(horizontal_first);
                assert forall|i: int, j: int|
                    0 <= i < rooms@.len() && 0 <= j < rooms@.len() && i != j implies !rects_intersect(
                    #[trigger] rooms@[i],
                    #[trigger] rooms@[j],
                ) by {
                    if i == before.len() {
                        assert(!rects_intersect(new_room, before[j]));
                    } else if j == before.len() {
                        assert(!rects_intersect(new_room, before[i]));
                    } else {
                        assert(rooms@[i] == before[i] && rooms@[j] == before[j]);
                    }
                }
            }
        }
        attempt = attempt + 1;
    }
    assert(coins.len() == rooms@.len() && map@.floor == carved(rooms@, coins));
    assert(candidates.len() == max_rooms && rooms@ == accepted(candidates));
    Ok((map, rooms))
}

} // verus!
