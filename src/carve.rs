use vstd::prelude::*;
use crate::grid::{Cell, GridView, TileGrid};
use crate::rect::{Rect, center_of};

verus! {

/// The cells `(x, y)` with `xlo <= x < xhi` and `ylo <= y < yhi`.
pub open spec fn block(xlo: int, xhi: int, ylo: int, yhi: int) -> Set<Cell> {
    Set::new(|c: Cell| xlo <= c.0 < xhi && ylo <= c.1 < yhi)
}

/// The floor of a room: the cells strictly inside its border.
pub open spec fn interior(r: Rect) -> Set<Cell> {
    block(r.x1 + 1, r.x2 as int, r.y1 + 1, r.y2 as int)
}

pub open spec fn min_int(a: int, b: int) -> int {
    if a <= b {
        a
    } else {
        b
    }
}

pub open spec fn max_int(a: int, b: int) -> int {
    if a <= b {
        b
    } else {
        a
    }
}

/// The horizontal run on row `y` between columns `x1` and `x2`, both included.
pub open spec fn h_run(x1: int, x2: int, y: int) -> Set<Cell> {
    block(min_int(x1, x2), max_int(x1, x2) + 1, y, y + 1)
}

/// The vertical run on column `x` between rows `y1` and `y2`, both included.
pub open spec fn v_run(y1: int, y2: int, x: int) -> Set<Cell> {
    block(x, x + 1, min_int(y1, y2), max_int(y1, y2) + 1)
}

/// The L-shaped corridor from `p` to `n`. With `horizontal_first` its
/// corner is `(n.0, p.1)`, otherwise `(p.0, n.1)`.
pub open spec fn l_path(p: Cell, n: Cell, horizontal_first: bool) -> Set<Cell> {
    if horizontal_first {
        h_run(p.0, n.0, p.1).union(v_run(p.1, n.1, n.0))
    } else {
        h_run(p.0, n.0, n.1).union(v_run(p.1, n.1, p.0))
    }
}

/// The corridor between the centers of two rooms.
pub open spec fn corridor(prev: Rect, next: Rect, horizontal_first: bool) -> Set<Cell> {
    l_path(center_of(prev), center_of(next), horizontal_first)
}

/// Carving the same cells a second time changes nothing, so carving a room
/// twice leaves the map as carving it once.
pub proof fn lemma_carving_idempotent(g: GridView, cells: Set<Cell>)
    ensures
        g.with_floors(cells).with_floors(cells) == g.with_floors(cells),
{
    assert(g.with_floors(cells).with_floors(cells).floor =~= g.with_floors(cells).floor);
}

/// Carves the interior of `room` into the map as floor.
pub fn create_room(room: Rect, map: &mut TileGrid)
    requires
        old(map).wf(),
        room.x1 < room.x2,
        room.y1 < room.y2,
        -1 <= room.x1,
        -1 <= room.y1,
        room.x2 <= old(map)@.width,
        room.y2 <= old(map)@.height,
    ensures
        final(map).wf(),
        final(map)@ == old(map)@.with_floors(interior(room)),
{
    let ghost g0 = map@;
    let mut x = room.x1 + 1;
    assert(g0.with_floors(block(room.x1 + 1, x as int, room.y1 + 1, room.y2 as int)).floor
        =~= g0.floor);
    while x < room.x2
        invariant
            map.wf(),
            room.x1 < x <= room.x2,
            -1 <= room.x1,
            -1 <= room.y1,
            room.y1 < room.y2,
            room.x2 <= g0.width,
            room.y2 <= g0.height,
            map@ == g0.with_floors(block(room.x1 + 1, x as int, room.y1 + 1, room.y2 as int)),
        decreases room.x2 - x,
    {
        let mut y = room.y1 + 1;
        assert(block(room.x1 + 1, x as int, room.y1 + 1, room.y2 as int).union(
            block(x as int, x + 1, room.y1 + 1, y as int),
        ) =~= block(room.x1 + 1, x as int, room.y1 + 1, room.y2 as int));
        while y < room.y2
            invariant
                map.wf(),
                room.x1 < x < room.x2,
                room.y1 < y <= room.y2,
                -1 <= room.x1,
                -1 <= room.y1,
                room.x2 <= g0.width,
                room.y2 <= g0.height,
                map@ == g0.with_floors(
                    block(room.x1 + 1, x as int, room.y1 + 1, room.y2 as int).union(
                        block(x as int, x + 1, room.y1 + 1, y as int),
                    ),
                ),
            decreases room.y2 - y,
        {
            map.set_floor(x, y);
            proof {
                let old_part = block(room.x1 + 1, x as int, room.y1 + 1, room.y2 as int).union(
                    block(x as int, x + 1, room.y1 + 1, y as int),
                );
                let new_part = block(room.x1 + 1, x as int, room.y1 + 1, room.y2 as int).union(
                    block(x as int, x + 1, room.y1 + 1, y + 1),
                );
                assert(g0.floor.union(old_part).insert((x as int, y as int)) =~= g0.floor.union(
                    new_part,
                ));
            }
            y = y + 1;
        }
        proof {
            assert(block(room.x1 + 1, x as int, room.y1 + 1, room.y2 as int).union(
                block(x as int, x + 1, room.y1 + 1, room.y2 as int),
            ) =~= block(room.x1 + 1, x + 1, room.y1 + 1, room.y2 as int));
        }
        x = x + 1;
    }
    assert(map@.floor =~= g0.with_floors(interior(room)).floor);
}

/// Carves the horizontal run on row `y` between columns `x1` and `x2`.
pub fn create_h_tunnel(x1: i32, x2: i32, y: i32, map: &mut TileGrid)
    requires
        old(map).wf(),
        old(map)@.contains(x1 as int, y as int),
        old(map)@.contains(x2 as int, y as int),
    ensures
        final(map).wf(),
        final(map)@ == old(map)@.with_floors(h_run(x1 as int, x2 as int, y as int)),
{
    let ghost g0 = map@;
    let lo = if x1 <= x2 {
        x1
    } else {
        x2
    };
    let hi = if x1 <= x2 {
        x2
    } else {
        x1
    };
    let mut x = lo;
    assert(g0.with_floors(block(lo as int, lo as int, y as int, y + 1)).floor =~= g0.floor);
    while x <= hi
        invariant
            map.wf(),
            lo <= x <= hi + 1,
            g0.contains(lo as int, y as int),
            g0.contains(hi as int, y as int),
            map@.width == g0.width,
            map@.height == g0.height,
            map@ == g0.with_floors(block(lo as int, x as int, y as int, y + 1)),
        decreases hi + 1 - x,
    {
        map.set_floor(x, y);
        assert(g0.floor.union(block(lo as int, x as int, y as int, y + 1)).insert(
            (x as int, y as int),
        ) =~= g0.floor.union(block(lo as int, x + 1, y as int, y + 1)));
        x = x + 1;
    }
    assert(map@.floor =~= g0.with_floors(h_run(x1 as int, x2 as int, y as int)).floor);
}

/// Carves the vertical run on column `x` between rows `y1` and `y2`.
pub fn create_v_tunnel(y1: i32, y2: i32, x: i32, map: &mut TileGrid)
    requires
        old(map).wf(),
        old(map)@.contains(x as int, y1 as int),
        old(map)@.contains(x as int, y2 as int),
    ensures
        final(map).wf(),
        final(map)@ == old(map)@.with_floors(v_run(y1 as int, y2 as int, x as int)),
{
    let ghost g0 = map@;
    let lo = if y1 <= y2 {
        y1
    } else {
        y2
    };
    let hi = if y1 <= y2 {
        y2
    } else {
        y1
    };
    let mut y = lo;
    assert(g0.with_floors(block(x as int, x + 1, lo as int, lo as int)).floor =~= g0.floor);
    while y <= hi
        invariant
            map.wf(),
            lo <= y <= hi + 1,
            g0.contains(x as int, lo as int),
            g0.contains(x as int, hi as int),
            map@.width == g0.width,
            map@.height == g0.height,
            map@ == g0.with_floors(block(x as int, x + 1, lo as int, y as int)),
        decreases hi + 1 - y,
    {
        map.set_floor(x, y);
        assert(g0.floor.union(block(x as int, x + 1, lo as int, y as int)).insert(
            (x as int, y as int),
        ) =~= g0.floor.union(block(x as int, x + 1, lo as int, y + 1)));
        y = y + 1;
    }
    assert(map@.floor =~= g0.with_floors(v_run(y1 as int, y2 as int, x as int)).floor);
}

} // verus!
