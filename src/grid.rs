use vstd::prelude::*;

verus! {

/// One cell of the map. `block_sight` always equals `blocked` here; it is
/// kept apart for visibility logic built on top of the grid.
#[derive(Debug, Clone, Copy, PartialEq, Eq, Structural)]
pub struct Tile {
    pub blocked: bool,
    pub block_sight: bool,
}

impl Tile {
    pub fn empty() -> (r: Tile)
        ensures
            r == (Tile { blocked: false, block_sight: false }),
    {
        Tile { blocked: false, block_sight: false }
    }

    pub fn wall() -> (r: Tile)
        ensures
            r == (Tile { blocked: true, block_sight: true }),
    {
        Tile { blocked: true, block_sight: true }
    }
}

/// A grid cell `(x, y)`.
pub type Cell = (int, int);

/// The abstract grid: its dimensions and the set of floor cells. Every
/// other in-bounds cell is a wall.
pub struct GridView {
    pub width: int,
    pub height: int,
    pub floor: Set<Cell>,
}

pub open spec fn in_bounds(width: int, height: int, x: int, y: int) -> bool {
    0 <= x < width && 0 <= y < height
}

impl GridView {
    pub open spec fn contains(self, x: int, y: int) -> bool {
        in_bounds(self.width, self.height, x, y)
    }

    /// The grid after cell `(x, y)` is made floor.
    pub open spec fn with_floor(self, x: int, y: int) -> GridView {
        GridView { floor: self.floor.insert((x, y)), ..self }
    }

    /// The grid after every cell of `cells` is made floor.
    pub open spec fn with_floors(self, cells: Set<Cell>) -> GridView {
        GridView { floor: self.floor.union(cells), ..self }
    }
}

/// Position of cell `(x, y)` in the row-major buffer.
pub open spec fn index_of(width: int, x: int, y: int) -> int {
    y * width + x
}

proof fn lemma_index_bounds(width: int, height: int, x: int, y: int)
    requires
        in_bounds(width, height, x, y),
    ensures
        0 <= index_of(width, x, y) < width * height,
{
    assert(0 <= y * width) by (nonlinear_arith)
        requires
            0 <= y,
            0 <= width,
    ;
    assert(y * width + x < width * height) by (nonlinear_arith)
        requires
            0 <= x < width,
            0 <= y < height,
    ;
}

proof fn lemma_index_injective(width: int, x1: int, y1: int, x2: int, y2: int)
    requires
        0 <= x1 < width,
        0 <= x2 < width,
        index_of(width, x1, y1) == index_of(width, x2, y2),
    ensures
        x1 == x2 && y1 == y2,
{
    if y1 < y2 {
        assert(y1 * width + width <= y2 * width) by (nonlinear_arith)
            requires
                y1 < y2,
                0 <= width,
        ;
    } else if y2 < y1 {
        assert(y2 * width + width <= y1 * width) by (nonlinear_arith)
            requires
                y2 < y1,
                0 <= width,
        ;
    }
}

/// A fixed-size rectangular map of tiles, stored row by row in one buffer.
#[derive(Debug, PartialEq, Eq)]
pub struct TileGrid {
    width: i32,
    height: i32,
    tiles: Vec<Tile>,
}

/// Why a map could not be built.
#[derive(Debug, Clone, Copy, PartialEq, Eq, Structural)]
pub enum MapError {
    /// The grid's width or height is not positive.
    InvalidDimensions,
    /// The smallest room size is below one or above the largest.
    InvalidRoomSize,
    /// A room of the largest size, with its border, cannot fit in the grid.
    RoomTooLarge,
}

impl View for TileGrid {
    type V = GridView;

    closed spec fn view(&self) -> GridView {
        GridView {
            width: self.width as int,
            height: self.height as int,
            floor: Set::new(
                |c: Cell|
                    in_bounds(self.width as int, self.height as int, c.0, c.1)
                        && !self.tiles@[index_of(self.width as int, c.0, c.1)].blocked,
            ),
        }
    }
}

impl TileGrid {
    /// Well-formedness: positive dimensions that fit the coordinate type,
    /// and a buffer of one consistent tile per cell.
    pub open spec fn wf(&self) -> bool {
        &&& self.inv()
        &&& 0 < self@.width <= i32::MAX
        &&& 0 < self@.height <= i32::MAX
    }

    pub closed spec fn inv(&self) -> bool {
        &&& self.width > 0
        &&& self.height > 0
        &&& self.tiles@.len() == self.width * self.height
        &&& forall|i: int|
            0 <= i < self.tiles@.len() ==> #[trigger] self.tiles@[i].block_sight
                == self.tiles@[i].blocked
    }

    /// A grid of `width` by `height` walls.
    pub fn new(width: i32, height: i32) -> (r: Result<TileGrid, MapError>)
        requires
            width * height <= usize::MAX,
        ensures
            r is Err <==> width <= 0 || height <= 0,
            r is Err ==> r->Err_0 == MapError::InvalidDimensions,
            r matches Ok(g) ==> g.wf() && g@ == (GridView {
                width: width as int,
                height: height as int,
                floor: Set::empty(),
            }),
    {
        if width <= 0 || height <= 0 {
            return Err(MapError::InvalidDimensions);
        }
        let n: usize = (width as usize) * (height as usize);
        let mut tiles: Vec<Tile> = Vec::new();
        while tiles.len() < n
            invariant
                tiles@.len() <= n,
                forall|i: int| 0 <= i < tiles@.len() ==> #[trigger] tiles@[i] == (Tile { blocked: true, block_sight: true }),
            decreases n - tiles@.len(),
        {
            tiles.push(Tile::wall());
        }
        let g = TileGrid { width, height, tiles };
        assert(g@.floor =~= Set::empty()) by {
            assert forall|c: Cell| !g@.floor.contains(c) by {
                if in_bounds(width as int, height as int, c.0, c.1) {
                    lemma_index_bounds(width as int, height as int, c.0, c.1);
                }
            }
        }
        Ok(g)
    }

    pub fn width(&self) -> (r: i32)
        ensures
            r == self@.width,
    {
        self.width
    }

    pub fn height(&self) -> (r: i32)
        ensures
            r == self@.height,
    {
        self.height
    }

    fn index(&self, x: i32, y: i32) -> (r: usize)
        requires
            self.wf(),
            self@.contains(x as int, y as int),
        ensures
            r == index_of(self.width as int, x as int, y as int),
            r < self.tiles@.len(),
    {
        proof {
            lemma_index_bounds(self.width as int, self.height as int, x as int, y as int);
        }
        let yy = y as usize;
        let ww = self.width as usize;
        let xx = x as usize;
        let len = self.tiles.len();
        assert(yy * ww + xx < len);
        assert(yy * ww <= len) by (nonlinear_arith)
            requires
                yy * ww + xx < len,
                0 <= xx,
        ;
        let row = yy * ww;
        row + xx
    }

    /// The tile at `(x, y)`.
    pub fn get(&self, x: i32, y: i32) -> (r: Tile)
        requires
            self.wf(),
            self@.contains(x as int, y as int),
        ensures
            r.blocked == !self@.floor.contains((x as int, y as int)),
            r.block_sight == r.blocked,
    {
        let i = self.index(x, y);
        self.tiles[i]
    }

    /// Whether `(x, y)` is a wall.
    pub fn is_blocked(&self, x: i32, y: i32) -> (r: bool)
        requires
            self.wf(),
            self@.contains(x as int, y as int),
        ensures
            r == !self@.floor.contains((x as int, y as int)),
    {
        let i = self.index(x, y);
        self.tiles[i].blocked
    }

    /// Whether `(x, y)` blocks sight, which is so exactly for walls.
    pub fn blocks_sight(&self, x: i32, y: i32) -> (r: bool)
        requires
            self.wf(),
            self@.contains(x as int, y as int),
        ensures
            r == !self@.floor.contains((x as int, y as int)),
    {
        let i = self.index(x, y);
        self.tiles[i].block_sight
    }

    /// Makes `(x, y)` floor; a cell that is floor already stays as it is.
    pub fn set_floor(&mut self, x: i32, y: i32)
        requires
            old(self).wf(),
            old(self)@.contains(x as int, y as int),
        ensures
            final(self).wf(),
            final(self)@ == old(self)@.with_floor(x as int, y as int),
    {
        let i = self.index(x, y);
        self.tiles.set(i, Tile::empty());
        proof {
            let w = self.width as int;
            let h = self.height as int;
            assert(self@.floor =~= old(self)@.floor.insert((x as int, y as int))) by {
                assert forall|c: Cell| #[trigger] self@.floor.contains(c) == old(self)@.floor.insert(
                    (x as int, y as int),
                ).contains(c) by {
                    if in_bounds(w, h, c.0, c.1) {
                        lemma_index_bounds(w, h, c.0, c.1);
                        if index_of(w, c.0, c.1) == i as int {
                            lemma_index_injective(w, c.0, c.1, x as int, y as int);
                        }
                    }
                }
            }
        }
    }
}

/// Setting a cell to floor a second time changes nothing.
pub proof fn lemma_set_floor_idempotent(g: GridView, x: int, y: int)
    ensures
        g.with_floor(x, y).with_floor(x, y) == g.with_floor(x, y),
{
    assert(g.with_floor(x, y).with_floor(x, y).floor =~= g.with_floor(x, y).floor);
}

} // verus!
