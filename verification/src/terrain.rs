use vstd::prelude::*;

verus! {

/// The sample value that marks a point outside the surveyed ground.
pub const NO_DATA: i16 = -32768;

/// One of the three maps that have a height grid.
#[derive(Clone, Copy, Debug, PartialEq, Eq, Structural)]
pub enum GameMap {
    Bakurani,
    Ozeti,
    Zestafona,
}

pub open spec fn spec_short(map: GameMap) -> Seq<char> {
    match map {
        GameMap::Bakurani => "BAK"@,
        GameMap::Ozeti => "OZE"@,
        GameMap::Zestafona => "ZES"@,
    }
}

pub open spec fn spec_name(map: GameMap) -> Seq<char> {
    match map {
        GameMap::Bakurani => "Bakurani"@,
        GameMap::Ozeti => "Ozeti"@,
        GameMap::Zestafona => "Zestafona"@,
    }
}

/// Where a map's height grid lies: its south-west corner in hundredths of a
/// game unit (a game unit is 100 m), and its samples a row and rows, one
/// sample every tenth of a unit.
#[derive(Clone, Copy, Debug, PartialEq, Eq, Structural)]
pub struct GridLayout {
    pub x_min_hundredths: u32,
    pub y_min_hundredths: u32,
    pub nx: usize,
    pub ny: usize,
}

pub open spec fn spec_layout(map: GameMap) -> GridLayout {
    match map {
        GameMap::Bakurani => GridLayout { x_min_hundredths: 0, y_min_hundredths: 0, nx: 1633, ny: 1633 },
        GameMap::Ozeti => GridLayout { x_min_hundredths: 0, y_min_hundredths: 162, nx: 1617, ny: 1617 },
        GameMap::Zestafona => GridLayout {
            x_min_hundredths: 0,
            y_min_hundredths: 0,
            nx: 1633,
            ny: 1633,
        },
    }
}

impl GameMap {
    /// Every map, in the order the map row shows them.
    pub const ALL: [GameMap; 3] = [GameMap::Bakurani, GameMap::Ozeti, GameMap::Zestafona];

    /// The three-letter button label of the map.
    pub fn short(self) -> (r: &'static str)
        ensures
            r@ == spec_short(self),
    {
        match self {
            GameMap::Bakurani => "BAK",
            GameMap::Ozeti => "OZE",
            GameMap::Zestafona => "ZES",
        }
    }

    /// Where the map's height grid lies and how many samples it has.
    pub fn layout(self) -> (r: GridLayout)
        ensures
            r == spec_layout(self),
    {
        match self {
            GameMap::Bakurani => GridLayout { x_min_hundredths: 0, y_min_hundredths: 0, nx: 1633, ny: 1633 },
            GameMap::Ozeti => GridLayout { x_min_hundredths: 0, y_min_hundredths: 162, nx: 1617, ny: 1617 },
            GameMap::Zestafona => GridLayout {
                x_min_hundredths: 0,
                y_min_hundredths: 0,
                nx: 1633,
                ny: 1633,
            },
        }
    }

    /// The height grid of this map over the table bytes `samples`: its sizes
    /// from `layout`, and nothing unless the bytes are two for each sample.
    pub fn grid(self, samples: Vec<u8>) -> (r: Option<Grid>)
        ensures
            r is Some <==> samples@.len() == 2 * spec_layout(self).nx * spec_layout(self).ny,
            r matches Some(g) ==> g.nx == spec_layout(self).nx && g.ny == spec_layout(self).ny
                && g.samples@ == samples@ && g.well_formed(),
    {
        let layout = self.layout();
        Grid::new(layout.nx, layout.ny, samples)
    }

    /// The full name of the map.
    pub fn name(self) -> (r: &'static str)
        ensures
            r@ == spec_name(self),
    {
        match self {
            GameMap::Bakurani => "Bakurani",
            GameMap::Ozeti => "Ozeti",
            GameMap::Zestafona => "Zestafona",
        }
    }
}

/// The signed 16-bit number that two little-endian bytes hold.
pub open spec fn le_i16(lo: u8, hi: u8) -> int {
    if hi < 128 {
        lo + 256 * hi
    } else {
        lo + 256 * hi - 65536
    }
}

/// Reads a signed 16-bit number from two little-endian bytes, as
/// `i16::from_le_bytes` does.
pub fn i16_from_le(lo: u8, hi: u8) -> (r: i16)
    ensures
        r as int == le_i16(lo, hi),
{
    if hi < 128 {
        (lo as i16) + (hi as i16) * 256
    } else {
        let v: i32 = (lo as i32) + (hi as i32) * 256 - 65536;
        v as i16
    }
}

/// A height grid: `nx` samples a row, rows one after the other, each sample
/// two little-endian bytes of decimeters, `NO_DATA` where nothing was surveyed.
pub struct Grid {
    pub nx: usize,
    pub ny: usize,
    pub samples: Vec<u8>,
}

/// The height at column `x` of row `y` in decimeters, or nothing where the
/// sample is missing from the bytes or marks no data.
pub open spec fn spec_decimeters_at(grid: Grid, x: int, y: int) -> Option<i16> {
    let index = (y * grid.nx + x) * 2;
    if index + 2 <= grid.samples@.len() {
        let v = le_i16(grid.samples@[index], grid.samples@[index + 1]);
        if v == NO_DATA {
            None
        } else {
            Some(v as i16)
        }
    } else {
        None
    }
}

/// In a well-formed grid, every sample inside the grid has its two bytes, so
/// it gives a height unless it marks no data.
pub proof fn lemma_samples_present(grid: Grid, x: int, y: int)
    requires
        grid.well_formed(),
        0 <= x < grid.nx,
        0 <= y < grid.ny,
    ensures
        (y * grid.nx + x) * 2 + 2 <= grid.samples@.len(),
        spec_decimeters_at(grid, x, y) is None <==> le_i16(
            grid.samples@[(y * grid.nx + x) * 2],
            grid.samples@[(y * grid.nx + x) * 2 + 1],
        ) == NO_DATA,
{
    lemma_index_fits(grid.nx as int, grid.ny as int, x, y);
    assert(2 * grid.nx * grid.ny == grid.nx * grid.ny * 2) by (nonlinear_arith);
}

/// The heights at the four corners of the cell whose lower left sample is
/// (`x0`, `y0`), the far corners clamped to the last column and row: in the
/// order lower left, lower right, upper left, upper right; nothing when one
/// of them has no height.
pub open spec fn spec_corners(grid: Grid, x0: int, y0: int) -> Option<Seq<i16>> {
    let x1 = if x0 + 1 < grid.nx - 1 {
        x0 + 1
    } else {
        grid.nx - 1
    };
    let y1 = if y0 + 1 < grid.ny - 1 {
        y0 + 1
    } else {
        grid.ny - 1
    };
    match (
        spec_decimeters_at(grid, x0, y0),
        spec_decimeters_at(grid, x1, y0),
        spec_decimeters_at(grid, x0, y1),
        spec_decimeters_at(grid, x1, y1),
    ) {
        (Some(a), Some(b), Some(c), Some(d)) => Some(seq![a, b, c, d]),
        _ => None,
    }
}

proof fn lemma_index_fits(nx: int, ny: int, x: int, y: int)
    by (nonlinear_arith)
    requires
        0 <= x < nx,
        0 <= y < ny,
    ensures
        (y * nx + x) * 2 + 2 <= nx * ny * 2,
{
    assert(y * nx + x + 1 <= (y + 1) * nx);
    assert((y + 1) * nx <= ny * nx);
}

/// The column right of `x0`, or `x0` itself at the last column.
pub open spec fn next_index(x0: int, n: int) -> int {
    if x0 + 1 < n {
        x0 + 1
    } else {
        x0
    }
}

/// The corners of a cell are its four samples, in the order the blend reads
/// them: lower left (`x0`, `y0`), lower right (`x1`, `y0`), upper left
/// (`x0`, `y1`), upper right (`x1`, `y1`), where `x1` and `y1` are the next
/// column and row, or the same at the grid's edge; and there are corners
/// exactly when all four samples have a height.
pub proof fn lemma_corners_are_the_cell(grid: Grid, x0: int, y0: int)
    requires
        0 <= x0 < grid.nx,
        0 <= y0 < grid.ny,
    ensures
        ({
            let x1 = next_index(x0, grid.nx as int);
            let y1 = next_index(y0, grid.ny as int);
            &&& spec_corners(grid, x0, y0) is Some <==> (spec_decimeters_at(grid, x0, y0) is Some
                && spec_decimeters_at(grid, x1, y0) is Some && spec_decimeters_at(grid, x0, y1) is Some
                && spec_decimeters_at(grid, x1, y1) is Some)
            &&& spec_corners(grid, x0, y0) matches Some(z) ==> {
                &&& z.len() == 4
                &&& spec_decimeters_at(grid, x0, y0) == Some(z[0])
                &&& spec_decimeters_at(grid, x1, y0) == Some(z[1])
                &&& spec_decimeters_at(grid, x0, y1) == Some(z[2])
                &&& spec_decimeters_at(grid, x1, y1) == Some(z[3])
            }
        }),
{
}

impl Grid {
    /// Whether the grid holds exactly its `nx` by `ny` samples of two bytes,
    /// as the height tables are laid out.
    pub open spec fn well_formed(&self) -> bool {
        self.samples@.len() == 2 * self.nx * self.ny
    }

    /// A grid of `nx` by `ny` samples over the bytes `samples`; nothing unless
    /// there are exactly two bytes for each sample.
    pub fn new(nx: usize, ny: usize, samples: Vec<u8>) -> (r: Option<Grid>)
        ensures
            r is Some <==> samples@.len() == 2 * nx * ny,
            r matches Some(g) ==> g.nx == nx && g.ny == ny && g.samples@ == samples@
                && g.well_formed(),
    {
        let len = samples.len();
        proof {
            assert(2 * nx * ny == (nx * ny) * 2) by (nonlinear_arith);
        }
        let cells = match nx.checked_mul(ny) {
            Some(cells) => cells,
            None => {
                proof {
                    assert(nx * ny <= (nx * ny) * 2) by (nonlinear_arith)
                        requires
                            nx * ny >= 0,
                    ;
                }
                return None;
            },
        };
        let bytes = match cells.checked_mul(2) {
            Some(bytes) => bytes,
            None => return None,
        };
        if len != bytes {
            return None;
        }
        Some(Grid { nx, ny, samples })
    }

    /// The height sample at column `x` of row `y`, in decimeters.
    pub fn decimeters_at(&self, x: usize, y: usize) -> (r: Option<i16>)
        requires
            (y * self.nx + x) * 2 + 2 <= usize::MAX,
        ensures
            r == spec_decimeters_at(*self, x as int, y as int),
    {
        let row = y * self.nx;
        let index = (row + x) * 2;
        if index + 2 > self.samples.len() {
            return None;
        }
        let v = i16_from_le(self.samples[index], self.samples[index + 1]);
        if v == NO_DATA {
            None
        } else {
            Some(v)
        }
    }

    /// The heights at the corners of the cell at (`x0`, `y0`), for
    /// interpolating between them.
    pub fn corners(&self, x0: usize, y0: usize) -> (r: Option<[i16; 4]>)
        requires
            x0 < self.nx,
            y0 < self.ny,
            self.nx * self.ny * 2 <= usize::MAX,
        ensures
            match r {
                Some(z) => spec_corners(*self, x0 as int, y0 as int) == Some(z@),
                None => spec_corners(*self, x0 as int, y0 as int) is None,
            },
            r matches Some(z) ==> {
                let x1 = next_index(x0 as int, self.nx as int);
                let y1 = next_index(y0 as int, self.ny as int);
                &&& spec_decimeters_at(*self, x0 as int, y0 as int) == Some(z[0])
                &&& spec_decimeters_at(*self, x1, y0 as int) == Some(z[1])
                &&& spec_decimeters_at(*self, x0 as int, y1) == Some(z[2])
                &&& spec_decimeters_at(*self, x1, y1) == Some(z[3])
            },
    {
        proof {
            lemma_corners_are_the_cell(*self, x0 as int, y0 as int);
        }
        let x1 = if x0 + 1 < self.nx - 1 {
            x0 + 1
        } else {
            self.nx - 1
        };
        let y1 = if y0 + 1 < self.ny - 1 {
            y0 + 1
        } else {
            self.ny - 1
        };
        proof {
            lemma_index_fits(self.nx as int, self.ny as int, x0 as int, y0 as int);
            lemma_index_fits(self.nx as int, self.ny as int, x1 as int, y0 as int);
            lemma_index_fits(self.nx as int, self.ny as int, x0 as int, y1 as int);
            lemma_index_fits(self.nx as int, self.ny as int, x1 as int, y1 as int);
        }
        let a = self.decimeters_at(x0, y0);
        let b = self.decimeters_at(x1, y0);
        let c = self.decimeters_at(x0, y1);
        let d = self.decimeters_at(x1, y1);
        match (a, b, c, d) {
            (Some(a), Some(b), Some(c), Some(d)) => {
                let z = [a, b, c, d];
                assert(z@ =~= seq![a, b, c, d]);
                Some(z)
            },
            _ => None,
        }
    }
}

} // verus!
