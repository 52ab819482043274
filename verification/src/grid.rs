//! The tile grid: its bounds, the kind of each cell (corner, edge or fill),
//! the sprite drawn for each kind, and the list of all cells.

use vstd::prelude::*;
use vstd::arithmetic::div_mod::lemma_fundamental_div_mod;
use vstd::arithmetic::div_mod::lemma_fundamental_div_mod_converse;
use vstd::arithmetic::div_mod::lemma_mod_pos_bound;

verus! {

/// Sprite of the top left corner.
pub const CORNER_TOP_LEFT: u32 = 18;

/// Sprite of the top edge.
pub const EDGE_TOP: u32 = 19;

/// Sprite of the top right corner.
pub const CORNER_TOP_RIGHT: u32 = 20;

/// Sprite of the left edge.
pub const EDGE_LEFT: u32 = 24;

/// Sprite of a cell inside the border.
pub const FILL: u32 = 25;

/// Sprite of the right edge.
pub const EDGE_RIGHT: u32 = 26;

/// Sprite of the bottom left corner.
pub const CORNER_BOTTOM_LEFT: u32 = 30;

/// Sprite of the bottom edge.
pub const EDGE_BOTTOM: u32 = 31;

/// Sprite of the bottom right corner.
pub const CORNER_BOTTOM_RIGHT: u32 = 32;

/// Where a cell lies relative to the border of the grid.
#[derive(Clone, Copy, Debug, PartialEq, Eq, Structural)]
pub enum CellKind {
    TopLeft,
    TopRight,
    BottomLeft,
    BottomRight,
    Top,
    Left,
    Right,
    Bottom,
    Fill,
}

impl CellKind {
    /// The sprite drawn for a cell of this kind.
    pub open spec fn spec_sprite_index(self) -> u32 {
        match self {
            CellKind::TopLeft => CORNER_TOP_LEFT,
            CellKind::TopRight => CORNER_TOP_RIGHT,
            CellKind::BottomLeft => CORNER_BOTTOM_LEFT,
            CellKind::BottomRight => CORNER_BOTTOM_RIGHT,
            CellKind::Top => EDGE_TOP,
            CellKind::Left => EDGE_LEFT,
            CellKind::Right => EDGE_RIGHT,
            CellKind::Bottom => EDGE_BOTTOM,
            CellKind::Fill => FILL,
        }
    }

    /// One of the four corner kinds.
    pub open spec fn is_corner(self) -> bool {
        self == CellKind::TopLeft || self == CellKind::TopRight || self == CellKind::BottomLeft
            || self == CellKind::BottomRight
    }

    /// The sprite drawn for a cell of this kind.
    pub fn sprite_index(self) -> (index: u32)
        ensures
            index == self.spec_sprite_index(),
    {
        match self {
            CellKind::TopLeft => CORNER_TOP_LEFT,
            CellKind::TopRight => CORNER_TOP_RIGHT,
            CellKind::BottomLeft => CORNER_BOTTOM_LEFT,
            CellKind::BottomRight => CORNER_BOTTOM_RIGHT,
            CellKind::Top => EDGE_TOP,
            CellKind::Left => EDGE_LEFT,
            CellKind::Right => EDGE_RIGHT,
            CellKind::Bottom => EDGE_BOTTOM,
            CellKind::Fill => FILL,
        }
    }
}

/// One cell of the grid with the sprite assigned to it.
#[derive(Clone, Copy, Debug, PartialEq, Eq, Structural)]
pub struct Cell {
    pub x: i32,
    pub y: i32,
    pub sprite_index: u32,
}

/// Inclusive rectangular range of cell coordinates.
#[derive(Clone, Copy, Debug, PartialEq, Eq, Structural)]
pub struct GridBounds {
    pub x_min: i32,
    pub x_max: i32,
    pub y_min: i32,
    pub y_max: i32,
}

impl GridBounds {
    /// The range holds at least one cell along each axis.
    pub open spec fn wf(&self) -> bool {
        self.x_min <= self.x_max && self.y_min <= self.y_max
    }

    /// Both axes hold at least two cells, so that the four corners are four
    /// different cells.
    pub open spec fn has_four_corners(&self) -> bool {
        self.x_min < self.x_max && self.y_min < self.y_max
    }

    /// Number of cells in a row.
    pub open spec fn spec_width(&self) -> int {
        self.x_max - self.x_min + 1
    }

    /// Number of rows.
    pub open spec fn spec_height(&self) -> int {
        self.y_max - self.y_min + 1
    }

    /// Number of cells.
    pub open spec fn spec_cell_count(&self) -> int {
        self.spec_width() * self.spec_height()
    }

    /// Whether `(x, y)` is a cell of the grid.
    pub open spec fn spec_contains(&self, x: int, y: int) -> bool {
        self.x_min <= x <= self.x_max && self.y_min <= y <= self.y_max
    }

    /// The kind of the cell at `(x, y)`: corners come before edges, the top
    /// edge before the side edges, the side edges before the bottom edge.
    pub open spec fn spec_kind(&self, x: int, y: int) -> CellKind {
        if x == self.x_min && y == self.y_max {
            CellKind::TopLeft
        } else if x == self.x_max && y == self.y_max {
            CellKind::TopRight
        } else if x == self.x_min && y == self.y_min {
            CellKind::BottomLeft
        } else if x == self.x_max && y == self.y_min {
            CellKind::BottomRight
        } else if y == self.y_max {
            CellKind::Top
        } else if x == self.x_min {
            CellKind::Left
        } else if x == self.x_max {
            CellKind::Right
        } else if y == self.y_min {
            CellKind::Bottom
        } else {
            CellKind::Fill
        }
    }

    /// The sprite of the cell at `(x, y)`.
    pub open spec fn spec_sprite_index(&self, x: int, y: int) -> u32 {
        self.spec_kind(x, y).spec_sprite_index()
    }

    /// Position of `(x, y)` in the list of cells: rows from the bottom up,
    /// each row from left to right.
    pub open spec fn spec_index_of(&self, x: int, y: int) -> int {
        (y - self.y_min) * self.spec_width() + (x - self.x_min)
    }

    /// The cell at position `i` of the list of cells.
    pub open spec fn spec_cell_at(&self, i: int) -> Cell {
        let x = self.x_min + i % self.spec_width();
        let y = self.y_min + i / self.spec_width();
        Cell { x: x as i32, y: y as i32, sprite_index: self.spec_sprite_index(x, y) }
    }

    /// Every cell of the grid with its sprite.
    pub open spec fn spec_cells(&self) -> Seq<Cell> {
        Seq::new(self.spec_cell_count() as nat, |i: int| self.spec_cell_at(i))
    }

    /// The bounds of a grid of `width` by `height` cells around the origin.
    /// Only odd sizes can be centred, so any other size gives `None`.
    pub fn centered(width: i32, height: i32) -> (bounds: Option<GridBounds>)
        ensures
            bounds.is_some() <==> (width > 0 && height > 0 && width % 2 == 1 && height % 2 == 1),
            bounds matches Some(b) ==> {
                &&& b.wf()
                &&& b.x_max == width / 2
                &&& b.x_min == -(width / 2)
                &&& b.y_max == height / 2
                &&& b.y_min == -(height / 2)
                &&& b.spec_width() == width
                &&& b.spec_height() == height
            },
    {
        if width <= 0 || height <= 0 {
            return None;
        }
        let w: u32 = width as u32;
        let h: u32 = height as u32;
        if w % 2 != 1 || h % 2 != 1 {
            return None;
        }
        let x_max: i32 = (w / 2) as i32;
        let y_max: i32 = (h / 2) as i32;
        Some(GridBounds { x_min: -x_max, x_max, y_min: -y_max, y_max })
    }

    /// Number of cells in a row.
    pub fn width(&self) -> (w: u64)
        requires
            self.wf(),
        ensures
            w == self.spec_width(),
    {
        (self.x_max as i64 - self.x_min as i64 + 1) as u64
    }

    /// Number of rows.
    pub fn height(&self) -> (h: u64)
        requires
            self.wf(),
        ensures
            h == self.spec_height(),
    {
        (self.y_max as i64 - self.y_min as i64 + 1) as u64
    }

    /// Number of cells, or `None` where no list could hold that many.
    pub fn cell_count(&self) -> (count: Option<usize>)
        requires
            self.wf(),
        ensures
            count.is_some() <==> self.spec_cell_count() <= usize::MAX,
            count matches Some(n) ==> n == self.spec_cell_count(),
    {
        let w: u128 = self.width() as u128;
        let h: u128 = self.height() as u128;
        assert(0 <= w * h <= 0x1_0000_0000_0000_0000) by (nonlinear_arith)
            requires
                0 <= w <= 0x1_0000_0000,
                0 <= h <= 0x1_0000_0000,
        ;
        let count: u128 = w * h;
        if count <= usize::MAX as u128 {
            Some(count as usize)
        } else {
            None
        }
    }

    /// Whether `(x, y)` is a cell of the grid.
    pub fn contains(&self, x: i32, y: i32) -> (inside: bool)
        ensures
            inside == self.spec_contains(x as int, y as int),
    {
        self.x_min <= x && x <= self.x_max && self.y_min <= y && y <= self.y_max
    }

    /// Tells corner, edge and fill cells apart. The first rule that matches
    /// decides.
    pub fn classify(&self, x: i32, y: i32) -> (kind: CellKind)
        ensures
            kind == self.spec_kind(x as int, y as int),
    {
        let is_left: bool = x == self.x_min;
        let is_right: bool = x == self.x_max;
        let is_top: bool = y == self.y_max;
        let is_bottom: bool = y == self.y_min;
        if is_left && is_top {
            CellKind::TopLeft
        } else if is_right && is_top {
            CellKind::TopRight
        } else if is_left && is_bottom {
            CellKind::BottomLeft
        } else if is_right && is_bottom {
            CellKind::BottomRight
        } else if is_top {
            CellKind::Top
        } else if is_left {
            CellKind::Left
        } else if is_right {
            CellKind::Right
        } else if is_bottom {
            CellKind::Bottom
        } else {
            CellKind::Fill
        }
    }

    /// The sprite of the cell at `(x, y)`.
    pub fn sprite_index(&self, x: i32, y: i32) -> (index: u32)
        ensures
            index == self.spec_sprite_index(x as int, y as int),
    {
        self.classify(x, y).sprite_index()
    }

    /// Lists every cell of the grid with its sprite, row by row from the
    /// bottom, each row from the left.
    pub fn cells(&self) -> (cells: Vec<Cell>)
        requires
            self.wf(),
            self.spec_cell_count() <= usize::MAX,
        ensures
            cells@ == self.spec_cells(),
    {
        let ghost w: int = self.spec_width();
        let mut cells: Vec<Cell> = Vec::new();
        let mut y: i64 = self.y_min as i64;
        while y <= self.y_max as i64
            invariant
                self.wf(),
                w == self.spec_width(),
                self.y_min <= y <= self.y_max + 1,
                cells@ =~= Seq::new(
                    ((y - self.y_min) * w) as nat,
                    |i: int| self.spec_cell_at(i),
                ),
            decreases self.y_max + 1 - y,
        {
            let mut x: i64 = self.x_min as i64;
            while x <= self.x_max as i64
                invariant
                    self.wf(),
                    w == self.spec_width(),
                    self.y_min <= y <= self.y_max,
                    self.x_min <= x <= self.x_max + 1,
                    cells@ =~= Seq::new(
                        self.spec_index_of(x as int, y as int) as nat,
                        |i: int| self.spec_cell_at(i),
                    ),
                decreases self.x_max + 1 - x,
            {
                let sprite_index: u32 = self.sprite_index(x as i32, y as i32);
                proof {
                    let i = self.spec_index_of(x as int, y as int);
                    assert(0 <= (y - self.y_min) * w) by (nonlinear_arith)
                        requires
                            0 <= y - self.y_min,
                            0 < w,
                    ;
                    lemma_fundamental_div_mod_converse(i, w, y - self.y_min, x - self.x_min);
                    assert(self.spec_index_of(x + 1, y as int) == i + 1);
                }
                cells.push(Cell { x: x as i32, y: y as i32, sprite_index });
                x += 1;
            }
            proof {
                assert((y - self.y_min) * w + w == (y + 1 - self.y_min) * w) by (nonlinear_arith);
            }
            y += 1;
        }
        proof {
            assert((y - self.y_min) * w == self.spec_cell_count()) by (nonlinear_arith)
                requires
                    y - self.y_min == self.spec_height(),
                    w == self.spec_width(),
                    self.spec_cell_count() == self.spec_width() * self.spec_height(),
            ;
            assert(cells@ =~= self.spec_cells());
        }
        cells
    }
}

/// Which cell stands at a position of the list: its column is the remainder
/// and its row the quotient of the position by the width.
pub proof fn lemma_position_in_grid(b: GridBounds, i: int)
    requires
        b.wf(),
        0 <= i < b.spec_cell_count(),
    ensures
        0 <= i % b.spec_width() < b.spec_width(),
        0 <= i / b.spec_width() < b.spec_height(),
        b.spec_contains(b.spec_cell_at(i).x as int, b.spec_cell_at(i).y as int),
        b.spec_cell_at(i).x == b.x_min + i % b.spec_width(),
        b.spec_cell_at(i).y == b.y_min + i / b.spec_width(),
        b.spec_index_of(b.spec_cell_at(i).x as int, b.spec_cell_at(i).y as int) == i,
{
    let w = b.spec_width();
    let h = b.spec_height();
    lemma_fundamental_div_mod(i, w);
    lemma_mod_pos_bound(i, w);
    let q = i / w;
    let r = i % w;
    assert(w * q == q * w) by (nonlinear_arith);
    assert(0 <= q < h) by (nonlinear_arith)
        requires
            i == q * w + r,
            0 <= r < w,
            0 <= i < w * h,
            0 < w,
    ;
}

/// The position of a cell of the grid lies inside the list, and the list
/// holds that cell there.
pub proof fn lemma_index_of_in_grid(b: GridBounds, x: int, y: int)
    requires
        b.wf(),
        b.spec_contains(x, y),
    ensures
        0 <= b.spec_index_of(x, y) < b.spec_cell_count(),
        b.spec_cell_at(b.spec_index_of(x, y)) == (Cell {
            x: x as i32,
            y: y as i32,
            sprite_index: b.spec_sprite_index(x, y),
        }),
{
    let w = b.spec_width();
    let h = b.spec_height();
    let q = y - b.y_min;
    let r = x - b.x_min;
    let i = b.spec_index_of(x, y);
    assert(0 <= q * w + r < w * h) by (nonlinear_arith)
        requires
            0 <= q < h,
            0 <= r < w,
    ;
    lemma_fundamental_div_mod_converse(i, w, q, r);
}

/// A cell that touches no border is a fill cell.
pub proof fn lemma_interior_is_fill(b: GridBounds, x: int, y: int)
    requires
        b.x_min < x < b.x_max,
        b.y_min < y < b.y_max,
    ensures
        b.spec_kind(x, y) == CellKind::Fill,
        b.spec_sprite_index(x, y) == FILL,
{
}

/// Different kinds of cell are drawn with different sprites.
pub proof fn lemma_sprites_differ(a: CellKind, b: CellKind)
    ensures
        a.spec_sprite_index() == b.spec_sprite_index() <==> a == b,
{
}

/// In a grid of at least two columns and two rows, each corner cell has the
/// kind of its corner, and no other cell has that kind.
pub proof fn lemma_corners(b: GridBounds, x: int, y: int)
    requires
        b.has_four_corners(),
    ensures
        b.spec_kind(x, y) == CellKind::TopLeft <==> (x == b.x_min && y == b.y_max),
        b.spec_kind(x, y) == CellKind::TopRight <==> (x == b.x_max && y == b.y_max),
        b.spec_kind(x, y) == CellKind::BottomLeft <==> (x == b.x_min && y == b.y_min),
        b.spec_kind(x, y) == CellKind::BottomRight <==> (x == b.x_max && y == b.y_min),
{
}

/// In a grid of at least two columns and two rows, the list of cells holds
/// the sprite of each corner exactly once: at the position of that corner.
pub proof fn lemma_corner_sprite_used_once(b: GridBounds, corner: CellKind)
    requires
        b.wf(),
        b.has_four_corners(),
        corner.is_corner(),
    ensures
        exists|i: int|
            0 <= i < b.spec_cells().len() && (#[trigger] b.spec_cells()[i]).sprite_index
                == corner.spec_sprite_index(),
        forall|i: int, j: int|
            0 <= i < b.spec_cells().len() && 0 <= j < b.spec_cells().len() && (
            #[trigger] b.spec_cells()[i]).sprite_index == corner.spec_sprite_index() && (
            #[trigger] b.spec_cells()[j]).sprite_index == corner.spec_sprite_index() ==> i == j,
{
    let cx: int = if corner == CellKind::TopLeft || corner == CellKind::BottomLeft {
        b.x_min as int
    } else {
        b.x_max as int
    };
    let cy: int = if corner == CellKind::TopLeft || corner == CellKind::TopRight {
        b.y_max as int
    } else {
        b.y_min as int
    };
    let at = b.spec_index_of(cx, cy);
    lemma_index_of_in_grid(b, cx, cy);
    lemma_corners(b, cx, cy);
    assert(b.spec_cells()[at].sprite_index == corner.spec_sprite_index());
    assert forall|i: int|
        0 <= i < b.spec_cells().len() && (#[trigger] b.spec_cells()[i]).sprite_index
            == corner.spec_sprite_index() implies i == at by {
        lemma_position_in_grid(b, i);
        let c = b.spec_cell_at(i);
        lemma_sprites_differ(b.spec_kind(c.x as int, c.y as int), corner);
        lemma_corners(b, c.x as int, c.y as int);
    }
}

/// A cell of the border that is no corner has the kind of its edge. For the
/// left, right and bottom edges the grid must have two columns or two rows,
/// as a single column or row belongs to the edge that is matched first.
pub proof fn lemma_edges(b: GridBounds, x: int, y: int)
    ensures
        b.x_min < x < b.x_max && y == b.y_max ==> b.spec_kind(x, y) == CellKind::Top
            && b.spec_sprite_index(x, y) == EDGE_TOP,
        b.x_min < x < b.x_max && y == b.y_min && b.y_min < b.y_max ==> b.spec_kind(x, y)
            == CellKind::Bottom && b.spec_sprite_index(x, y) == EDGE_BOTTOM,
        b.y_min < y < b.y_max && x == b.x_min ==> b.spec_kind(x, y) == CellKind::Left
            && b.spec_sprite_index(x, y) == EDGE_LEFT,
        b.y_min < y < b.y_max && x == b.x_max && b.x_min < b.x_max ==> b.spec_kind(x, y)
            == CellKind::Right && b.spec_sprite_index(x, y) == EDGE_RIGHT,
{
}

/// The list of cells has one entry for each coordinate of the grid: as many
/// entries as the grid has cells, each inside the bounds and with the sprite
/// of its place, no coordinate twice, and every coordinate at its position.
pub proof fn lemma_cells_cover_grid_once(b: GridBounds)
    requires
        b.wf(),
    ensures
        b.spec_cells().len() == b.spec_width() * b.spec_height(),
        forall|i: int|
            0 <= i < b.spec_cells().len() ==> {
                let c = #[trigger] b.spec_cells()[i];
                b.spec_contains(c.x as int, c.y as int) && c.sprite_index == b.spec_sprite_index(
                    c.x as int,
                    c.y as int,
                )
            },
        forall|i: int, j: int|
            0 <= i < j < b.spec_cells().len() ==> !((#[trigger] b.spec_cells()[i]).x == (
            #[trigger] b.spec_cells()[j]).x && b.spec_cells()[i].y == b.spec_cells()[j].y),
        forall|x: int, y: int|
            b.spec_contains(x, y) ==> 0 <= #[trigger] b.spec_index_of(x, y) < b.spec_cells().len()
                && b.spec_cells()[b.spec_index_of(x, y)].x == x && b.spec_cells()[b.spec_index_of(
                x,
                y,
            )].y == y,
{
    assert(0 <= b.spec_width() * b.spec_height()) by (nonlinear_arith)
        requires
            0 < b.spec_width(),
            0 < b.spec_height(),
    ;
    assert forall|i: int| 0 <= i < b.spec_cells().len() implies {
        let c = #[trigger] b.spec_cells()[i];
        b.spec_contains(c.x as int, c.y as int) && c.sprite_index == b.spec_sprite_index(
            c.x as int,
            c.y as int,
        )
    } by {
        lemma_position_in_grid(b, i);
    }
    assert forall|i: int, j: int| 0 <= i < j < b.spec_cells().len() implies !((
    #[trigger] b.spec_cells()[i]).x == (#[trigger] b.spec_cells()[j]).x && b.spec_cells()[i].y
        == b.spec_cells()[j].y) by {
        lemma_position_in_grid(b, i);
        lemma_position_in_grid(b, j);
    }
    assert forall|x: int, y: int| b.spec_contains(x, y) implies 0 <= #[trigger] b.spec_index_of(
        x,
        y,
    ) < b.spec_cells().len() && b.spec_cells()[b.spec_index_of(x, y)].x == x
        && b.spec_cells()[b.spec_index_of(x, y)].y == y by {
        lemma_index_of_in_grid(b, x, y);
    }
}

} // verus!
