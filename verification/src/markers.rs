//! Marker records: one visual marker per non-blank cell of a parsed diagram,
//! each carrying its fixed world-space anchor (the geometric center of its
//! home cell, with the grid centered at the world origin) and its directive.

use vstd::prelude::*;
use crate::diagram::{CellTable, DiagramError, MoveType, directive_total, move_type_from_char};
use crate::motion::{MAX_ANCHOR, MAX_CYCLE_LEN, MAX_HALF_EXTENT, Phase, Pos, interpolate, motion_x, motion_y};

verus! {

/// One marker: the anchor of its home cell and the cell's directive.
#[derive(Copy, Clone, PartialEq, Eq, Structural, Debug)]
pub struct Cell {
    pub pos: Pos,
    pub move_type: MoveType,
}

impl Cell {
    /// Builds a marker record.
    pub fn new(pos: Pos, move_type: MoveType) -> (r: Cell)
        ensures
            r == (Cell { pos, move_type }),
    {
        Cell { pos, move_type }
    }
}

/// Builds a marker for one diagram character at a given anchor.
pub fn create_cell(cell_type: char, pos: Pos) -> (r: Cell)
    requires
        crate::diagram::is_cell_char(cell_type),
    ensures
        r == (Cell { pos, move_type: directive_total(cell_type) }),
{
    let move_type = move_type_from_char(cell_type);
    Cell::new(pos, move_type)
}

/// The configuration of a diagram scene: the parsed table, the cells'
/// half-extents in world units, the marker radius, and the cycle length in
/// the caller's time unit.
pub struct CellsParam {
    pub cell_table: CellTable,
    pub half_cell_w: i64,
    pub half_cell_h: i64,
    pub circle_size: i64,
    pub cycle_len: u64,
}

impl CellsParam {
    /// Well-formed configuration: a well-formed table, positive bounded
    /// half-extents small enough that every anchor stays in range, and a
    /// positive bounded cycle length.
    pub open spec fn wf(&self) -> bool {
        &&& self.cell_table.wf()
        &&& 0 < self.half_cell_w <= MAX_HALF_EXTENT
        &&& 0 < self.half_cell_h <= MAX_HALF_EXTENT
        &&& self.half_cell_w * (self.cell_table.width as int) <= MAX_ANCHOR
        &&& self.half_cell_h * (self.cell_table.height as int) <= MAX_ANCHOR
        &&& 0 < self.cycle_len <= MAX_CYCLE_LEN
    }

    /// Builds a configuration, refusing degenerate geometry: a zero-area
    /// cell or a zero-length cycle is a fatal configuration error.
    pub fn new(
        cell_table: CellTable,
        half_cell_w: i64,
        half_cell_h: i64,
        circle_size: i64,
        cycle_len: u64,
    ) -> (r: Result<CellsParam, DiagramError>)
        requires
            cell_table.wf(),
            half_cell_w <= MAX_HALF_EXTENT,
            half_cell_h <= MAX_HALF_EXTENT,
            cycle_len <= MAX_CYCLE_LEN,
            half_cell_w * (cell_table.width as int) <= MAX_ANCHOR,
            half_cell_h * (cell_table.height as int) <= MAX_ANCHOR,
        ensures
            (r is Ok) <==> (0 < half_cell_w && 0 < half_cell_h && 0 < cycle_len),
            (match r {
                Ok(p) => p == (CellsParam {
                    cell_table,
                    half_cell_w,
                    half_cell_h,
                    circle_size,
                    cycle_len,
                }) && p.wf(),
                Err(e) => e == DiagramError::DegenerateGeometry,
            }),
    {
        if half_cell_w < 1 || half_cell_h < 1 || cycle_len < 1 {
            return Err(DiagramError::DegenerateGeometry);
        }
        Ok(CellsParam { cell_table, half_cell_w, half_cell_h, circle_size, cycle_len })
    }
}

/// The horizontal anchor of grid column `ix`: the center of the column's
/// cells, with the whole grid centered at the world origin.
pub open spec fn spec_anchor_x(p: CellsParam, ix: int) -> int {
    p.half_cell_w * (2 * ix + 1 - p.cell_table.width)
}

/// The vertical anchor of world row `wy` (world rows count bottom-up).
pub open spec fn spec_anchor_y(p: CellsParam, wy: int) -> int {
    p.half_cell_h * (2 * wy + 1 - p.cell_table.height)
}

/// The directive of the cell at column `ix`, world row `wy`: table rows are
/// stored top-down, so the world row is flipped.
pub open spec fn spec_directive_at(p: CellsParam, ix: int, wy: int) -> MoveType {
    directive_total(p.cell_table.spec_get(ix, p.cell_table.height - 1 - wy))
}

/// The marker of the cell at column `ix`, world row `wy`.
pub open spec fn spec_marker(p: CellsParam, ix: int, wy: int) -> Cell {
    Cell {
        pos: Pos { x: spec_anchor_x(p, ix) as i64, y: spec_anchor_y(p, wy) as i64 },
        move_type: spec_directive_at(p, ix, wy),
    }
}

/// The markers of world row `wy` from column `ix` on: one per non-blank cell,
/// in column order.
pub open spec fn row_markers(p: CellsParam, wy: int, ix: int) -> Seq<Cell>
    decreases p.cell_table.width - ix,
{
    if ix < 0 || ix >= p.cell_table.width {
        Seq::<Cell>::empty()
    } else {
        let rest = row_markers(p, wy, ix + 1);
        if spec_directive_at(p, ix, wy) == MoveType::Blank {
            rest
        } else {
            seq![spec_marker(p, ix, wy)] + rest
        }
    }
}

/// The markers of the whole grid from world row `wy` up: rows bottom-up,
/// columns left to right, one marker per non-blank cell.
pub open spec fn grid_markers(p: CellsParam, wy: int) -> Seq<Cell>
    decreases p.cell_table.height - wy,
{
    if wy < 0 || wy >= p.cell_table.height {
        Seq::<Cell>::empty()
    } else {
        row_markers(p, wy, 0) + grid_markers(p, wy + 1)
    }
}

impl CellsParam {
    /// Builds the markers of the diagram: exactly one per non-blank cell,
    /// anchored at the cell's geometric center, rows bottom-up and columns
    /// left to right. Blank cells produce no marker.
    pub fn create_markers(&self) -> (r: Vec<Cell>)
        requires
            self.wf(),
        ensures
            r@ == grid_markers(*self, 0),
            forall|i: int|
                0 <= i < r@.len() ==> (#[trigger] r@[i]).move_type != MoveType::Blank
                    && -MAX_ANCHOR <= r@[i].pos.x <= MAX_ANCHOR && -MAX_ANCHOR <= r@[i].pos.y
                    <= MAX_ANCHOR,
    {
        let w = self.cell_table.width;
        let h = self.cell_table.height;
        proof {
            assert((w as int) <= MAX_ANCHOR && (h as int) <= MAX_ANCHOR) by (nonlinear_arith)
                requires
                    0 < self.half_cell_w,
                    0 < self.half_cell_h,
                    self.half_cell_w * (w as int) <= MAX_ANCHOR,
                    self.half_cell_h * (h as int) <= MAX_ANCHOR,
                    w > 0,
                    h > 0,
            ;
        }
        let mut r: Vec<Cell> = Vec::new();
        let mut wy: usize = 0;
        proof {
            assert(Seq::<Cell>::empty() + grid_markers(*self, 0) =~= grid_markers(*self, 0));
        }
        while wy < h
            invariant
                self.wf(),
                w == self.cell_table.width,
                h == self.cell_table.height,
                (w as int) <= MAX_ANCHOR,
                (h as int) <= MAX_ANCHOR,
                wy <= h,
                grid_markers(*self, 0) == r@ + grid_markers(*self, wy as int),
                forall|i: int|
                    0 <= i < r@.len() ==> (#[trigger] r@[i]).move_type != MoveType::Blank
                        && -MAX_ANCHOR <= r@[i].pos.x <= MAX_ANCHOR && -MAX_ANCHOR <= r@[i].pos.y
                        <= MAX_ANCHOR,
            decreases h - wy,
        {
            let mut ix: usize = 0;
            proof {
                assert(r@ + (row_markers(*self, wy as int, 0) + grid_markers(*self, wy + 1))
                    =~= (r@ + row_markers(*self, wy as int, 0)) + grid_markers(*self, wy + 1));
            }
            while ix < w
                invariant
                    self.wf(),
                    w == self.cell_table.width,
                    h == self.cell_table.height,
                    (w as int) <= MAX_ANCHOR,
                    (h as int) <= MAX_ANCHOR,
                    wy < h,
                    ix <= w,
                    grid_markers(*self, 0) == (r@ + row_markers(*self, wy as int, ix as int))
                        + grid_markers(*self, wy + 1),
                    forall|i: int|
                        0 <= i < r@.len() ==> (#[trigger] r@[i]).move_type != MoveType::Blank
                            && -MAX_ANCHOR <= r@[i].pos.x <= MAX_ANCHOR && -MAX_ANCHOR
                            <= r@[i].pos.y <= MAX_ANCHOR,
                decreases w - ix,
            {
                let c = self.cell_table.get(ix, h - 1 - wy);
                proof {
                    if (h - 1 - wy) < self.cell_table.rows().len() && (ix as int)
                        < self.cell_table.rows()[h - 1 - wy].len() {
                        assert(crate::diagram::row_valid(self.cell_table.rows()[h - 1 - wy]));
                    }
                }
                let mt = move_type_from_char(c);
                if !matches!(mt, MoveType::Blank) {
                    let tx: i64 = 2 * (ix as i64) + 1 - (w as i64);
                    let ty: i64 = 2 * (wy as i64) + 1 - (h as i64);
                    proof {
                        assert(-MAX_ANCHOR <= self.half_cell_w * (tx as int)
                            <= MAX_ANCHOR) by (nonlinear_arith)
                            requires
                                0 < self.half_cell_w,
                                self.half_cell_w * (w as int) <= MAX_ANCHOR,
                                -(w as int) <= (tx as int) <= (w as int),
                        ;
                        assert(-MAX_ANCHOR <= self.half_cell_h * (ty as int)
                            <= MAX_ANCHOR) by (nonlinear_arith)
                            requires
                                0 < self.half_cell_h,
                                self.half_cell_h * (h as int) <= MAX_ANCHOR,
                                -(h as int) <= (ty as int) <= (h as int),
                        ;
                    }
                    let xa: i64 = self.half_cell_w * tx;
                    let ya: i64 = self.half_cell_h * ty;
                    proof {
                        assert(xa == spec_anchor_x(*self, ix as int));
                        assert(ya == spec_anchor_y(*self, wy as int));
                    }
                    let m = Cell { pos: Pos { x: xa, y: ya }, move_type: mt };
                    let ghost prev = r@;
                    r.push(m);
                    proof {
                        assert(m == spec_marker(*self, ix as int, wy as int));
                        assert(row_markers(*self, wy as int, ix as int) == seq![m] + row_markers(
                            *self,
                            wy as int,
                            ix + 1,
                        ));
                        assert((prev + (seq![m] + row_markers(*self, wy as int, ix + 1)))
                            =~= ((prev + seq![m]) + row_markers(*self, wy as int, ix + 1)));
                        assert(r@ =~= prev + seq![m]);
                    }
                }
                ix = ix + 1;
            }
            wy = wy + 1;
            proof {
                assert(row_markers(*self, wy - 1 as int, w as int) =~= Seq::<Cell>::empty());
                assert(r@ + Seq::<Cell>::empty() =~= r@);
            }
        }
        proof {
            assert(grid_markers(*self, h as int) =~= Seq::<Cell>::empty());
            assert(r@ + Seq::<Cell>::empty() =~= r@);
        }
        r
    }
}

/// Advances every marker to its position at the given phase: the result has
/// one position per marker, each computed independently from the marker's
/// own directive and anchor and the shared phase.
pub fn move_cells(cells: &Vec<Cell>, half_cell_w: i64, half_cell_h: i64, phase: Phase) -> (r: Vec<
    Pos,
>)
    requires
        phase.wf(),
        0 < half_cell_w <= MAX_HALF_EXTENT,
        0 < half_cell_h <= MAX_HALF_EXTENT,
        forall|i: int|
            0 <= i < cells@.len() ==> -MAX_ANCHOR <= (#[trigger] cells@[i]).pos.x <= MAX_ANCHOR
                && -MAX_ANCHOR <= cells@[i].pos.y <= MAX_ANCHOR,
    ensures
        r@.len() == cells@.len(),
        forall|i: int|
            0 <= i < cells@.len() ==> (#[trigger] r@[i]).x == motion_x(
                cells@[i].move_type,
                cells@[i].pos.x as int,
                half_cell_w as int,
                phase.num as int,
                phase.den as int,
            ) && r@[i].y == motion_y(
                cells@[i].move_type,
                cells@[i].pos.y as int,
                half_cell_h as int,
                phase.num as int,
                phase.den as int,
            ),
{
    let mut r: Vec<Pos> = Vec::new();
    let mut i: usize = 0;
    while i < cells.len()
        invariant
            phase.wf(),
            0 < half_cell_w <= MAX_HALF_EXTENT,
            0 < half_cell_h <= MAX_HALF_EXTENT,
            forall|k: int|
                0 <= k < cells@.len() ==> -MAX_ANCHOR <= (#[trigger] cells@[k]).pos.x <= MAX_ANCHOR
                    && -MAX_ANCHOR <= cells@[k].pos.y <= MAX_ANCHOR,
            i <= cells@.len(),
            r@.len() == i,
            forall|k: int|
                0 <= k < i ==> (#[trigger] r@[k]).x == motion_x(
                    cells@[k].move_type,
                    cells@[k].pos.x as int,
                    half_cell_w as int,
                    phase.num as int,
                    phase.den as int,
                ) && r@[k].y == motion_y(
                    cells@[k].move_type,
                    cells@[k].pos.y as int,
                    half_cell_h as int,
                    phase.num as int,
                    phase.den as int,
                ),
        decreases cells@.len() - i,
    {
        let cell = &cells[i];
        let p = interpolate(cell.move_type, cell.pos.x, cell.pos.y, half_cell_w, half_cell_h, phase);
        r.push(p);
        i = i + 1;
    }
    r
}

} // verus!
