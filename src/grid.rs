//! Occupancy grids: which cells are drawn.
use vstd::prelude::*;

verus! {

/// A grid cell by column and row.
#[derive(Clone, Copy, Debug, PartialEq, Eq, Structural)]
pub struct GridCell {
    pub column: usize,
    pub row: usize,
}

/// Whether a cell value is drawn: the cell is occupied (neither free, 0, nor unknown, below
/// zero) and its value reaches `threshold`.
pub open spec fn drawn(value: i8, threshold: i8) -> bool {
    value > 0 && value >= threshold
}

/// The drawn cells among the first `n` of a row-major grid `width` cells wide, in storage order.
pub open spec fn occupied_prefix(data: Seq<i8>, width: nat, threshold: i8, n: nat) -> Seq<GridCell>
    decreases n,
{
    if n == 0 || width == 0 {
        Seq::empty()
    } else {
        let i = (n - 1) as nat;
        let rest = occupied_prefix(data, width, threshold, i);
        if drawn(data[i as int], threshold) {
            rest.push(GridCell { column: (i % width) as usize, row: (i / width) as usize })
        } else {
            rest
        }
    }
}

/// The occupied cells of a row-major grid `width` cells wide whose value reaches `threshold`;
/// free and unknown cells are never drawn. A grid of width zero has no cells.
pub fn occupied_cells(data: &Vec<i8>, width: u32, threshold: i8) -> (r: Vec<GridCell>)
    ensures
        r@ == occupied_prefix(data@, width as nat, threshold, data@.len()),
{
    let mut out: Vec<GridCell> = Vec::new();
    if width == 0 {
        return out;
    }
    let w = width as usize;
    let mut i: usize = 0;
    while i < data.len()
        invariant
            w == width,
            w > 0,
            i <= data@.len(),
            out@ == occupied_prefix(data@, width as nat, threshold, i as nat),
        decreases data@.len() - i,
    {
        if data[i] > 0 && data[i] >= threshold {
            out.push(GridCell { column: i % w, row: i / w });
        }
        i += 1;
    }
    out
}

} // verus!
