//! The rules of a move, on the cells of a stage as a sequence row by row.

use vstd::prelude::*;
use crate::object::Object;

verus! {

/// Cells in a row of the stage.
pub const STAGEWIDTH: usize = 10;

/// Rows of the stage.
pub const STAGEHEIGHT: usize = 8;

/// Cells of the stage.
pub const STAGESIZE: usize = STAGEWIDTH * STAGEHEIGHT;

/// Column `x` of row `y` lies on the stage.
pub open spec fn in_stage(x: int, y: int) -> bool {
    0 <= x < STAGEWIDTH && 0 <= y < STAGEHEIGHT
}

/// Where column `x` of row `y` stands in the sequence of cells.
pub open spec fn cell(x: int, y: int) -> int {
    y * STAGEWIDTH + x
}

/// The cells after the man has gone from cell `p` into cell `tp`.
pub open spec fn walked(objects: Seq<Object>, p: int, tp: int) -> Seq<Object> {
    let entered = objects.update(tp, objects[tp].entered_by_man());
    entered.update(p, entered[p].left_by_man())
}

/// The cells after the man has gone from cell `p` into cell `tp` and pushed
/// the block that stood there into cell `tp2`.
pub open spec fn pushed(objects: Seq<Object>, p: int, tp: int, tp2: int) -> Seq<Object> {
    let shoved = objects.update(tp2, objects[tp2].entered_by_block());
    let taken = shoved.update(tp, shoved[tp].taken_by_man());
    taken.update(p, taken[p].left_by_man())
}

/// The cells after whoever stands in column `x` of row `y` has tried to move
/// by `dx` columns and `dy` rows.
///
/// The move is made when the target lies on the stage and is free, or holds a
/// block that has a free cell of the stage behind it, the same step further on.
/// In every other case the cells stay as they are.
pub open spec fn moved(objects: Seq<Object>, x: int, dx: int, y: int, dy: int) -> Seq<Object> {
    let p = cell(x, y);
    let tp = cell(x + dx, y + dy);
    let tp2 = cell(x + dx + dx, y + dy + dy);
    if !in_stage(x + dx, y + dy) {
        objects
    } else if objects[tp].is_free() {
        walked(objects, p, tp)
    } else if objects[tp].is_block() && in_stage(x + dx + dx, y + dy + dy)
        && objects[tp2].is_free() {
        pushed(objects, p, tp, tp2)
    } else {
        objects
    }
}

} // verus!
