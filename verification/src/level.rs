//! Reading the cells of a stage from its text.

use vstd::prelude::*;
use crate::object::Object;
use crate::rules::{STAGEWIDTH, STAGEHEIGHT, STAGESIZE};
use crate::search::{first_match, lemma_first_match_is};
use crate::text::{rows_of, rows_view, split_rows};

verus! {

/// Why a text is not a stage.
#[derive(Copy, Clone, Debug, PartialEq, Eq, Structural)]
pub enum ParseError {
    /// The character `ch`, at column `col` of row `row`, stands for no object.
    InvalidCharacter { ch: char, row: usize, col: usize },
    /// The text has more rows than the stage, or a row with more cells than
    /// a row of the stage.
    DimensionMismatch,
}

/// The rows are no more than the stage has, and none is longer than a row
/// of the stage.
pub open spec fn fits(rows: Seq<Seq<char>>) -> bool {
    &&& rows.len() <= STAGEHEIGHT
    &&& forall|y: int| 0 <= y < rows.len() ==> (#[trigger] rows[y]).len() <= STAGEWIDTH
}

/// The predicate that holds of the characters that stand for no object.
pub open spec fn is_unreadable() -> spec_fn(char) -> bool {
    |c: char| Object::spec_from_char(c) is None
}

/// The column of the first character of the row that stands for no object,
/// or the length of the row if every character stands for one.
pub open spec fn bad_col(row: Seq<char>) -> nat {
    first_match(row, is_unreadable())
}

/// The predicate that holds of the rows with a character that stands for no
/// object.
pub open spec fn has_unreadable() -> spec_fn(Seq<char>) -> bool {
    |row: Seq<char>| bad_col(row) < row.len()
}

/// The first row with a character that stands for no object, or the number
/// of rows if there is none.
pub open spec fn bad_row(rows: Seq<Seq<char>>) -> nat {
    first_match(rows, has_unreadable())
}

/// The object that the rows put at column `x` of row `y`: `ObjUnknown` where
/// the rows do not reach.
pub open spec fn object_at(rows: Seq<Seq<char>>, x: int, y: int) -> Object {
    if 0 <= y < rows.len() && 0 <= x < rows[y].len() {
        match Object::spec_from_char(rows[y][x]) {
            Some(object) => object,
            None => Object::ObjUnknown,
        }
    } else {
        Object::ObjUnknown
    }
}

/// The cells of the stage that the rows describe, row by row.
pub open spec fn laid_out(rows: Seq<Seq<char>>) -> Seq<Object> {
    Seq::new(
        STAGESIZE as nat,
        |i: int| object_at(rows, i % (STAGEWIDTH as int), i / (STAGEWIDTH as int)),
    )
}

/// What reading a text gives: the cells of its stage, or why it has none.
///
/// A text whose rows do not fit the stage is a `DimensionMismatch`. One whose
/// rows fit is an `InvalidCharacter` at the first character, row by row, that
/// stands for no object. Every other text gives its cells.
pub open spec fn parsed(text: Seq<char>) -> Result<Seq<Object>, ParseError> {
    let rows = rows_of(text);
    let y = bad_row(rows) as int;
    if !fits(rows) {
        Err(ParseError::DimensionMismatch)
    } else if y < rows.len() {
        let x = bad_col(rows[y]) as int;
        Err(ParseError::InvalidCharacter { ch: rows[y][x], row: y as usize, col: x as usize })
    } else {
        Ok(laid_out(rows))
    }
}

/// Whether the rows fit the stage.
fn check_fit(rows: &Vec<Vec<char>>) -> (r: bool)
    ensures
        r == fits(rows_view(rows@)),
{
    if rows.len() > STAGEHEIGHT {
        return false;
    }
    let mut y: usize = 0;
    while y < rows.len()
        invariant
            y <= rows.len(),
            rows.len() <= STAGEHEIGHT,
            forall|k: int| 0 <= k < y ==> (#[trigger] rows_view(rows@)[k]).len() <= STAGEWIDTH,
        decreases rows.len() - y,
    {
        if rows[y].len() > STAGEWIDTH {
            assert(rows_view(rows@)[y as int].len() > STAGEWIDTH);
            return false;
        }
        y = y + 1;
    }
    true
}

/// Reads the cells of a stage from its text.
pub fn parse(text: &str) -> (r: Result<[Object; STAGESIZE], ParseError>)
    ensures
        match r {
            Ok(objects) => parsed(text@) == Ok::<Seq<Object>, ParseError>(objects@),
            Err(e) => parsed(text@) == Err::<Seq<Object>, ParseError>(e),
        },
{
    let rows = split_rows(text);
    let ghost rv = rows_view(rows@);
    if !check_fit(&rows) {
        return Err(ParseError::DimensionMismatch);
    }
    let mut objects: [Object; STAGESIZE] = [Object::ObjUnknown; STAGESIZE];
    let mut y: usize = 0;
    while y < rows.len()
        invariant
            y <= rows.len(),
            rv == rows_view(rows@),
            rv == rows_of(text@),
            fits(rv),
            forall|k: int| 0 <= k < y ==> !has_unreadable()(#[trigger] rv[k]),
            forall|i: int|
                0 <= i < STAGESIZE ==> #[trigger] objects@[i] == if i / (STAGEWIDTH as int) < y {
                    object_at(rv, i % (STAGEWIDTH as int), i / (STAGEWIDTH as int))
                } else {
                    Object::ObjUnknown
                },
        decreases rows.len() - y,
    {
        let row = &rows[y];
        assert(row@ == rv[y as int]);
        let mut x: usize = 0;
        while x < row.len()
            invariant
                y < rows.len(),
                x <= row.len(),
                row.len() <= STAGEWIDTH,
                rows.len() <= STAGEHEIGHT,
                row@ == rv[y as int],
                rv.len() == rows.len(),
                rv == rows_of(text@),
                fits(rv),
                forall|k: int| 0 <= k < y ==> !has_unreadable()(#[trigger] rv[k]),
                forall|k: int| 0 <= k < x ==> !is_unreadable()(#[trigger] row@[k]),
                forall|i: int|
                    0 <= i < STAGESIZE ==> #[trigger] objects@[i] == if i / (STAGEWIDTH as int) < y
                        || (i / (STAGEWIDTH as int) == y && i % (STAGEWIDTH as int) < x) {
                        object_at(rv, i % (STAGEWIDTH as int), i / (STAGEWIDTH as int))
                    } else {
                        Object::ObjUnknown
                    },
            decreases row.len() - x,
        {
            let c = row[x];
            match Object::from_char(c) {
                Some(object) => {
                    objects[y * STAGEWIDTH + x] = object;
                },
                None => {
                    proof {
                        lemma_first_match_is(row@, is_unreadable(), x as int);
                        lemma_first_match_is(rv, has_unreadable(), y as int);
                    }
                    return Err(ParseError::InvalidCharacter { ch: c, row: y, col: x });
                },
            }
            x = x + 1;
        }
        proof {
            lemma_first_match_is(row@, is_unreadable(), row@.len() as int);
        }
        y = y + 1;
    }
    proof {
        lemma_first_match_is(rv, has_unreadable(), rv.len() as int);
        assert(objects@ =~= laid_out(rv));
    }
    Ok(objects)
}

} // verus!
