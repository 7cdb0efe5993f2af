//! What holds of every stage and every step.

use vstd::prelude::*;
use crate::command::Direction;
use crate::counting::{
    count_in_rows, count_where, is_value, lemma_count_concat, lemma_count_in_rows_first,
    lemma_count_none, lemma_count_pointwise, lemma_count_update,
};
use crate::level::{ParseError, has_unreadable, is_unreadable, laid_out, object_at, parsed};
use crate::object::{Object, holds_block, holds_man};
use crate::rules::{STAGEWIDTH, STAGEHEIGHT, pushed, walked};
use crate::search::{first_match, lemma_first_match, lemma_first_match_is};
use crate::stage::StageView;
use crate::text::{is_line_feed, rows_of, trimmed};

verus! {

/// A step against a wall changes nothing.
pub proof fn lemma_wall_stops_man(stage: StageView, dir: Direction)
    requires
        stage.wf(),
        stage.faces(dir, 1),
        stage.objects[stage.ahead(dir, 1)] == Object::ObjWall,
    ensures
        stage.stepped(dir) == stage,
{
}

/// A step off the stage changes nothing.
pub proof fn lemma_edge_stops_man(stage: StageView, dir: Direction)
    requires
        stage.wf(),
        !stage.faces(dir, 1),
    ensures
        stage.stepped(dir) == stage,
{
}

/// A step against a block that has another block behind it changes nothing.
pub proof fn lemma_block_stops_block(stage: StageView, dir: Direction)
    requires
        stage.wf(),
        stage.faces(dir, 1),
        stage.faces(dir, 2),
        stage.objects[stage.ahead(dir, 1)].is_block(),
        stage.objects[stage.ahead(dir, 2)].is_block(),
    ensures
        stage.stepped(dir) == stage,
{
}

/// A step against a block with a free goal behind it puts the block on the
/// goal and the man in the block's place.
pub proof fn lemma_block_pushed_onto_goal(stage: StageView, dir: Direction)
    requires
        stage.wf(),
        stage.faces(dir, 1),
        stage.faces(dir, 2),
        stage.objects[stage.ahead(dir, 1)].is_block(),
        stage.objects[stage.ahead(dir, 2)] == Object::ObjGoal,
    ensures
        stage.stepped(dir).objects[stage.ahead(dir, 2)] == Object::ObjBlockOnGoal,
        stage.stepped(dir).objects[stage.ahead(dir, 1)].is_man(),
{
    lemma_first_match(stage.objects, holds_man());
}

/// When the only block off a goal is pushed onto a free goal, the stage is
/// cleared.
pub proof fn lemma_last_block_clears(stage: StageView, dir: Direction)
    requires
        stage.wf(),
        stage.faces(dir, 1),
        stage.faces(dir, 2),
        stage.objects[stage.ahead(dir, 1)] == Object::ObjBlock,
        stage.objects[stage.ahead(dir, 2)] == Object::ObjGoal,
        forall|i: int|
            0 <= i < stage.objects.len() && i != stage.ahead(dir, 1) ==> stage.objects[i]
                != Object::ObjBlock,
    ensures
        stage.stepped(dir).cleared(),
{
    lemma_first_match(stage.objects, holds_man());
}

/// The man steps onto a free goal and stands on it; whatever step he takes
/// off it next leaves the goal as it was. The step back leaves the whole
/// stage as it was.
pub proof fn lemma_goal_survives_man(stage: StageView, dir: Direction, next: Direction)
    requires
        stage.wf(),
        stage.one_man(),
        stage.faces(dir, 1),
        stage.objects[stage.ahead(dir, 1)] == Object::ObjGoal,
    ensures
        stage.stepped(dir).objects[stage.ahead(dir, 1)] == Object::ObjManOnGoal,
        stage.stepped(dir).stepped(next) != stage.stepped(dir) ==> stage.stepped(dir).stepped(
            next,
        ).objects[stage.ahead(dir, 1)] == Object::ObjGoal,
        stage.stepped(dir).stepped(dir.spec_opposite()) == stage,
{
    let p = stage.man_cell() as int;
    let tp = stage.ahead(dir, 1);
    let on = stage.stepped(dir);
    lemma_first_match(stage.objects, holds_man());
    assert(on.objects[tp] == Object::ObjManOnGoal);
    assert forall|j: int| 0 <= j < on.objects.len() && j != tp implies !(
    #[trigger] on.objects[j]).is_man() by {
        if j != p {
            assert(on.objects[j] == stage.objects[j]);
        }
    }
    lemma_first_match_is(on.objects, holds_man(), tp);
    assert(on.man_cell() == tp);
    assert(on.stepped(dir.spec_opposite()).objects =~= stage.objects);
}

/// A step keeps the man in exactly one cell.
pub proof fn lemma_step_keeps_one_man(stage: StageView, dir: Direction)
    requires
        stage.wf(),
        stage.one_man(),
    ensures
        stage.stepped(dir).wf(),
        stage.stepped(dir).one_man(),
{
    let p = stage.man_cell() as int;
    let after = stage.stepped(dir);
    lemma_first_match(stage.objects, holds_man());
    if after != stage {
        let tp = stage.ahead(dir, 1);
        assert(after.objects[tp].is_man());
        assert forall|j: int| 0 <= j < after.objects.len() && j != tp implies !(
        #[trigger] after.objects[j]).is_man() by {
            if j != p && j != stage.ahead(dir, 2) {
                assert(after.objects[j] == stage.objects[j]);
            }
        }
        lemma_first_match_is(after.objects, holds_man(), tp);
    }
}

/// However the man steps, he stays in exactly one cell, and no block is made
/// or taken away.
pub proof fn lemma_play_keeps_man_and_blocks(stage: StageView, steps: Seq<Direction>)
    requires
        stage.wf(),
        stage.one_man(),
    ensures
        stage.played(steps).wf(),
        stage.played(steps).one_man(),
        count_where(stage.played(steps).objects, holds_block()) == count_where(
            stage.objects,
            holds_block(),
        ),
    decreases steps.len(),
{
    if steps.len() > 0 {
        let before = stage.played(steps.drop_last());
        lemma_play_keeps_man_and_blocks(stage, steps.drop_last());
        lemma_step_keeps_one_man(before, steps.last());
        lemma_step_keeps_blocks(before, steps.last());
    }
}

/// However the man has stepped, putting the stage back gives what reading
/// its text afresh gives.
pub proof fn lemma_reset_restores(stage: StageView, steps: Seq<Direction>)
    ensures
        stage.played(steps).origin == stage.origin,
        stage.played(steps).reloaded() == StageView::blank(stage.origin).reloaded(),
    decreases steps.len(),
{
    if steps.len() > 0 {
        lemma_reset_restores(stage, steps.drop_last());
    }
}

/// A step moves no goal and no wall, and reads no cell that was unknown.
pub proof fn lemma_step_keeps_ground(stage: StageView, dir: Direction, i: int)
    requires
        stage.wf(),
        0 <= i < stage.objects.len(),
    ensures
        stage.stepped(dir).objects[i].has_goal() == stage.objects[i].has_goal(),
        stage.stepped(dir).objects[i] == Object::ObjWall <==> stage.objects[i] == Object::ObjWall,
        stage.stepped(dir).objects[i] == Object::ObjUnknown <==> stage.objects[i]
            == Object::ObjUnknown,
{
    lemma_first_match(stage.objects, holds_man());
}

/// A step makes no block and takes none away.
pub proof fn lemma_step_keeps_blocks(stage: StageView, dir: Direction)
    requires
        stage.wf(),
    ensures
        count_where(stage.stepped(dir).objects, holds_block()) == count_where(
            stage.objects,
            holds_block(),
        ),
{
    let objects = stage.objects;
    let p = stage.man_cell() as int;
    lemma_first_match(objects, holds_man());
    if stage.stepped(dir) != stage {
        let tp = stage.ahead(dir, 1);
        let tp2 = stage.ahead(dir, 2);
        if objects[tp].is_free() {
            let entered = objects.update(tp, objects[tp].entered_by_man());
            lemma_count_update(objects, holds_block(), tp, objects[tp].entered_by_man());
            lemma_count_update(entered, holds_block(), p, entered[p].left_by_man());
            assert(stage.stepped(dir).objects == walked(objects, p, tp));
        } else {
            let shoved = objects.update(tp2, objects[tp2].entered_by_block());
            let taken = shoved.update(tp, shoved[tp].taken_by_man());
            lemma_count_update(objects, holds_block(), tp2, objects[tp2].entered_by_block());
            lemma_count_update(shoved, holds_block(), tp, shoved[tp].taken_by_man());
            lemma_count_update(taken, holds_block(), p, taken[p].left_by_man());
            assert(stage.stepped(dir).objects == pushed(objects, p, tp, tp2));
        }
    }
}

/// A character that ends no line occurs in a text as often as in its rows.
pub proof fn lemma_rows_keep_counts(text: Seq<char>, c: char)
    requires
        c != '\n',
        c != '\r',
    ensures
        count_in_rows(rows_of(text), is_value(c)) == count_where(text, is_value(c)),
    decreases text.len(),
{
    let p = is_value(c);
    let n = first_match(text, is_line_feed()) as int;
    let none = Seq::<Seq<char>>::empty();
    lemma_first_match(text, is_line_feed());
    if text.len() == 0 {
    } else if n >= text.len() {
        assert(seq![text] + none =~= seq![text]);
        lemma_count_in_rows_first(text, none, p);
    } else {
        let line = text.take(n);
        let rest = text.skip(n + 1);
        let feed = seq![text[n]];
        assert(text =~= line + feed + rest);
        lemma_count_concat(line + feed, rest, p);
        lemma_count_concat(line, feed, p);
        lemma_count_none(feed, p);
        assert(count_where(trimmed(line), p) == count_where(line, p));
        lemma_rows_keep_counts(rest, c);
        lemma_count_in_rows_first(trimmed(line), rows_of(rest), p);
    }
}

/// Where every row is as long as a row of the stage and every character
/// stands for an object, the first `y` rows of cells hold an object as often
/// as the first `y` rows of the text hold its character.
pub proof fn lemma_cells_keep_counts(rows: Seq<Seq<char>>, c: char, y: int)
    requires
        0 <= y <= rows.len() <= STAGEHEIGHT,
        forall|k: int| 0 <= k < rows.len() ==> (#[trigger] rows[k]).len() == STAGEWIDTH,
        forall|k: int, x: int|
            0 <= k < rows.len() && 0 <= x < STAGEWIDTH ==> Object::spec_from_char(
                #[trigger] rows[k][x],
            ) is Some,
        Object::spec_from_char(c) is Some,
    ensures
        count_where(
            laid_out(rows).take(y * STAGEWIDTH),
            is_value(Object::spec_from_char(c)->0),
        ) == count_in_rows(rows.take(y), is_value(c)),
    decreases y,
{
    let p = is_value(Object::spec_from_char(c)->0);
    let q = is_value(c);
    let cells = laid_out(rows);
    if y == 0 {
        assert(cells.take(0) =~= Seq::<Object>::empty());
        assert(rows.take(0) =~= Seq::<Seq<char>>::empty());
    } else {
        let before = cells.take((y - 1) * STAGEWIDTH);
        let row = cells.subrange((y - 1) * STAGEWIDTH, y * STAGEWIDTH);
        lemma_cells_keep_counts(rows, c, y - 1);
        assert(cells.take(y * STAGEWIDTH) =~= before + row);
        lemma_count_concat(before, row, p);
        assert forall|x: int| 0 <= x < row.len() implies p(#[trigger] row[x]) == q(
            rows[y - 1][x],
        ) by {
            let i = (y - 1) * STAGEWIDTH + x;
            assert(i / (STAGEWIDTH as int) == y - 1 && i % (STAGEWIDTH as int) == x);
            assert(row[x] == object_at(rows, x, y - 1));
            assert(Object::spec_from_char(rows[y - 1][x]) is Some);
        }
        lemma_count_pointwise(row, p, rows[y - 1], q);
        assert(rows.take(y).drop_last() =~= rows.take(y - 1));
        assert(rows.take(y).last() == rows[y - 1]);
    }
}

/// A text of as many rows as the stage has, each as long as a row of the
/// stage and made of characters that stand for objects, has a stage, and the
/// stage holds each object as often as the text holds its character.
pub proof fn lemma_parse_keeps_counts(text: Seq<char>, c: char)
    requires
        rows_of(text).len() == STAGEHEIGHT,
        forall|k: int| 0 <= k < STAGEHEIGHT ==> (#[trigger] rows_of(text)[k]).len() == STAGEWIDTH,
        forall|k: int, x: int|
            0 <= k < STAGEHEIGHT && 0 <= x < STAGEWIDTH ==> Object::spec_from_char(
                #[trigger] rows_of(text)[k][x],
            ) is Some,
        Object::spec_from_char(c) is Some,
    ensures
        parsed(text) == Ok::<Seq<Object>, ParseError>(laid_out(rows_of(text))),
        count_where(laid_out(rows_of(text)), is_value(Object::spec_from_char(c)->0))
            == count_where(text, is_value(c)),
{
    let rows = rows_of(text);
    assert forall|k: int| 0 <= k < rows.len() implies !has_unreadable()(#[trigger] rows[k]) by {
        lemma_first_match_is(rows[k], is_unreadable(), rows[k].len() as int);
    }
    lemma_first_match_is(rows, has_unreadable(), rows.len() as int);
    lemma_rows_keep_counts(text, c);
    lemma_cells_keep_counts(rows, c, STAGEHEIGHT as int);
    assert(laid_out(rows).take(STAGEHEIGHT * STAGEWIDTH) =~= laid_out(rows));
    assert(rows.take(STAGEHEIGHT as int) =~= rows);
}

} // verus!
