//! The stage: the text it was read from and its cells.

use vstd::prelude::*;
use vstd::string::StringExecFns;
use crate::command::{Command, Direction};
use crate::level::{ParseError, parse, parsed};
use crate::object::{Object, holds_man};
use crate::rules::{STAGEWIDTH, STAGEHEIGHT, STAGESIZE, cell, in_stage, moved};
use crate::search::{first_match, lemma_first_match_is};

verus! {

/// A stage of the game.
pub struct Stage {
    /// The text that the stage is read from, one row per line.
    pub origin: String,
    /// The cells, row by row.
    pub objects: [Object; STAGESIZE],
}

/// The stage as a mathematical value.
pub struct StageView {
    pub origin: Seq<char>,
    pub objects: Seq<Object>,
}

impl View for Stage {
    type V = StageView;

    open spec fn view(&self) -> StageView {
        StageView { origin: self.origin@, objects: self.objects@ }
    }
}

impl StageView {
    /// The stage with cell `idx` replaced.
    pub open spec fn with_cell(self, idx: int, object: Object) -> StageView {
        StageView { origin: self.origin, objects: self.objects.update(idx, object) }
    }

    /// The stage after whoever stands in column `x` of row `y` has tried to
    /// move by `dx` columns and `dy` rows.
    pub open spec fn moved(self, x: int, dx: int, y: int, dy: int) -> StageView {
        StageView { origin: self.origin, objects: moved(self.objects, x, dx, y, dy) }
    }

    /// A stage with this text of which no cell is known yet.
    pub open spec fn blank(origin: Seq<char>) -> StageView {
        StageView { origin, objects: Seq::new(STAGESIZE as nat, |i: int| Object::ObjUnknown) }
    }

    /// The stage with its cells read from its text again, or why the text
    /// has no stage.
    pub open spec fn reloaded(self) -> Result<StageView, ParseError> {
        match parsed(self.origin) {
            Ok(objects) => Ok(StageView { origin: self.origin, objects }),
            Err(e) => Err(e),
        }
    }

    /// The first cell, row by row, in which the man stands, or the number of
    /// cells if he stands in none.
    pub open spec fn man_cell(self) -> nat {
        first_match(self.objects, holds_man())
    }

    /// The stage after the man has tried to take one step. Where the man
    /// stands in no cell the stage stays as it is.
    pub open spec fn stepped(self, dir: Direction) -> StageView {
        let p = self.man_cell() as int;
        if p < self.objects.len() {
            self.moved(
                p % (STAGEWIDTH as int),
                dir.spec_dx(),
                p / (STAGEWIDTH as int),
                dir.spec_dy(),
            )
        } else {
            self
        }
    }

    /// The stage has as many cells as a stage has. The view of every
    /// `Stage` does.
    pub open spec fn wf(self) -> bool {
        self.objects.len() == STAGESIZE
    }

    /// The man stands in exactly one cell.
    pub open spec fn one_man(self) -> bool {
        &&& self.man_cell() < self.objects.len()
        &&& forall|i: int|
            0 <= i < self.objects.len() && i != self.man_cell() ==> !(
            #[trigger] self.objects[i]).is_man()
    }

    /// The column in which the man stands.
    pub open spec fn man_x(self) -> int {
        self.man_cell() as int % (STAGEWIDTH as int)
    }

    /// The row in which the man stands.
    pub open spec fn man_y(self) -> int {
        self.man_cell() as int / (STAGEWIDTH as int)
    }

    /// The man stands on the stage, and so does the cell `n` steps from him.
    pub open spec fn faces(self, dir: Direction, n: int) -> bool {
        &&& self.man_cell() < self.objects.len()
        &&& in_stage(self.man_x() + n * dir.spec_dx(), self.man_y() + n * dir.spec_dy())
    }

    /// The cell `n` steps from the man.
    pub open spec fn ahead(self, dir: Direction, n: int) -> int {
        cell(self.man_x() + n * dir.spec_dx(), self.man_y() + n * dir.spec_dy())
    }

    /// The stage after the man has tried each of the steps in turn.
    pub open spec fn played(self, steps: Seq<Direction>) -> StageView
        decreases steps.len(),
    {
        if steps.len() == 0 {
            self
        } else {
            self.played(steps.drop_last()).stepped(steps.last())
        }
    }

    /// No block stands off a goal.
    pub open spec fn cleared(self) -> bool {
        forall|i: int| 0 <= i < self.objects.len() ==> self.objects[i] != Object::ObjBlock
    }

    /// Every cell has a character that shows it.
    pub open spec fn drawable(self) -> bool {
        forall|i: int| 0 <= i < self.objects.len() ==> self.objects[i] != Object::ObjUnknown
    }

    /// The stage as text: each row as the characters of its cells and a line
    /// feed.
    pub open spec fn screen(self) -> Seq<char> {
        Seq::new(
            (STAGEHEIGHT * (STAGEWIDTH + 1)) as nat,
            |i: int|
                {
                    let x = i % (STAGEWIDTH + 1);
                    let y = i / (STAGEWIDTH + 1);
                    if x == STAGEWIDTH {
                        '\n'
                    } else {
                        self.objects[cell(x, y)].spec_glyph()->0
                    }
                },
        )
    }
}

/// Why a turn changed nothing.
#[derive(Copy, Clone, Debug, PartialEq, Eq, Structural)]
pub enum UpdateError {
    /// The key stands for no command.
    InvalidInput,
    /// The stage could not be put back: its text has no stage.
    Reload(ParseError),
}

impl Stage {
    /// A stage with the given text, of which no cell is known yet: `load`
    /// reads them.
    pub fn initialize(origin: String) -> (stage: Stage)
        ensures
            stage@ == StageView::blank(origin@),
    {
        let stage = Stage { origin, objects: [Object::ObjUnknown; STAGESIZE] };
        assert(stage@.objects =~= StageView::blank(origin@).objects);
        stage
    }

    /// Reads the cells from the text of the stage. A text that has no stage
    /// leaves the cells as they are.
    pub fn load(&mut self) -> (r: Result<(), ParseError>)
        ensures
            match r {
                Ok(()) => old(self)@.reloaded() == Ok::<StageView, ParseError>(final(self)@),
                Err(e) => old(self)@.reloaded() == Err::<StageView, ParseError>(e) && final(self)@
                    == old(self)@,
            },
    {
        match parse(self.origin.as_str()) {
            Ok(objects) => {
                self.objects = objects;
                Ok(())
            },
            Err(e) => Err(e),
        }
    }

    /// Puts the stage back as its text describes it, whatever has been moved.
    pub fn reset(&mut self) -> (r: Result<(), ParseError>)
        ensures
            match r {
                Ok(()) => old(self)@.reloaded() == Ok::<StageView, ParseError>(final(self)@),
                Err(e) => old(self)@.reloaded() == Err::<StageView, ParseError>(e) && final(self)@
                    == old(self)@,
            },
    {
        self.load()
    }

    /// The stage as text to show: each row as the characters of its cells
    /// and a line feed. A stage with a cell that was never read has none.
    pub fn draw(&self) -> (r: Option<String>)
        ensures
            match r {
                Some(text) => self@.drawable() && text@ == self@.screen(),
                None => !self@.drawable(),
            },
    {
        proof {
            reveal_strlit("\n");
        }
        let mut out = String::new();
        let mut y: usize = 0;
        while y < STAGEHEIGHT
            invariant
                y <= STAGEHEIGHT,
                out@ == self@.screen().take(y * (STAGEWIDTH + 1)),
                forall|i: int| 0 <= i < y * STAGEWIDTH ==> self@.objects[i] != Object::ObjUnknown,
                "\n"@ == seq!['\n'],
            decreases STAGEHEIGHT - y,
        {
            let mut x: usize = 0;
            while x < STAGEWIDTH
                invariant
                    y < STAGEHEIGHT,
                    x <= STAGEWIDTH,
                    out@ == self@.screen().take(y * (STAGEWIDTH + 1) + x),
                    forall|i: int|
                        0 <= i < y * STAGEWIDTH + x ==> self@.objects[i] != Object::ObjUnknown,
                decreases STAGEWIDTH - x,
            {
                let ghost n: int = y * (STAGEWIDTH + 1) + x;
                match self.objects[y * STAGEWIDTH + x].glyph() {
                    Some(s) => {
                        out.append(s);
                        proof {
                            assert(STAGEWIDTH + 1 == 11);
                            assert(n == y * 11 + x);
                            assert(n % 11 == x && n / 11 == y);
                            assert(self@.screen()[n] == s@[0]);
                            assert(s@ =~= seq![s@[0]]);
                            assert(out@ =~= self@.screen().take(n + 1));
                        }
                    },
                    None => {
                        return None;
                    },
                }
                x = x + 1;
            }
            out.append("\n");
            proof {
                let n: int = y * (STAGEWIDTH + 1) + STAGEWIDTH;
                assert(STAGEWIDTH + 1 == 11);
                assert(n == y * 11 + 10);
                assert(n % 11 == 10 && n / 11 == y);
                assert(self@.screen()[n] == '\n');
                assert(out@ =~= self@.screen().take((y + 1) * (STAGEWIDTH + 1)));
            }
            y = y + 1;
        }
        assert(out@ =~= self@.screen());
        Some(out)
    }

    /// The first cell, row by row, in which the man stands.
    pub fn find_man(&self) -> (r: Option<usize>)
        ensures
            match r {
                Some(p) => p < STAGESIZE && p == self@.man_cell(),
                None => self@.man_cell() == STAGESIZE,
            },
    {
        let mut i: usize = 0;
        while i < STAGESIZE
            invariant
                i <= STAGESIZE,
                forall|j: int| 0 <= j < i ==> !holds_man()(#[trigger] self@.objects[j]),
            decreases STAGESIZE - i,
        {
            match self.objects[i] {
                Object::ObjMan | Object::ObjManOnGoal => {
                    proof {
                        lemma_first_match_is(self@.objects, holds_man(), i as int);
                    }
                    return Some(i);
                },
                _ => {},
            }
            i = i + 1;
        }
        proof {
            lemma_first_match_is(self@.objects, holds_man(), STAGESIZE as int);
        }
        None
    }

    /// Lets the man try one step. Where the man stands in no cell nothing
    /// changes.
    pub fn step(&mut self, dir: Direction)
        ensures
            final(self)@ == old(self)@.stepped(dir),
    {
        if let Some(p) = self.find_man() {
            let x: i32 = (p % STAGEWIDTH) as i32;
            let y: i32 = (p / STAGEWIDTH) as i32;
            self.action(x, dir.dx(), y, dir.dy());
        }
    }

    /// Plays one turn: reads the key and does what it asks for.
    ///
    /// A key that stands for no command changes nothing, and neither does a
    /// reset of a stage whose text has no stage.
    pub fn update(&mut self, input: char) -> (r: Result<Command, UpdateError>)
        ensures
            match r {
                Ok(Command::Move(dir)) => Command::spec_from_char(input) == Some(
                    Command::Move(dir),
                ) && final(self)@ == old(self)@.stepped(dir),
                Ok(Command::Reset) => Command::spec_from_char(input) == Some(Command::Reset)
                    && old(self)@.reloaded() == Ok::<StageView, ParseError>(final(self)@),
                Err(UpdateError::InvalidInput) => Command::spec_from_char(input) is None
                    && final(self)@ == old(self)@,
                Err(UpdateError::Reload(e)) => Command::spec_from_char(input) == Some(
                    Command::Reset,
                ) && old(self)@.reloaded() == Err::<StageView, ParseError>(e) && final(self)@
                    == old(self)@,
            },
    {
        match Command::from_char(input) {
            None => Err(UpdateError::InvalidInput),
            Some(Command::Reset) => match self.reset() {
                Ok(()) => Ok(Command::Reset),
                Err(e) => Err(UpdateError::Reload(e)),
            },
            Some(Command::Move(dir)) => {
                self.step(dir);
                Ok(Command::Move(dir))
            },
        }
    }

    /// Whether the stage is cleared: no block stands off a goal.
    pub fn check_clear(&self) -> (r: bool)
        ensures
            r == self@.cleared(),
    {
        let mut i: usize = 0;
        while i < STAGESIZE
            invariant
                i <= STAGESIZE,
                forall|j: int| 0 <= j < i ==> self@.objects[j] != Object::ObjBlock,
            decreases STAGESIZE - i,
        {
            if let Object::ObjBlock = self.objects[i] {
                return false;
            }
            i = i + 1;
        }
        true
    }

    /// Moves whoever stands in column `x` of row `y` by `dx` columns and
    /// `dy` rows, pushing a block out of the way where the rules allow it.
    /// A move that the rules do not allow changes nothing.
    pub fn action(&mut self, x: i32, dx: i32, y: i32, dy: i32)
        requires
            in_stage(x as int, y as int),
        ensures
            final(self)@ == old(self)@.moved(x as int, dx as int, y as int, dy as int),
    {
        let tx: i64 = x as i64 + dx as i64;
        let ty: i64 = y as i64 + dy as i64;
        if tx < 0 || ty < 0 || tx >= STAGEWIDTH as i64 || ty >= STAGEHEIGHT as i64 {
            return;
        }
        let p: usize = (y as usize) * STAGEWIDTH + (x as usize);
        let tp: usize = (ty as usize) * STAGEWIDTH + (tx as usize);
        match self.objects[tp] {
            Object::ObjSpace | Object::ObjGoal => {
                self.update_goal_for_man(tp);
                self.update_man_on_goal(p);
            },
            Object::ObjBlock | Object::ObjBlockOnGoal => {
                let tx2: i64 = tx + dx as i64;
                let ty2: i64 = ty + dy as i64;
                if tx2 < 0 || ty2 < 0 || tx2 >= STAGEWIDTH as i64 || ty2 >= STAGEHEIGHT as i64 {
                    return;
                }
                let tp2: usize = (ty2 as usize) * STAGEWIDTH + (tx2 as usize);
                match self.objects[tp2] {
                    Object::ObjSpace | Object::ObjGoal => {
                        self.update_goal_for_block(tp2);
                        self.update_block_on_goal(tp);
                        self.update_man_on_goal(p);
                    },
                    _ => {},
                }
            },
            _ => {},
        }
    }

    /// Puts the man into cell `idx`: on the goal if the cell is a free goal.
    pub fn update_goal_for_man(&mut self, idx: usize)
        requires
            idx < STAGESIZE,
        ensures
            final(self)@ == old(self)@.with_cell(
                idx as int,
                old(self)@.objects[idx as int].entered_by_man(),
            ),
    {
        if let Object::ObjGoal = self.objects[idx] {
            self.objects[idx] = Object::ObjManOnGoal;
            return;
        }
        self.objects[idx] = Object::ObjMan;
    }

    /// Puts a block into cell `idx`: on the goal if the cell is a free goal.
    pub fn update_goal_for_block(&mut self, idx: usize)
        requires
            idx < STAGESIZE,
        ensures
            final(self)@ == old(self)@.with_cell(
                idx as int,
                old(self)@.objects[idx as int].entered_by_block(),
            ),
    {
        if let Object::ObjGoal = self.objects[idx] {
            self.objects[idx] = Object::ObjBlockOnGoal;
            return;
        }
        self.objects[idx] = Object::ObjBlock;
    }

    /// Puts the man into cell `idx` in place of a block: on the goal if the
    /// block stood on one.
    pub fn update_block_on_goal(&mut self, idx: usize)
        requires
            idx < STAGESIZE,
        ensures
            final(self)@ == old(self)@.with_cell(
                idx as int,
                old(self)@.objects[idx as int].taken_by_man(),
            ),
    {
        if let Object::ObjBlockOnGoal = self.objects[idx] {
            self.objects[idx] = Object::ObjManOnGoal;
            return;
        }
        self.objects[idx] = Object::ObjMan;
    }

    /// Takes the man out of cell `idx`: a goal is left if he stood on one.
    pub fn update_man_on_goal(&mut self, idx: usize)
        requires
            idx < STAGESIZE,
        ensures
            final(self)@ == old(self)@.with_cell(
                idx as int,
                old(self)@.objects[idx as int].left_by_man(),
            ),
    {
        if let Object::ObjManOnGoal = self.objects[idx] {
            self.objects[idx] = Object::ObjGoal;
            return;
        }
        self.objects[idx] = Object::ObjSpace;
    }
}

} // verus!
