//! What a cell of the stage can hold, and how a cell changes when the man or
//! a block enters or leaves it.

use vstd::prelude::*;

verus! {

/// What one cell of the stage holds.
///
/// A goal is a property of the cell, so a block or the man standing on a goal
/// is a variant of its own. `ObjUnknown` is a cell that the stage text
/// never described.
#[derive(Copy, Clone, Debug, PartialEq, Eq, Structural)]
pub enum Object {
    ObjSpace,
    ObjWall,
    ObjGoal,
    ObjBlock,
    ObjBlockOnGoal,
    ObjMan,
    ObjManOnGoal,
    ObjUnknown,
}

impl Object {
    /// The object that a character of the stage text stands for.
    pub open spec fn spec_from_char(c: char) -> Option<Object> {
        if c == ' ' {
            Some(Object::ObjSpace)
        } else if c == '#' {
            Some(Object::ObjWall)
        } else if c == '.' {
            Some(Object::ObjGoal)
        } else if c == 'o' {
            Some(Object::ObjBlock)
        } else if c == 'O' {
            Some(Object::ObjBlockOnGoal)
        } else if c == 'p' {
            Some(Object::ObjMan)
        } else if c == 'P' {
            Some(Object::ObjManOnGoal)
        } else {
            None
        }
    }

    /// The character that shows this object on the screen. `ObjUnknown` has none.
    pub open spec fn spec_glyph(self) -> Option<char> {
        match self {
            Object::ObjSpace => Some(' '),
            Object::ObjWall => Some('#'),
            Object::ObjGoal => Some('.'),
            Object::ObjBlock => Some('o'),
            Object::ObjBlockOnGoal => Some('O'),
            Object::ObjMan => Some('p'),
            Object::ObjManOnGoal => Some('P'),
            Object::ObjUnknown => None,
        }
    }

    /// The cell is a goal, whatever stands on it.
    pub open spec fn has_goal(self) -> bool {
        self == Object::ObjGoal || self == Object::ObjBlockOnGoal || self == Object::ObjManOnGoal
    }

    /// The man stands in the cell.
    pub open spec fn is_man(self) -> bool {
        self == Object::ObjMan || self == Object::ObjManOnGoal
    }

    /// A block stands in the cell.
    pub open spec fn is_block(self) -> bool {
        self == Object::ObjBlock || self == Object::ObjBlockOnGoal
    }

    /// Nothing stands in the cell: the man or a block can enter it.
    pub open spec fn is_free(self) -> bool {
        self == Object::ObjSpace || self == Object::ObjGoal
    }

    /// The cell after the man has entered it.
    pub open spec fn entered_by_man(self) -> Object {
        if self == Object::ObjGoal {
            Object::ObjManOnGoal
        } else {
            Object::ObjMan
        }
    }

    /// The cell after a block has entered it.
    pub open spec fn entered_by_block(self) -> Object {
        if self == Object::ObjGoal {
            Object::ObjBlockOnGoal
        } else {
            Object::ObjBlock
        }
    }

    /// The cell of a block after the man has pushed the block out and taken its place.
    pub open spec fn taken_by_man(self) -> Object {
        if self == Object::ObjBlockOnGoal {
            Object::ObjManOnGoal
        } else {
            Object::ObjMan
        }
    }

    /// The cell after the man has left it.
    pub open spec fn left_by_man(self) -> Object {
        if self == Object::ObjManOnGoal {
            Object::ObjGoal
        } else {
            Object::ObjSpace
        }
    }

    /// Reads one character of the stage text.
    #[verifier::when_used_as_spec(spec_from_char)]
    pub fn from_char(c: char) -> (r: Option<Object>)
        ensures
            r == Self::spec_from_char(c),
    {
        match c {
            ' ' => Some(Object::ObjSpace),
            '#' => Some(Object::ObjWall),
            '.' => Some(Object::ObjGoal),
            'o' => Some(Object::ObjBlock),
            'O' => Some(Object::ObjBlockOnGoal),
            'p' => Some(Object::ObjMan),
            'P' => Some(Object::ObjManOnGoal),
            _ => None,
        }
    }

    /// The text that shows this object on the screen: its one character.
    pub fn glyph(self) -> (r: Option<&'static str>)
        ensures
            match r {
                Some(s) => s@.len() == 1 && self.spec_glyph() == Some(s@[0]),
                None => self.spec_glyph() is None,
            },
    {
        proof {
            reveal_strlit(" ");
            reveal_strlit("#");
            reveal_strlit(".");
            reveal_strlit("o");
            reveal_strlit("O");
            reveal_strlit("p");
            reveal_strlit("P");
        }
        match self {
            Object::ObjSpace => Some(" "),
            Object::ObjWall => Some("#"),
            Object::ObjGoal => Some("."),
            Object::ObjBlock => Some("o"),
            Object::ObjBlockOnGoal => Some("O"),
            Object::ObjMan => Some("p"),
            Object::ObjManOnGoal => Some("P"),
            Object::ObjUnknown => None,
        }
    }
}

/// The predicate that holds of the cells in which the man stands.
pub open spec fn holds_man() -> spec_fn(Object) -> bool {
    |object: Object| object.is_man()
}

/// The predicate that holds of the cells in which a block stands.
pub open spec fn holds_block() -> spec_fn(Object) -> bool {
    |object: Object| object.is_block()
}

} // verus!
