//! The six snail colours and their display ranks.
use vstd::prelude::*;

verus! {

/// One of the six snails. The declaration order is the display rank.
#[derive(Debug, PartialEq, Eq, Structural, PartialOrd, Ord, Hash, Clone, Copy)]
pub enum Color {
    Red,
    Yellow,
    Green,
    Pink,
    Blue,
    Orange,
}

/// How many colours there are.
pub const NUM_COLORS: usize = 6;

impl Color {
    /// The display rank of the colour: its row on the board and its colour pair.
    pub open spec fn rank(self) -> int {
        match self {
            Color::Red => 0,
            Color::Yellow => 1,
            Color::Green => 2,
            Color::Pink => 3,
            Color::Blue => 4,
            Color::Orange => 5,
        }
    }

    /// The colour with display rank `i`, for `0 <= i < 6`.
    pub open spec fn of_rank(i: int) -> Color {
        if i == 0 {
            Color::Red
        } else if i == 1 {
            Color::Yellow
        } else if i == 2 {
            Color::Green
        } else if i == 3 {
            Color::Pink
        } else if i == 4 {
            Color::Blue
        } else {
            Color::Orange
        }
    }

    /// Ranks and colours are in one-to-one correspondence.
    pub proof fn lemma_rank_bijective()
        ensures
            forall|c: Color| 0 <= #[trigger] c.rank() < NUM_COLORS,
            forall|c: Color| Color::of_rank(#[trigger] c.rank()) == c,
            forall|i: int| 0 <= i < NUM_COLORS ==> (#[trigger] Color::of_rank(i)).rank() == i,
    {
    }

    /// The display rank as an index.
    pub fn index(self) -> (r: usize)
        ensures
            r == self.rank(),
    {
        match self {
            Color::Red => 0,
            Color::Yellow => 1,
            Color::Green => 2,
            Color::Pink => 3,
            Color::Blue => 4,
            Color::Orange => 5,
        }
    }

    /// The colour of display rank `i`.
    pub fn from_index(i: usize) -> (c: Color)
        requires
            i < NUM_COLORS,
        ensures
            c == Color::of_rank(i as int),
            c.rank() == i,
    {
        if i == 0 {
            Color::Red
        } else if i == 1 {
            Color::Yellow
        } else if i == 2 {
            Color::Green
        } else if i == 3 {
            Color::Pink
        } else if i == 4 {
            Color::Blue
        } else {
            Color::Orange
        }
    }
}

impl TryFrom<i32> for Color {
    type Error = ();

    /// The colour whose display rank is `code`; an error for any code
    /// outside `0..6`.
    fn try_from(code: i32) -> (r: Result<Color, ()>)
        ensures
            r == Color::code_spec(code),
    {
        if 0 <= code && code < 6 {
            Ok(Color::from_index(code as usize))
        } else {
            Err(())
        }
    }
}

impl Color {
    /// What `try_from` gives for a code.
    pub open spec fn code_spec(code: i32) -> Result<Color, ()> {
        if 0 <= code < NUM_COLORS {
            Ok(Color::of_rank(code as int))
        } else {
            Err(())
        }
    }
}

impl vstd::std_specs::convert::TryFromSpecImpl<i32> for Color {
    open spec fn obeys_try_from_spec() -> bool {
        true
    }

    open spec fn try_from_spec(code: i32) -> Result<Color, ()> {
        Color::code_spec(code)
    }
}

impl From<Color> for u64 {
    /// The display rank, used as the colour-pair number of the colour.
    fn from(c: Color) -> (r: u64) {
        c.index() as u64
    }
}

impl vstd::std_specs::convert::FromSpecImpl<Color> for u64 {
    open spec fn obeys_from_spec() -> bool {
        true
    }

    open spec fn from_spec(c: Color) -> u64 {
        c.rank() as u64
    }
}

} // verus!
