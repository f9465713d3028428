//! Placing the race board in the middle of a screen, and what to draw where.
use vstd::prelude::*;

use crate::board::{scale_of, Board, BoardView};
use crate::color::{Color, NUM_COLORS};

verus! {

/// Half of `d`, rounded toward zero as integer division does.
pub open spec fn half_toward_zero(d: int) -> int {
    if d >= 0 {
        d / 2
    } else {
        -((-d) / 2)
    }
}

fn half(d: i64) -> (r: i64)
    ensures
        r == half_toward_zero(d as int),
{
    d / 2
}


/// The offset `(y, x)` that centres a `board_h` by `board_w` rectangle in a
/// `screen_h` by `screen_w` screen. Either part is negative where the board
/// is larger than the screen.
pub fn compute_offset(screen_h: i64, screen_w: i64, board_h: i64, board_w: i64) -> (r: (i64, i64))
    requires
        i64::MIN <= screen_h - board_h <= i64::MAX,
        i64::MIN <= screen_w - board_w <= i64::MAX,
    ensures
        r.0 == half_toward_zero(screen_h - board_h),
        r.1 == half_toward_zero(screen_w - board_w),
{
    (half(screen_h - board_h), half(screen_w - board_w))
}

/// The character of decimal digit `d`.
pub open spec fn digit_char(d: int) -> char {
    if d == 0 {
        '0'
    } else if d == 1 {
        '1'
    } else if d == 2 {
        '2'
    } else if d == 3 {
        '3'
    } else if d == 4 {
        '4'
    } else if d == 5 {
        '5'
    } else if d == 6 {
        '6'
    } else if d == 7 {
        '7'
    } else if d == 8 {
        '8'
    } else {
        '9'
    }
}

/// The decimal form of `n`, without leading zeros.
pub open spec fn decimal(n: nat) -> Seq<char>
    decreases n,
{
    if n < 10 {
        seq![digit_char(n as int)]
    } else {
        decimal(n / 10).push(digit_char((n % 10) as int))
    }
}

/// The body of a snail: `width` copies of `@`.
pub open spec fn body(width: int) -> Seq<char> {
    Seq::new(width as nat, |i: int| '@')
}

/// The boundary mark drawn at each end of a lane.
pub open spec fn fence() -> Seq<char> {
    seq!['|']
}

fn digit_str(d: u64) -> (r: &'static str)
    requires
        d < 10,
    ensures
        r@ == seq![digit_char(d as int)],
{
    proof {
        reveal_strlit("0");
        reveal_strlit("1");
        reveal_strlit("2");
        reveal_strlit("3");
        reveal_strlit("4");
        reveal_strlit("5");
        reveal_strlit("6");
        reveal_strlit("7");
        reveal_strlit("8");
        reveal_strlit("9");
    }
    if d == 0 {
        "0"
    } else if d == 1 {
        "1"
    } else if d == 2 {
        "2"
    } else if d == 3 {
        "3"
    } else if d == 4 {
        "4"
    } else if d == 5 {
        "5"
    } else if d == 6 {
        "6"
    } else if d == 7 {
        "7"
    } else if d == 8 {
        "8"
    } else {
        "9"
    }
}

/// The decimal form of `n`.
pub fn decimal_string(n: u64) -> (r: String)
    ensures
        r@ == decimal(n as nat),
    decreases n,
{
    if n < 10 {
        String::from_str(digit_str(n))
    } else {
        let mut r = decimal_string(n / 10);
        r.append(digit_str(n % 10));
        r
    }
}

/// A snail body `width` columns wide.
pub fn body_string(width: usize) -> (r: String)
    ensures
        r@ == body(width as int),
{
    proof {
        reveal_strlit("");
    }
    let mut r = String::from_str("");
    let mut i: usize = 0;
    while i < width
        invariant
            i <= width,
            r@ == body(i as int),
        decreases width - i,
    {
        proof {
            reveal_strlit("@");
        }
        r.append("@");
        i = i + 1;
        assert(r@ =~= body(i as int));
    }
    r
}

/// The row, below the board, that shows the dice of the last round.
pub const DICE_ROW: i64 = 8;

/// The label in front of the dice.
pub const DICE_LABEL: &'static str = "dice";

/// The row, below the dice, that shows the winners.
pub const WINNER_ROW: i64 = 9;

/// The label in front of the winners.
pub const WINNER_LABEL: &'static str = "winner";

/// The mark that stands for one die or one winner, in its colour.
pub open spec fn token() -> Seq<char> {
    seq!['#']
}

/// Text to write at a screen position, in a colour pair.
#[derive(Debug, PartialEq, Eq)]
pub struct Placement {
    pub y: i64,
    pub x: i64,
    pub text: String,
    pub pair: u64,
}

impl View for Placement {
    type V = (int, int, Seq<char>, int);

    open spec fn view(&self) -> (int, int, Seq<char>, int) {
        (self.y as int, self.x as int, self.text@, self.pair as int)
    }
}

/// A race board shown on a screen of known size.
#[derive(Debug)]
pub struct Display {
    screen_hw: (i32, i32),
    pub board: Board,
}

impl Display {
    /// Rows of the screen.
    pub closed spec fn screen_height(&self) -> int {
        self.screen_hw.0 as int
    }

    /// Columns of the screen.
    pub closed spec fn screen_width(&self) -> int {
        self.screen_hw.1 as int
    }

    /// The state of the board shown.
    pub closed spec fn board_view(&self) -> BoardView {
        self.board@
    }

    /// Where the top-left corner of the board goes: the board is one row per
    /// colour high and `goal * scale` columns wide, centred on the screen.
    pub open spec fn offset(&self) -> (int, int) {
        (
            half_toward_zero(self.screen_height() - NUM_COLORS),
            half_toward_zero(self.screen_width() - self.board_view().goal * scale_of(self.board_view().goal)),
        )
    }

    /// The `i`-th placement of a frame: three per lane (both fences, then
    /// the snail in its own colour), then the labels `0..=goal` on the row
    /// below the lanes.
    pub open spec fn mark(&self, i: int) -> (int, int, Seq<char>, int) {
        let (oy, ox) = self.offset();
        let goal = self.board_view().goal;
        let scale = scale_of(goal);
        if i < 3 * NUM_COLORS {
            let row = i / 3;
            if i % 3 == 0 {
                (oy + row, ox + scale, fence(), 0)
            } else if i % 3 == 1 {
                (oy + row, ox + goal * scale, fence(), 0)
            } else {
                (oy + row, ox + self.board_view().progress[row] * scale, body(scale), row)
            }
        } else {
            let x = i - 3 * NUM_COLORS;
            (oy + NUM_COLORS, ox + x * scale, decimal(x as nat), 0)
        }
    }

    /// Everything drawn for the board, in drawing order.
    pub open spec fn frame(&self) -> Seq<(int, int, Seq<char>, int)> {
        Seq::new((3 * NUM_COLORS + self.board_view().goal + 1) as nat, |i: int| self.mark(i))
    }

    /// The `i`-th placement of a tally row: the label at column 0, then one
    /// token per colour, two columns apart, starting one column after the
    /// label.
    pub open spec fn tally_mark(&self, row: int, label: Seq<char>, colors: Seq<Color>, i: int) -> (int, int, Seq<char>, int) {
        let (oy, ox) = self.offset();
        if i == 0 {
            (oy + row, ox, label, 0)
        } else {
            (oy + row, ox + label.len() + 1 + 2 * (i - 1), token(), colors[i - 1].rank())
        }
    }

    /// Shows `board` on a screen of `screen_h` rows and `screen_w` columns.
    pub fn new(board: Board, screen_h: i32, screen_w: i32) -> (d: Display)
        ensures
            d.board_view() == board@,
            d.screen_height() == screen_h,
            d.screen_width() == screen_w,
    {
        Display { screen_hw: (screen_h, screen_w), board }
    }

    /// The offset `(y, x)` that centres the board on the screen.
    pub fn hw_offset(&self) -> (r: (i64, i64))
        ensures
            r.0 == self.offset().0,
            r.1 == self.offset().1,
            r.0 == half_toward_zero(self.screen_height() - NUM_COLORS),
            r.1 == half_toward_zero(self.screen_width() - self.board_view().goal * scale_of(self.board_view().goal)),
            -0x8000_0000 <= r.0 <= 0x8000_0000,
            -0x8_0000_0000 <= r.1 <= 0x8_0000_0000,
    {
        let (screen_h, screen_w) = self.screen_hw;
        let goal = self.board.goal();
        let scale = self.board.scale();
        assert(0 < goal as int * scale as int <= 0x7fff_ffff * 11) by (nonlinear_arith)
            requires
                0 < goal <= 0x7fff_ffff,
                2 <= scale <= 11,
        ;
        let width = goal as i64 * scale as i64;
        compute_offset(screen_h as i64, screen_w as i64, NUM_COLORS as i64, width)
    }

    /// The screen position of board position `(y, x)`.
    pub fn position(&self, y: i64, x: i64) -> (r: (i64, i64))
        requires
            -0x4000_0000_0000_0000 <= y <= 0x4000_0000_0000_0000,
            -0x4000_0000_0000_0000 <= x <= 0x4000_0000_0000_0000,
        ensures
            r.0 == self.offset().0 + y,
            r.1 == self.offset().1 + x,
    {
        let (y_offset, x_offset) = self.hw_offset();
        (y_offset + y, x_offset + x)
    }

    /// What to draw for the board, in order: for each lane, the fences at
    /// columns `scale` and `goal * scale` and the snail, `scale` columns of
    /// `@` in the lane's colour pair at column `progress * scale`; then the
    /// labels `0..=goal` at columns `x * scale` on the row below the lanes.
    /// Every position is shifted by the centring offset.
    pub fn draw(&self) -> (r: Vec<Placement>)
        ensures
            r@.map_values(|p: Placement| p@) == self.frame(),
    {
        let goal = self.board.goal();
        let scale = self.board.scale();
        let ghost len = 3 * NUM_COLORS + goal + 1;
        let mut r: Vec<Placement> = Vec::new();
        let mut y: usize = 0;
        while y < NUM_COLORS
            invariant
                y <= NUM_COLORS,
                goal == self.board_view().goal,
                goal > 0,
                scale == scale_of(goal as int),
                2 <= scale <= 11,
                r@.len() == 3 * y,
                forall|k: int| 0 <= k < r@.len() ==> (#[trigger] r@[k])@ == self.mark(k),
            decreases NUM_COLORS - y,
        {
            let c = Color::from_index(y);
            let progress = self.board.progress(c);
            assert(0 <= progress as int * scale as int <= 0x7fff_ffff * 11) by (nonlinear_arith)
                requires
                    0 <= progress <= 0x7fff_ffff,
                    2 <= scale <= 11,
            ;
            assert(0 < goal as int * scale as int <= 0x7fff_ffff * 11) by (nonlinear_arith)
                requires
                    0 < goal <= 0x7fff_ffff,
                    2 <= scale <= 11,
            ;
            let fence = String::from_str("|");
            proof {
                reveal_strlit("|");
            }
            let (py, px) = self.position(y as i64, scale as i64);
            r.push(Placement { y: py, x: px, text: fence, pair: 0 });
            let (py, px) = self.position(y as i64, goal as i64 * scale as i64);
            r.push(Placement { y: py, x: px, text: String::from_str("|"), pair: 0 });
            let (py, px) = self.position(y as i64, progress as i64 * scale as i64);
            r.push(Placement { y: py, x: px, text: body_string(scale as usize), pair: c.into() });
            y = y + 1;
        }
        let mut x: i64 = 0;
        while x <= goal as i64
            invariant
                0 <= x <= goal as i64 + 1,
                goal == self.board_view().goal,
                goal > 0,
                scale == scale_of(goal as int),
                2 <= scale <= 11,
                r@.len() == 3 * NUM_COLORS + x,
                forall|k: int| 0 <= k < r@.len() ==> (#[trigger] r@[k])@ == self.mark(k),
            decreases goal as i64 + 1 - x,
        {
            assert(0 <= x as int * scale as int <= 0x7fff_ffff * 11) by (nonlinear_arith)
                requires
                    0 <= x <= 0x7fff_ffff,
                    2 <= scale <= 11,
            ;
            let (py, px) = self.position(NUM_COLORS as i64, x * scale as i64);
            r.push(Placement { y: py, x: px, text: decimal_string(x as u64), pair: 0 });
            x = x + 1;
        }
        assert(r@.map_values(|p: Placement| p@) =~= self.frame());
        r
    }

    /// What to draw for a row of colours below the board (the dice of a
    /// round, or the winners): `label` at column 0 of board row `row`, then
    /// a `#` in each colour's pair, one every two columns after the label.
    pub fn tally(&self, row: i64, label: &str, colors: &Vec<Color>) -> (r: Vec<Placement>)
        requires
            -0x4000_0000 <= row <= 0x4000_0000,
            label@.len() + 2 * colors@.len() < 0x4000_0000_0000_0000,
        ensures
            r@.len() == colors@.len() + 1,
            forall|i: int| 0 <= i < r@.len() ==> (#[trigger] r@[i])@ == self.tally_mark(row as int, label@, colors@, i),
    {
        let mut r: Vec<Placement> = Vec::new();
        let (py, px) = self.position(row, 0);
        r.push(Placement { y: py, x: px, text: String::from_str(label), pair: 0 });
        let start = label.unicode_len() as i64 + 1;
        let mut k: usize = 0;
        while k < colors.len()
            invariant
                k <= colors@.len(),
                -0x4000_0000 <= row <= 0x4000_0000,
                start == label@.len() + 1,
                label@.len() + 2 * colors@.len() < 0x4000_0000_0000_0000,
                r@.len() == k + 1,
                forall|i: int| 0 <= i < r@.len() ==> (#[trigger] r@[i])@ == self.tally_mark(row as int, label@, colors@, i),
            decreases colors@.len() - k,
        {
            proof {
                reveal_strlit("#");
            }
            let (py, px) = self.position(row, start + 2 * k as i64);
            r.push(Placement { y: py, x: px, text: String::from_str("#"), pair: colors[k].into() });
            k = k + 1;
        }
        r
    }
}

} // verus!
