//! The race board: how far each snail has come, and who has reached the goal.
use vstd::arithmetic::logarithm::{log, lemma_log0, lemma_log_s, lemma_log_is_ordered};
use vstd::prelude::*;

use crate::color::{Color, NUM_COLORS};
use crate::GameError;

verus! {

/// Columns that one step of progress takes on screen for a race to `goal`:
/// `floor(log10(goal)) + 2`, so that every label up to the goal fits.
pub open spec fn scale_of(goal: int) -> int {
    log(10, goal) + 2
}

proof fn lemma_log10_of_i32_max()
    ensures
        log(10, i32::MAX as int) == 9,
{
    reveal_with_fuel(log, 11);
}

/// The on-screen width of one step of progress for a race to `goal`.
pub fn get_scale(goal: i32) -> (r: i32)
    requires
        goal > 0,
    ensures
        r == scale_of(goal as int),
        2 <= r <= 11,
{
    let mut n: i32 = goal;
    let mut digits: i32 = 0;
    proof {
        lemma_log10_of_i32_max();
        lemma_log_is_ordered(10, goal as int, i32::MAX as int);
    }
    while n >= 10
        invariant
            0 < n <= goal,
            0 <= digits,
            digits + log(10, n as int) == log(10, goal as int),
            log(10, goal as int) <= 9,
        decreases n,
    {
        proof {
            lemma_log_s(10, n as int);
            vstd::arithmetic::logarithm::lemma_log_nonnegative(10, n as int / 10);
        }
        n = n / 10;
        digits = digits + 1;
    }
    proof {
        lemma_log0(10, n as int);
    }
    digits + 2
}


/// The abstract state of a race: the goal and each colour's progress,
/// indexed by display rank.
pub struct BoardView {
    pub goal: int,
    pub progress: Seq<int>,
}

impl BoardView {
    /// A race to `goal` in which no snail has moved.
    pub open spec fn fresh(goal: int) -> BoardView {
        BoardView { goal, progress: Seq::new(NUM_COLORS as nat, |i: int| 0int) }
    }

    /// How far colour `c` has come.
    pub open spec fn progress_of(self, c: Color) -> int {
        self.progress[c.rank()]
    }

    /// The state after colour `c` moves one step.
    pub open spec fn advance(self, c: Color) -> BoardView {
        BoardView { goal: self.goal, progress: self.progress.update(c.rank(), self.progress_of(c) + 1) }
    }

    /// The state after each die of a round, in order, moves its colour one step.
    pub open spec fn advance_all(self, dice: Seq<Color>) -> BoardView
        decreases dice.len(),
    {
        if dice.len() == 0 {
            self
        } else {
            self.advance_all(dice.drop_last()).advance(dice.last())
        }
    }

    /// A state that a board can be in: a positive goal and six progress
    /// counts, none negative.
    pub open spec fn valid(self) -> bool {
        &&& self.goal > 0
        &&& self.progress.len() == NUM_COLORS
        &&& forall|c: Color| #[trigger] self.progress_of(c) >= 0
    }

    /// The colours that have reached (or passed) the goal.
    pub open spec fn winner_set(self) -> Set<Color> {
        Set::new(|c: Color| self.progress_of(c) >= self.goal)
    }
}

/// How many of the dice show colour `c`.
pub open spec fn occurrences(dice: Seq<Color>, c: Color) -> int
    decreases dice.len(),
{
    if dice.len() == 0 {
        0
    } else {
        occurrences(dice.drop_last(), c) + if dice.last() == c { 1int } else { 0int }
    }
}

/// `n` dice that all show colour `c`.
pub open spec fn repeated(c: Color, n: nat) -> Seq<Color> {
    Seq::new(n, |i: int| c)
}

/// After a round each colour has moved once per die that shows it, and the
/// goal is unchanged.
pub proof fn lemma_advance_all_progress(v: BoardView, dice: Seq<Color>)
    requires
        v.progress.len() == NUM_COLORS,
    ensures
        v.advance_all(dice).goal == v.goal,
        v.advance_all(dice).progress.len() == NUM_COLORS,
        forall|c: Color| #[trigger] v.advance_all(dice).progress_of(c) == v.progress_of(c) + occurrences(dice, c),
        forall|c: Color| 0 <= #[trigger] occurrences(dice, c) <= dice.len(),
    decreases dice.len(),
{
    Color::lemma_rank_bijective();
    if dice.len() > 0 {
        let prefix = dice.drop_last();
        lemma_advance_all_progress(v, prefix);
        let before = v.advance_all(prefix);
        assert forall|c: Color|
            #[trigger] v.advance_all(dice).progress_of(c) == v.progress_of(c) + occurrences(dice, c) by {
            assert(before.progress_of(c) == v.progress_of(c) + occurrences(prefix, c));
            assert(v.advance_all(dice) == before.advance(dice.last()));
        }
        assert forall|c: Color| 0 <= #[trigger] occurrences(dice, c) <= dice.len() by {
            assert(0 <= occurrences(prefix, c) <= prefix.len());
        }
    }
}

/// A new race has no snail off the start and no winner.
pub proof fn lemma_fresh_board(goal: int)
    requires
        goal > 0,
    ensures
        BoardView::fresh(goal).valid(),
        forall|c: Color| #[trigger] BoardView::fresh(goal).progress_of(c) == 0,
        BoardView::fresh(goal).winner_set() == Set::<Color>::empty(),
{
    Color::lemma_rank_bijective();
    assert(BoardView::fresh(goal).winner_set() =~= Set::<Color>::empty());
}

/// In a race that nobody has won yet, moving one colour as many steps as
/// the goal, and no other colour, makes that colour the only winner.
pub proof fn lemma_lone_color_wins(v: BoardView, c: Color)
    requires
        v.valid(),
        v.winner_set() == Set::<Color>::empty(),
    ensures
        v.advance_all(repeated(c, v.goal as nat)).winner_set() == set![c],
{
    let dice = repeated(c, v.goal as nat);
    lemma_occurrences_of_repeat(c, v.goal as nat);
    lemma_advance_all_progress(v, dice);
    let after = v.advance_all(dice);
    assert forall|d: Color| after.winner_set().contains(d) <==> d == c by {
        assert(!v.winner_set().contains(d));
    }
    assert(after.winner_set() =~= set![c]);
}

/// In a round of `n` dice that all show `c`, colour `c` occurs `n` times
/// and no other colour occurs.
pub proof fn lemma_occurrences_of_repeat(c: Color, n: nat)
    ensures
        forall|d: Color| #[trigger] occurrences(repeated(c, n), d) == if d == c { n as int } else { 0 },
    decreases n,
{
    if n > 0 {
        lemma_occurrences_of_repeat(c, (n - 1) as nat);
        assert(repeated(c, n).drop_last() =~= repeated(c, (n - 1) as nat));
        assert forall|d: Color| #[trigger] occurrences(repeated(c, n), d) == if d == c { n as int } else { 0 } by {
            assert(occurrences(repeated(c, (n - 1) as nat), d) == if d == c { n - 1 } else { 0 });
            assert(repeated(c, n).last() == c);
        }
    }
}

/// When one round brings two different colours to the goal, and no other
/// colour, both of them win, whatever the order of the dice.
pub proof fn lemma_tied_colors_win(v: BoardView, dice: Seq<Color>, c1: Color, c2: Color)
    requires
        v.valid(),
        v.winner_set() == Set::<Color>::empty(),
        c1 != c2,
        v.progress_of(c1) + occurrences(dice, c1) >= v.goal,
        v.progress_of(c2) + occurrences(dice, c2) >= v.goal,
        forall|d: Color| d != c1 && d != c2 ==> v.progress_of(d) + #[trigger] occurrences(dice, d) < v.goal,
    ensures
        v.advance_all(dice).winner_set() == set![c1, c2],
{
    lemma_advance_all_progress(v, dice);
    assert(v.advance_all(dice).winner_set() =~= set![c1, c2]);
}

/// The race board: a goal, the on-screen scale derived from it, and the
/// progress of each of the six snails.
#[derive(Debug)]
pub struct Board {
    goal: i32,
    snails: Vec<i32>,
    scale: i32,
}

impl View for Board {
    type V = BoardView;

    closed spec fn view(&self) -> BoardView {
        BoardView { goal: self.goal as int, progress: self.snails@.map_values(|p: i32| p as int) }
    }
}

impl Board {
    #[verifier::type_invariant]
    spec fn well_formed(&self) -> bool {
        &&& self.snails@.len() == NUM_COLORS
        &&& self.goal > 0
        &&& self.scale == scale_of(self.goal as int)
        &&& forall|i: int| 0 <= i < NUM_COLORS ==> #[trigger] self.snails@[i] >= 0
    }

    /// A board for a race to `goal` with every snail at the start; an error
    /// unless the goal is positive.
    pub fn new(goal: i32) -> (r: Result<Board, GameError>)
        ensures
            goal > 0 ==> r is Ok && r->Ok_0@ == BoardView::fresh(goal as int) && r->Ok_0@.valid(),
            goal <= 0 ==> r == Err::<Board, GameError>(GameError::InvalidGoal),
    {
        if goal <= 0 {
            return Err(GameError::InvalidGoal);
        }
        let mut snails: Vec<i32> = Vec::new();
        let mut i: usize = 0;
        while i < NUM_COLORS
            invariant
                i <= NUM_COLORS,
                snails@.len() == i,
                forall|j: int| 0 <= j < i ==> #[trigger] snails@[j] == 0,
            decreases NUM_COLORS - i,
        {
            snails.push(0);
            i = i + 1;
        }
        let board = Board { goal, snails, scale: get_scale(goal) };
        assert(board@.progress =~= BoardView::fresh(goal as int).progress);
        proof {
            lemma_fresh_board(goal as int);
        }
        Ok(board)
    }

    /// The goal of the race.
    pub fn goal(&self) -> (r: i32)
        ensures
            r == self@.goal,
            r > 0,
    {
        proof {
            use_type_invariant(self);
        }
        self.goal
    }

    /// Columns per step of progress on screen.
    pub fn scale(&self) -> (r: i32)
        ensures
            r == scale_of(self@.goal),
            2 <= r <= 11,
    {
        proof {
            use_type_invariant(self);
            lemma_log10_of_i32_max();
            lemma_log_is_ordered(10, self.goal as int, i32::MAX as int);
            vstd::arithmetic::logarithm::lemma_log_nonnegative(10, self.goal as int);
        }
        self.scale
    }

    /// How far colour `c` has come.
    pub fn progress(&self, c: Color) -> (r: i32)
        ensures
            r == self@.progress_of(c),
            r >= 0,
    {
        proof {
            use_type_invariant(self);
        }
        self.snails[c.index()]
    }

    /// Moves colour `c` one step forward. Progress may pass the goal.
    pub fn advance(&mut self, c: Color)
        requires
            old(self)@.progress_of(c) < i32::MAX,
        ensures
            final(self)@ == old(self)@.advance(c),
            final(self)@.valid(),
    {
        proof {
            use_type_invariant(&*self);
        }
        let i = c.index();
        let mut snails = self.snails.clone();
        snails.set(i, self.snails[i] + 1);
        self.snails = snails;
        assert(self@.progress =~= old(self)@.advance(c).progress);
        proof {
            use_type_invariant(&*self);
            self.lemma_view_valid();
        }
    }

    proof fn lemma_view_valid(&self)
        requires
            self.well_formed(),
        ensures
            self@.valid(),
    {
        assert forall|c: Color| #[trigger] self@.progress_of(c) >= 0 by {
            Color::lemma_rank_bijective();
            assert(self.snails@[c.rank()] >= 0);
        }
    }

    /// Plays one round: moves each die's colour one step, in the order the
    /// dice were rolled, and only then reports the winners.
    pub fn play_round(&mut self, dice: &Vec<Color>) -> (w: Vec<Color>)
        requires
            forall|c: Color| old(self)@.progress_of(c) + dice@.len() <= i32::MAX,
        ensures
            final(self)@ == old(self)@.advance_all(dice@),
            final(self)@.valid(),
            w@.to_set() == final(self)@.winner_set(),
            forall|i: int, j: int| 0 <= i < j < w@.len() ==> w@[i].rank() < w@[j].rank(),
    {
        proof {
            use_type_invariant(&*self);
        }
        let ghost start = self@;
        let mut k: usize = 0;
        while k < dice.len()
            invariant
                k <= dice@.len(),
                start == old(self)@,
                start.progress.len() == NUM_COLORS,
                self@ == start.advance_all(dice@.take(k as int)),
                forall|c: Color| start.progress_of(c) + dice@.len() <= i32::MAX,
            decreases dice@.len() - k,
        {
            proof {
                lemma_advance_all_progress(start, dice@.take(k as int));
                assert(dice@.take(k as int + 1).drop_last() =~= dice@.take(k as int));
            }
            self.advance(dice[k]);
            k = k + 1;
        }
        assert(dice@.take(dice@.len() as int) =~= dice@);
        proof {
            use_type_invariant(&*self);
            self.lemma_view_valid();
        }
        self.winners()
    }

    /// Every colour whose progress has reached the goal, each once, in
    /// display-rank order.
    pub fn winners(&self) -> (w: Vec<Color>)
        ensures
            w@.to_set() == self@.winner_set(),
            forall|i: int, j: int| 0 <= i < j < w@.len() ==> w@[i].rank() < w@[j].rank(),
    {
        proof {
            use_type_invariant(self);
            Color::lemma_rank_bijective();
        }
        let mut w: Vec<Color> = Vec::new();
        let mut i: usize = 0;
        while i < NUM_COLORS
            invariant
                i <= NUM_COLORS,
                self.snails@.len() == NUM_COLORS,
                forall|c: Color| #[trigger] w@.contains(c) <==> c.rank() < i && self@.winner_set().contains(c),
                forall|k: int| 0 <= k < w@.len() ==> #[trigger] w@[k].rank() < i,
                forall|k: int, j: int| 0 <= k < j < w@.len() ==> w@[k].rank() < w@[j].rank(),
            decreases NUM_COLORS - i,
        {
            let c = Color::from_index(i);
            assert(self@.winner_set().contains(c) <==> self.snails@[i as int] >= self.goal);
            let ghost w0 = w@;
            if self.snails[i] >= self.goal {
                w.push(c);
                assert(forall|d: Color| #[trigger] w@.contains(d) <==> w0.contains(d) || d == c) by {
                    assert(forall|k: int| 0 <= k < w0.len() ==> w@[k] == #[trigger] w0[k]);
                    assert(w@[w0.len() as int] == c);
                }
            }
            i = i + 1;
        }
        assert(w@.to_set() =~= self@.winner_set());
        w
    }
}

} // verus!
