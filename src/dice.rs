//! Rolling the colour dice, and how many of them a round uses.
use vstd::prelude::*;

use rand::Rng;

use crate::color::{Color, NUM_COLORS};
use crate::GameError;

verus! {

/// Relies on rand's `Rng::choose` on the thread-local generator: it returns
/// one of the items of a non-empty slice (uniformly at random).
#[verifier::external_body]
fn choose_color(colors: &Vec<Color>) -> (r: Color)
    requires
        colors@.len() > 0,
    ensures
        colors@.contains(r),
{
    *rand::thread_rng().choose(colors).unwrap()
}

impl Color {
    /// All six colours, in display-rank order.
    pub fn all() -> (r: Vec<Color>)
        ensures
            r@.len() == NUM_COLORS,
            forall|i: int| 0 <= i < NUM_COLORS ==> (#[trigger] r@[i]).rank() == i,
    {
        let mut r: Vec<Color> = Vec::new();
        let mut i: usize = 0;
        while i < NUM_COLORS
            invariant
                i <= NUM_COLORS,
                r@.len() == i,
                forall|k: int| 0 <= k < i ==> (#[trigger] r@[k]).rank() == k,
            decreases NUM_COLORS - i,
        {
            r.push(Color::from_index(i));
            i = i + 1;
        }
        r
    }

    /// One roll of a colour die.
    pub fn random() -> (c: Color) {
        choose_color(&Color::all())
    }
}

/// The outcome of rolling `n` colour dice.
pub fn roll_dice(n: usize) -> (dice: Vec<Color>)
    ensures
        dice@.len() == n,
{
    let mut dice: Vec<Color> = Vec::new();
    let mut i: usize = 0;
    while i < n
        invariant
            i <= n,
            dice@.len() == i,
        decreases n - i,
    {
        dice.push(Color::random());
        i = i + 1;
    }
    dice
}

/// The number of dice per round, which must be positive.
pub fn dice_count(n: i32) -> (r: Result<usize, GameError>)
    ensures
        n > 0 ==> r == Ok::<usize, GameError>(n as usize),
        n <= 0 ==> r == Err::<usize, GameError>(GameError::InvalidDiceCount),
{
    if n > 0 {
        Ok(n as usize)
    } else {
        Err(GameError::InvalidDiceCount)
    }
}

} // verus!
