//! Board history: the ordered sequence of scored letters accumulated over all
//! accepted guesses of the current game.

use vstd::prelude::*;

use crate::letters::LetterState;

verus! {

/// One scored letter of one accepted guess: the guessed letter together with
/// the state the scoring pass assigned to it. Immutable once created.
#[derive(Debug, Clone, Copy, PartialEq, Eq, Structural)]
pub struct Guess {
    pub letter: char,
    pub state: LetterState,
}

/// Append-only history of every scored letter of the current game, in
/// submission order, left to right within each guess. Cleared when a new game
/// starts.
#[derive(Debug, Clone, PartialEq)]
pub struct BoardState(pub Vec<Guess>);

impl View for BoardState {
    type V = Seq<Guess>;

    open spec fn view(&self) -> Seq<Guess> {
        self.0@
    }
}

impl BoardState {
    /// An empty board, as at the start of a game.
    pub fn new() -> (r: Self)
        ensures
            r@ == Seq::<Guess>::empty(),
    {
        BoardState(Vec::new())
    }

    /// Appends, in order, every scored letter produced by one scoring pass.
    pub fn append(&mut self, results: &Vec<Guess>)
        ensures
            final(self)@ == old(self)@ + results@,
    {
        let n = results.len();
        let mut i: usize = 0;
        while i < n
            invariant
                i <= n,
                n == results@.len(),
                self@ == old(self)@ + results@.take(i as int),
            decreases n - i,
        {
            let g = results[i];
            self.0.push(g);
            proof {
                assert(old(self)@ + results@.take(i + 1) =~= (old(self)@ + results@.take(
                    i as int,
                )).push(results@[i as int]));
            }
            i = i + 1;
        }
        proof {
            assert(results@.take(n as int) =~= results@);
        }
    }

    /// Empties the history.
    pub fn clear(&mut self)
        ensures
            final(self)@ == Seq::<Guess>::empty(),
    {
        self.0.clear();
    }

    /// Number of scored letters recorded so far this game.
    pub fn len(&self) -> (r: usize)
        ensures
            r == self@.len(),
    {
        self.0.len()
    }

    /// The scored letter at position `i` of the history.
    pub fn get(&self, i: usize) -> (r: Guess)
        requires
            i < self@.len(),
        ensures
            r == self@[i as int],
    {
        self.0[i]
    }
}

} // verus!
