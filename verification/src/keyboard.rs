//! Per-letter keyboard aggregate: for every letter of the alphabet, the best
//! scoring state observed so far in the current game. The state of a letter is
//! only ever upgraded under the ordering on `LetterState`, never downgraded.

use vstd::prelude::*;

use crate::board::Guess;
use crate::letters::LetterState;
use crate::letters::is_alpha;
use crate::letters::state_rank;
use crate::letters::to_upper;
use crate::letters::upper_char;

verus! {

/// One keyboard entry: a letter and the best state observed for it so far.
#[derive(Debug, Clone, Copy, PartialEq, Eq, Structural)]
pub struct KeyboardKey {
    pub key: char,
    pub state: LetterState,
}

/// The whole keyboard: one entry per alphabet letter, created once at game
/// start with every state `NotPlayed`.
#[derive(Debug, Clone, PartialEq)]
pub struct KeyboardState(pub Vec<KeyboardKey>);

/// The keyboard at the start of a game: every letter of the English alphabet,
/// in display order (one keyboard row after the other), all `NotPlayed`.
pub open spec fn init_keyboard() -> Seq<KeyboardKey> {
    seq![
        KeyboardKey { key: 'Q', state: LetterState::NotPlayed },
        KeyboardKey { key: 'W', state: LetterState::NotPlayed },
        KeyboardKey { key: 'E', state: LetterState::NotPlayed },
        KeyboardKey { key: 'R', state: LetterState::NotPlayed },
        KeyboardKey { key: 'T', state: LetterState::NotPlayed },
        KeyboardKey { key: 'Y', state: LetterState::NotPlayed },
        KeyboardKey { key: 'U', state: LetterState::NotPlayed },
        KeyboardKey { key: 'I', state: LetterState::NotPlayed },
        KeyboardKey { key: 'O', state: LetterState::NotPlayed },
        KeyboardKey { key: 'P', state: LetterState::NotPlayed },
        KeyboardKey { key: 'A', state: LetterState::NotPlayed },
        KeyboardKey { key: 'S', state: LetterState::NotPlayed },
        KeyboardKey { key: 'D', state: LetterState::NotPlayed },
        KeyboardKey { key: 'F', state: LetterState::NotPlayed },
        KeyboardKey { key: 'G', state: LetterState::NotPlayed },
        KeyboardKey { key: 'H', state: LetterState::NotPlayed },
        KeyboardKey { key: 'J', state: LetterState::NotPlayed },
        KeyboardKey { key: 'K', state: LetterState::NotPlayed },
        KeyboardKey { key: 'L', state: LetterState::NotPlayed },
        KeyboardKey { key: 'Z', state: LetterState::NotPlayed },
        KeyboardKey { key: 'X', state: LetterState::NotPlayed },
        KeyboardKey { key: 'C', state: LetterState::NotPlayed },
        KeyboardKey { key: 'V', state: LetterState::NotPlayed },
        KeyboardKey { key: 'B', state: LetterState::NotPlayed },
        KeyboardKey { key: 'N', state: LetterState::NotPlayed },
        KeyboardKey { key: 'M', state: LetterState::NotPlayed },
    ]
}

/// One entry after one observation: if the entry is for `letter` and the new
/// state ranks strictly higher than the current one, the state is upgraded;
/// otherwise the entry is unchanged.
pub open spec fn key_after_update(k: KeyboardKey, letter: char, st: LetterState) -> KeyboardKey {
    if k.key == letter && state_rank(k.state) < state_rank(st) {
        KeyboardKey { key: k.key, state: st }
    } else {
        k
    }
}

/// The whole keyboard after one observation of `letter` with state `st`.
pub open spec fn keyboard_after_update(
    kb: Seq<KeyboardKey>,
    letter: char,
    st: LetterState,
) -> Seq<KeyboardKey> {
    Seq::new(kb.len(), |i: int| key_after_update(kb[i], letter, st))
}

/// The keyboard after observing, in order, every scored letter of one guess.
pub open spec fn keyboard_after_guesses(kb: Seq<KeyboardKey>, scores: Seq<Guess>) -> Seq<
    KeyboardKey,
>
    decreases scores.len(),
{
    if scores.len() == 0 {
        kb
    } else {
        keyboard_after_guesses(
            keyboard_after_update(kb, upper_char(scores[0].letter), scores[0].state),
            scores.drop_first(),
        )
    }
}

impl View for KeyboardState {
    type V = Seq<KeyboardKey>;

    open spec fn view(&self) -> Seq<KeyboardKey> {
        self.0@
    }
}

impl KeyboardState {
    /// A well-formed keyboard holds exactly the alphabet letters of the fresh
    /// keyboard, in the same order.
    pub open spec fn wf(&self) -> bool {
        &&& self@.len() == init_keyboard().len()
        &&& forall|i: int|
            0 <= i < self@.len() ==> (#[trigger] self@[i]).key == init_keyboard()[i].key
    }

    /// Builds the keyboard for a fresh game: every alphabet letter, state
    /// `NotPlayed`.
    pub fn new() -> (r: Self)
        ensures
            r@ == init_keyboard(),
            r.wf(),
    {
        let keys: Vec<KeyboardKey> = vec![
            KeyboardKey { key: 'Q', state: LetterState::NotPlayed },
            KeyboardKey { key: 'W', state: LetterState::NotPlayed },
            KeyboardKey { key: 'E', state: LetterState::NotPlayed },
            KeyboardKey { key: 'R', state: LetterState::NotPlayed },
            KeyboardKey { key: 'T', state: LetterState::NotPlayed },
            KeyboardKey { key: 'Y', state: LetterState::NotPlayed },
            KeyboardKey { key: 'U', state: LetterState::NotPlayed },
            KeyboardKey { key: 'I', state: LetterState::NotPlayed },
            KeyboardKey { key: 'O', state: LetterState::NotPlayed },
            KeyboardKey { key: 'P', state: LetterState::NotPlayed },
            KeyboardKey { key: 'A', state: LetterState::NotPlayed },
            KeyboardKey { key: 'S', state: LetterState::NotPlayed },
            KeyboardKey { key: 'D', state: LetterState::NotPlayed },
            KeyboardKey { key: 'F', state: LetterState::NotPlayed },
            KeyboardKey { key: 'G', state: LetterState::NotPlayed },
            KeyboardKey { key: 'H', state: LetterState::NotPlayed },
            KeyboardKey { key: 'J', state: LetterState::NotPlayed },
            KeyboardKey { key: 'K', state: LetterState::NotPlayed },
            KeyboardKey { key: 'L', state: LetterState::NotPlayed },
            KeyboardKey { key: 'Z', state: LetterState::NotPlayed },
            KeyboardKey { key: 'X', state: LetterState::NotPlayed },
            KeyboardKey { key: 'C', state: LetterState::NotPlayed },
            KeyboardKey { key: 'V', state: LetterState::NotPlayed },
            KeyboardKey { key: 'B', state: LetterState::NotPlayed },
            KeyboardKey { key: 'N', state: LetterState::NotPlayed },
            KeyboardKey { key: 'M', state: LetterState::NotPlayed },
        ];
        proof {
            assert(keys@ =~= init_keyboard());
        }
        KeyboardState(keys)
    }

    /// Records one observation for `key` (case-insensitive): the entry for the
    /// uppercase form of `key` is upgraded to `state` if `state` ranks
    /// strictly higher; no entry is ever downgraded, and no other entry moves.
    pub fn update(&mut self, key: &char, state: LetterState)
        requires
            is_alpha(*key),
        ensures
            final(self)@ == keyboard_after_update(old(self)@, upper_char(*key), state),
            final(self)@.len() == old(self)@.len(),
    {
        let u = to_upper(*key);
        let n = self.0.len();
        let mut i: usize = 0;
        while i < n
            invariant
                i <= n,
                n == self@.len(),
                self@.len() == old(self)@.len(),
                forall|j: int|
                    0 <= j < i ==> self@[j] == key_after_update(
                        old(self)@[j],
                        upper_char(*key),
                        state,
                    ),
                forall|j: int| i <= j < n ==> self@[j] == old(self)@[j],
                u == upper_char(*key),
            decreases n - i,
        {
            let entry = self.0[i];
            if entry.key == u {
                if !crate::letters::state_at_least(entry.state, state) {
                    self.0[i] = KeyboardKey { key: entry.key, state };
                }
            }
            i = i + 1;
        }
        proof {
            assert(self@ =~= keyboard_after_update(old(self)@, upper_char(*key), state));
        }
    }

    /// Sets every entry back to `NotPlayed`, keeping the keys.
    pub fn reset(&mut self)
        ensures
            final(self)@.len() == old(self)@.len(),
            forall|i: int|
                0 <= i < old(self)@.len() ==> (#[trigger] final(self)@[i]) == (KeyboardKey {
                    key: old(self)@[i].key,
                    state: LetterState::NotPlayed,
                }),
    {
        let n = self.0.len();
        let mut i: usize = 0;
        while i < n
            invariant
                i <= n,
                n == self@.len(),
                self@.len() == old(self)@.len(),
                forall|j: int|
                    0 <= j < i ==> (#[trigger] self@[j]) == (KeyboardKey {
                        key: old(self)@[j].key,
                        state: LetterState::NotPlayed,
                    }),
                forall|j: int| i <= j < n ==> self@[j] == old(self)@[j],
            decreases n - i,
        {
            let entry = self.0[i];
            self.0[i] = KeyboardKey { key: entry.key, state: LetterState::NotPlayed };
            i = i + 1;
        }
    }

    /// Number of keyboard entries.
    pub fn len(&self) -> (r: usize)
        ensures
            r == self@.len(),
    {
        self.0.len()
    }

    /// The keyboard entry at position `i`.
    pub fn get(&self, i: usize) -> (r: KeyboardKey)
        requires
            i < self@.len(),
        ensures
            r == self@[i as int],
    {
        self.0[i]
    }
}

impl Default for KeyboardState {
    /// Same as `KeyboardState::new`: the full alphabet, all `NotPlayed`.
    fn default() -> (r: Self)
        ensures
            r@ == init_keyboard(),
            r.wf(),
    {
        Self::new()
    }
}

/// One keyboard observation never downgrades any letter — after
/// `keyboard_after_update`, every entry keeps its key, and its state's rank is
/// at least what it was before.
pub proof fn lemma_update_monotonic(kb: Seq<KeyboardKey>, letter: char, st: LetterState)
    ensures
        keyboard_after_update(kb, letter, st).len() == kb.len(),
        forall|i: int|
            0 <= i < kb.len() ==> (#[trigger] keyboard_after_update(kb, letter, st)[i]).key
                == kb[i].key,
        forall|i: int|
            0 <= i < kb.len() ==> state_rank(
                (#[trigger] keyboard_after_update(kb, letter, st)[i]).state,
            ) >= state_rank(kb[i].state),
{
}

/// Across any sequence of scored letters, the keyboard is monotonically
/// non-decreasing — every entry keeps its key, and its state's rank under
/// `NotPlayed < Incorrect < WrongSpot < Correct` never drops.
pub proof fn lemma_keyboard_monotonic(kb: Seq<KeyboardKey>, scores: Seq<Guess>)
    ensures
        keyboard_after_guesses(kb, scores).len() == kb.len(),
        forall|i: int|
            0 <= i < kb.len() ==> (#[trigger] keyboard_after_guesses(kb, scores)[i]).key
                == kb[i].key,
        forall|i: int|
            0 <= i < kb.len() ==> state_rank(
                (#[trigger] keyboard_after_guesses(kb, scores)[i]).state,
            ) >= state_rank(kb[i].state),
    decreases scores.len(),
{
    if scores.len() > 0 {
        let kb1 = keyboard_after_update(kb, upper_char(scores[0].letter), scores[0].state);
        lemma_update_monotonic(kb, upper_char(scores[0].letter), scores[0].state);
        lemma_keyboard_monotonic(kb1, scores.drop_first());
    }
}

/// Each keyboard entry holds the best state observed for its letter: after
/// folding a sequence of scored letters into the keyboard, an entry's state
/// ranks at least as high as every state scored for its letter, and is either
/// the state the entry already had or one of those scored states.
pub proof fn lemma_keyboard_is_best_observed(kb: Seq<KeyboardKey>, scores: Seq<Guess>, i: int)
    requires
        0 <= i < kb.len(),
    ensures
        forall|j: int|
            0 <= j < scores.len() && upper_char(scores[j].letter) == kb[i].key ==> state_rank(
                keyboard_after_guesses(kb, scores)[i].state,
            ) >= state_rank(scores[j].state),
        keyboard_after_guesses(kb, scores)[i].state == kb[i].state || exists|j: int|
            0 <= j < scores.len() && upper_char(#[trigger] scores[j].letter) == kb[i].key
                && scores[j].state == keyboard_after_guesses(kb, scores)[i].state,
    decreases scores.len(),
{
    if scores.len() > 0 {
        let kb1 = keyboard_after_update(kb, upper_char(scores[0].letter), scores[0].state);
        let rest = scores.drop_first();
        lemma_keyboard_is_best_observed(kb1, rest, i);
        lemma_keyboard_monotonic(kb1, rest);
        assert(kb1[i].key == kb[i].key);
        assert(forall|k: int| 0 <= k < rest.len() ==> rest[k] == scores[k + 1]);
        assert forall|j: int|
            0 <= j < scores.len() && upper_char(scores[j].letter) == kb[i].key implies state_rank(
            keyboard_after_guesses(kb, scores)[i].state,
        ) >= state_rank(scores[j].state) by {
            if j == 0 {
                assert(state_rank(kb1[i].state) >= state_rank(scores[0].state));
            } else {
                assert(rest[j - 1] == scores[j]);
            }
        }
        if keyboard_after_guesses(kb1, rest)[i].state == kb1[i].state {
            if kb1[i].state != kb[i].state {
                assert(kb1[i].state == scores[0].state
                    && upper_char(scores[0].letter) == kb[i].key);
            }
        } else {
            let j = choose|j: int|
                0 <= j < rest.len() && upper_char(#[trigger] rest[j].letter) == kb1[i].key
                    && rest[j].state == keyboard_after_guesses(kb1, rest)[i].state;
            assert(rest[j] == scores[j + 1]);
            assert(upper_char(scores[j + 1].letter) == kb[i].key && scores[j + 1].state
                == keyboard_after_guesses(kb, scores)[i].state);
        }
    }
}

/// Step lemma for folding one more scored letter into the keyboard: applying
/// `scores.push(g)` is applying `scores` and then one update with `g`.
pub proof fn lemma_after_guesses_push(kb: Seq<KeyboardKey>, scores: Seq<Guess>, g: Guess)
    ensures
        keyboard_after_guesses(kb, scores.push(g)) == keyboard_after_update(
            keyboard_after_guesses(kb, scores),
            upper_char(g.letter),
            g.state,
        ),
    decreases scores.len(),
{
    if scores.len() == 0 {
        let kb1 = keyboard_after_update(kb, upper_char(g.letter), g.state);
        assert(scores.push(g)[0] == g);
        assert(scores.push(g).drop_first() =~= Seq::<Guess>::empty());
        assert(keyboard_after_guesses(kb, scores.push(g)) == keyboard_after_guesses(
            kb1,
            Seq::<Guess>::empty(),
        ));
        assert(keyboard_after_guesses(kb1, Seq::<Guess>::empty()) == kb1);
        assert(keyboard_after_guesses(kb, scores) == kb);
    } else {
        let kb1 = keyboard_after_update(kb, upper_char(scores[0].letter), scores[0].state);
        assert(scores.push(g)[0] == scores[0]);
        assert(scores.push(g).drop_first() =~= scores.drop_first().push(g));
        assert(keyboard_after_guesses(kb, scores.push(g)) == keyboard_after_guesses(
            kb1,
            scores.drop_first().push(g),
        ));
        lemma_after_guesses_push(kb1, scores.drop_first(), g);
        assert(keyboard_after_guesses(kb, scores) == keyboard_after_guesses(
            kb1,
            scores.drop_first(),
        ));
    }
}

} // verus!
