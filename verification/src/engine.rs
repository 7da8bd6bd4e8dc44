//! Game engine: owns the secret word for the session, validates submitted
//! guesses against the dictionary, scores each letter of an accepted guess
//! against the secret word, and keeps the guess history, the board and the
//! keyboard aggregate.

use vstd::prelude::*;

use crate::board::BoardState;
use crate::board::Guess;
use crate::keyboard::KeyboardState;
use crate::keyboard::init_keyboard;
use crate::keyboard::keyboard_after_guesses;
use crate::keyboard::lemma_after_guesses_push;
use crate::keyboard::lemma_keyboard_monotonic;
use crate::letters::LetterState;
use crate::letters::state_rank;
use crate::letters::str_contains_char;
use crate::letters::to_upper_word;
use crate::letters::upper_alpha_word;
use crate::letters::upper_word;
use crate::rng::random_index;

verus! {

use vstd::string::StrSliceExecFns;

/// Why a submitted guess was rejected. Every rejection is recoverable: the
/// caller may simply submit another guess.
#[derive(Debug, Clone, Copy, PartialEq, Eq, Structural)]
pub enum GuessError {
    /// The guess does not have the secret word's number of characters.
    InvalidLength,
    /// The normalized guess is not a dictionary word.
    InvalidWord,
    /// The normalized guess was already accepted earlier this game.
    AlreadyGuessed,
}

impl GuessError {
    /// A short description of the rejection, for user-facing messaging.
    pub fn message(&self) -> (r: &'static str)
        ensures
            *self == GuessError::InvalidLength ==> r@ == "invalid word length"@,
            *self == GuessError::InvalidWord ==> r@ == "invalid word"@,
            *self == GuessError::AlreadyGuessed ==> r@ == "word already guessed"@,
    {
        match self {
            GuessError::InvalidLength => "invalid word length",
            GuessError::InvalidWord => "invalid word",
            GuessError::AlreadyGuessed => "word already guessed",
        }
    }
}

/// The state scored for guessed letter `g` at position `i` of the secret word:
/// `Correct` on an exact positional match, `WrongSpot` when the letter occurs
/// anywhere in the secret word, `Incorrect` otherwise. Each position is scored
/// independently: letter multiplicity in the secret word is not consumed, a
/// single-pass behavior this engine keeps deliberately.
pub open spec fn score_letter(secret: Seq<char>, g: char, i: int) -> LetterState {
    if 0 <= i < secret.len() && secret[i] == g {
        LetterState::Correct
    } else if secret.contains(g) {
        LetterState::WrongSpot
    } else {
        LetterState::Incorrect
    }
}

/// The scored letter produced for position `i` of the guess.
pub open spec fn scored_letter_at(secret: Seq<char>, guess: Seq<char>, i: int) -> Guess {
    Guess { letter: guess[i], state: score_letter(secret, guess[i], i) }
}

/// Position-by-position scoring of a whole normalized guess against the
/// secret word, left to right.
pub open spec fn score_guess(secret: Seq<char>, guess: Seq<char>) -> Seq<Guess> {
    Seq::new(guess.len(), |i: int| scored_letter_at(secret, guess, i))
}

/// Every word of the list is made only of uppercase English letters.
pub open spec fn words_ok(ws: Seq<String>) -> bool {
    forall|i: int| 0 <= i < ws.len() ==> upper_alpha_word((#[trigger] ws[i])@)
}

/// At each position of a guess with the secret word's length, the score
/// is `Correct` exactly when the guessed letter equals the secret word's
/// letter at that position.
pub proof fn lemma_correct_iff_positional_match(secret: Seq<char>, guess: Seq<char>, i: int)
    requires
        guess.len() == secret.len(),
        0 <= i < guess.len(),
    ensures
        (score_guess(secret, guess)[i].state == LetterState::Correct) <==> guess[i] == secret[i],
{
    assert(score_guess(secret, guess)[i].state == score_letter(secret, guess[i], i));
}

/// Whether some word of `words` reads the same as `w`.
fn word_in_list(words: &Vec<String>, w: &String) -> (r: bool)
    ensures
        r == exists|i: int| 0 <= i < words@.len() && (#[trigger] words@[i])@ == w@,
{
    let n = words.len();
    let mut i: usize = 0;
    while i < n
        invariant
            i <= n,
            n == words@.len(),
            forall|j: int| 0 <= j < i ==> (#[trigger] words@[j])@ != w@,
        decreases n - i,
    {
        if words[i].eq(w) {
            return true;
        }
        i = i + 1;
    }
    false
}

/// Draws a uniformly random word from the pool.
fn choose_game_word(pool: &Vec<String>) -> (r: String)
    requires
        pool@.len() > 0,
    ensures
        exists|i: int| 0 <= i < pool@.len() && (#[trigger] pool@[i])@ == r@,
{
    let i = random_index(pool.len());
    let word = pool[i].clone();
    proof {
        assert(pool@[i as int]@ == word@);
    }
    word
}

/// Scores `normalized` against `game_word` position by position, records each
/// scored letter on the keyboard as it is produced, and returns the scored
/// letters in order.
#[verifier::loop_isolation(false)]
fn score_and_record(
    game_word: &String,
    normalized: &String,
    keyboard: &mut KeyboardState,
) -> (results: Vec<Guess>)
    requires
        normalized@.len() == game_word@.len(),
        upper_alpha_word(normalized@),
    ensures
        results@ == score_guess(game_word@, normalized@),
        final(keyboard)@ == keyboard_after_guesses(old(keyboard)@, results@),
        final(keyboard)@.len() == old(keyboard)@.len(),
        forall|i: int|
            0 <= i < old(keyboard)@.len() ==> (#[trigger] final(keyboard)@[i]).key == old(
                keyboard,
            )@[i].key && state_rank(final(keyboard)@[i].state) >= state_rank(
                old(keyboard)@[i].state,
            ),
{
    let n = game_word.unicode_len();
    proof {
        assert(score_guess(game_word@, normalized@).len() == normalized@.len());
    }
    let mut results: Vec<Guess> = Vec::new();
    let mut i: usize = 0;
    while i < n
        invariant
            i <= n,
            score_guess(game_word@, normalized@).len() == normalized@.len(),
            results@.len() == i,
            forall|j: int|
                0 <= j < i ==> results@[j] == score_guess(game_word@, normalized@)[j],
            keyboard@ == keyboard_after_guesses(old(keyboard)@, results@),
        decreases n - i,
    {
        let g = normalized.as_str().get_char(i);
        let s = game_word.as_str().get_char(i);
        let state = if s == g {
            LetterState::Correct
        } else if str_contains_char(game_word.as_str(), g) {
            LetterState::WrongSpot
        } else {
            LetterState::Incorrect
        };
        let entry = Guess { letter: g, state };
        proof {
            assert(crate::letters::is_upper_alpha(normalized@[i as int]));
            assert(entry == score_guess(game_word@, normalized@)[i as int]);
            lemma_after_guesses_push(old(keyboard)@, results@, entry);
        }
        keyboard.update(&g, state);
        results.push(entry);
        i = i + 1;
    }
    proof {
        assert(results@ =~= score_guess(game_word@, normalized@));
        lemma_keyboard_monotonic(old(keyboard)@, results@);
    }
    results
}

/// One game session: the secret word, the accepted guesses so far, the
/// dictionary of valid guesses, the answer pool the secret word is drawn
/// from, and the board and keyboard aggregates.
#[derive(Debug, Clone, PartialEq)]
pub struct GameEngine {
    pub game_word: String,
    pub guesses: Vec<String>,
    pub dictionary: Vec<String>,
    pub answer_pool: Vec<String>,
    pub board_state: BoardState,
    pub keyboard_state: KeyboardState,
}

impl GameEngine {
    /// Session invariant: a non-empty answer pool of uppercase words, an
    /// uppercase dictionary, a secret word that came from the pool, and a
    /// keyboard that still holds the full alphabet.
    pub open spec fn wf(&self) -> bool {
        &&& self.answer_pool@.len() > 0
        &&& words_ok(self.answer_pool@)
        &&& words_ok(self.dictionary@)
        &&& self.word_from_pool(self.game_word@)
        &&& self.keyboard_state.wf()
    }

    /// Whether `w` reads the same as some word of the dictionary.
    pub open spec fn in_dictionary(&self, w: Seq<char>) -> bool {
        exists|i: int| 0 <= i < self.dictionary@.len() && (#[trigger] self.dictionary@[i])@ == w
    }

    /// Whether `w` reads the same as some guess already accepted this game.
    pub open spec fn already_guessed(&self, w: Seq<char>) -> bool {
        exists|i: int| 0 <= i < self.guesses@.len() && (#[trigger] self.guesses@[i])@ == w
    }

    /// Whether `w` reads the same as some word of the answer pool.
    pub open spec fn word_from_pool(&self, w: Seq<char>) -> bool {
        exists|i: int| 0 <= i < self.answer_pool@.len() && (#[trigger] self.answer_pool@[i])@ == w
    }

    /// Whether a raw guess passes all three validation steps: the secret
    /// word's length, dictionary membership of its uppercase form, and not
    /// having been accepted before.
    pub open spec fn accepts(&self, raw: Seq<char>) -> bool {
        &&& raw.len() == self.game_word@.len()
        &&& self.in_dictionary(upper_word(raw))
        &&& !self.already_guessed(upper_word(raw))
    }

    /// Starts a session: draws a secret word at random from the answer pool
    /// and begins with no guesses, an empty board and a fresh keyboard.
    ///
    /// The caller supplies the word lists, both already uppercase; an empty
    /// answer pool is a fatal configuration error, ruled out here.
    pub fn new(answer_pool: Vec<String>, dictionary: Vec<String>) -> (r: Self)
        requires
            answer_pool@.len() > 0,
            words_ok(answer_pool@),
            words_ok(dictionary@),
        ensures
            r.wf(),
            r.answer_pool@ == answer_pool@,
            r.dictionary@ == dictionary@,
            r.guesses@ == Seq::<String>::empty(),
            r.board_state@ == Seq::<Guess>::empty(),
            r.keyboard_state@ == init_keyboard(),
            r.word_from_pool(r.game_word@),
    {
        let game_word = choose_game_word(&answer_pool);
        GameEngine {
            game_word,
            guesses: Vec::new(),
            dictionary,
            answer_pool,
            board_state: BoardState::new(),
            keyboard_state: KeyboardState::new(),
        }
    }

    /// Starts the next game of the session: re-draws the secret word from the
    /// answer pool, clears the accepted guesses and the board, and resets
    /// every keyboard entry to `NotPlayed`.
    pub fn new_game(&mut self)
        requires
            old(self).wf(),
        ensures
            final(self).wf(),
            final(self).dictionary@ == old(self).dictionary@,
            final(self).answer_pool@ == old(self).answer_pool@,
            final(self).guesses@ == Seq::<String>::empty(),
            final(self).board_state@ == Seq::<Guess>::empty(),
            final(self).keyboard_state@ == init_keyboard(),
            final(self).word_from_pool(final(self).game_word@),
    {
        self.game_word = choose_game_word(&self.answer_pool);
        self.guesses.clear();
        self.keyboard_state.reset();
        self.board_state.clear();
        proof {
            assert(self.keyboard_state@ =~= init_keyboard());
        }
    }

    /// Submits one raw guess against the current session state.
    ///
    /// The guess is validated in order — length, dictionary membership of its
    /// uppercase form, repeat submission — and the first failing step decides
    /// the error; a rejected guess leaves the whole session state unchanged.
    /// An accepted guess is recorded uppercase, scored position by position
    /// against the secret word, appended to the board, folded into the
    /// keyboard aggregate, and its own scored letters are returned. The
    /// keyboard never regresses, whatever the outcome.
    pub fn guess(&mut self, guess: &str) -> (r: Result<Vec<Guess>, GuessError>)
        requires
            old(self).wf(),
        ensures
            final(self).wf(),
            final(self).game_word@ == old(self).game_word@,
            final(self).dictionary@ == old(self).dictionary@,
            final(self).answer_pool@ == old(self).answer_pool@,
            r is Ok <==> old(self).accepts(guess@),
            guess@.len() != old(self).game_word@.len() ==> r == Err::<Vec<Guess>, GuessError>(
                GuessError::InvalidLength,
            ) && *final(self) == *old(self),
            guess@.len() == old(self).game_word@.len() && !old(self).in_dictionary(
                upper_word(guess@),
            ) ==> r == Err::<Vec<Guess>, GuessError>(GuessError::InvalidWord) && *final(self)
                == *old(self),
            guess@.len() == old(self).game_word@.len() && old(self).in_dictionary(
                upper_word(guess@),
            ) && old(self).already_guessed(upper_word(guess@)) ==> r == Err::<
                Vec<Guess>,
                GuessError,
            >(GuessError::AlreadyGuessed) && *final(self) == *old(self),
            old(self).accepts(guess@) ==> (r matches Ok(v) && v@ == score_guess(
                old(self).game_word@,
                upper_word(guess@),
            )),
            old(self).accepts(guess@) ==> final(self).guesses@.len() == old(self).guesses@.len()
                + 1 && final(self).guesses@[old(self).guesses@.len() as int]@ == upper_word(guess@)
                && (forall|i: int|
                0 <= i < old(self).guesses@.len() ==> final(self).guesses@[i]
                    == old(self).guesses@[i]),
            old(self).accepts(guess@) ==> final(self).board_state@ == old(self).board_state@
                + score_guess(old(self).game_word@, upper_word(guess@)),
            old(self).accepts(guess@) ==> final(self).keyboard_state@ == keyboard_after_guesses(
                old(self).keyboard_state@,
                score_guess(old(self).game_word@, upper_word(guess@)),
            ),
            final(self).keyboard_state@.len() == old(self).keyboard_state@.len(),
            forall|i: int|
                0 <= i < old(self).keyboard_state@.len() ==> (
                #[trigger] final(self).keyboard_state@[i]).key == old(self).keyboard_state@[i].key
                    && state_rank(final(self).keyboard_state@[i].state) >= state_rank(
                    old(self).keyboard_state@[i].state,
                ),
    {
        if guess.unicode_len() != self.game_word.unicode_len() {
            return Err(GuessError::InvalidLength);
        }
        let normalized = to_upper_word(guess);
        if !word_in_list(&self.dictionary, &normalized) {
            return Err(GuessError::InvalidWord);
        }
        if word_in_list(&self.guesses, &normalized) {
            return Err(GuessError::AlreadyGuessed);
        }
        proof {
            let j = choose|j: int|
                0 <= j < self.dictionary@.len() && (#[trigger] self.dictionary@[j])@
                    == normalized@;
            assert(upper_alpha_word(normalized@));
        }
        self.guesses.push(normalized.clone());
        let results = score_and_record(&self.game_word, &normalized, &mut self.keyboard_state);
        self.board_state.append(&results);
        Ok(results)
    }
}

} // verus!
