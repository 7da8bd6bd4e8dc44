//! Logic core of a word-guessing game: a secret word is drawn from an answer
//! pool, submitted guesses are validated against a dictionary, each letter of
//! an accepted guess is scored against the secret word, and a per-letter
//! keyboard aggregate keeps the best status observed so far in the session.

pub mod board;
pub mod engine;
pub mod keyboard;
pub mod letters;
mod rng;

pub use board::BoardState;
pub use board::Guess;
pub use engine::GameEngine;
pub use engine::GuessError;
pub use keyboard::KeyboardKey;
pub use keyboard::KeyboardState;
pub use letters::LetterState;
