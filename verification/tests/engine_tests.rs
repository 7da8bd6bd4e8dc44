use wordle_core::GameEngine;
use wordle_core::Guess;
use wordle_core::GuessError;
use wordle_core::LetterState;

fn words(list: &[&str]) -> Vec<String> {
    list.iter().map(|w| w.to_string()).collect()
}

fn engine(pool: &[&str], dict: &[&str]) -> GameEngine {
    GameEngine::new(words(pool), words(dict))
}

fn states(results: &[Guess]) -> Vec<LetterState> {
    results.iter().map(|g| g.state).collect()
}

fn letters(results: &[Guess]) -> Vec<char> {
    results.iter().map(|g| g.letter).collect()
}

#[test]
fn secret_word_comes_from_answer_pool() {
    let e = engine(&["CRANE", "TRACE"], &["CRANE", "TRACE"]);
    assert!(e.game_word == "CRANE" || e.game_word == "TRACE");
}

#[test]
fn single_word_pool_is_deterministic() {
    let e = engine(&["CRANE"], &["CRANE", "TRACE"]);
    assert_eq!(e.game_word, "CRANE");
}

#[test]
fn trace_against_crane_scores_single_pass() {
    let mut e = engine(&["CRANE"], &["CRANE", "TRACE"]);
    let results = e.guess("TRACE").expect("TRACE is a valid guess");
    assert_eq!(letters(&results), vec!['T', 'R', 'A', 'C', 'E']);
    assert_eq!(
        states(&results),
        vec![
            LetterState::Incorrect,
            LetterState::Correct,
            LetterState::Correct,
            LetterState::WrongSpot,
            LetterState::Correct,
        ]
    );
}

#[test]
fn correct_iff_positional_match() {
    let mut e = engine(&["CRANE"], &["CRANE", "TRACE"]);
    let results = e.guess("TRACE").unwrap();
    let secret: Vec<char> = e.game_word.chars().collect();
    for (i, g) in results.iter().enumerate() {
        assert_eq!(g.state == LetterState::Correct, g.letter == secret[i]);
    }
}

#[test]
fn exact_guess_scores_all_correct() {
    let mut e = engine(&["CRANE"], &["CRANE"]);
    let results = e.guess("CRANE").unwrap();
    assert_eq!(results.len(), 5);
    assert!(results.iter().all(|g| g.state == LetterState::Correct));
}

#[test]
fn lowercase_guess_is_normalized() {
    let mut e = engine(&["CRANE"], &["CRANE", "TRACE"]);
    let results = e.guess("trace").expect("lowercase guesses are accepted");
    assert_eq!(letters(&results), vec!['T', 'R', 'A', 'C', 'E']);
    assert_eq!(e.guesses, vec!["TRACE".to_string()]);
}

#[test]
fn wrong_length_is_rejected_and_state_unchanged() {
    let mut e = engine(&["CRANE"], &["CRANE", "TRACE"]);
    let before = e.clone();
    let r = e.guess("FOUR");
    assert_eq!(r, Err(GuessError::InvalidLength));
    assert_eq!(e, before);
}

#[test]
fn word_not_in_dictionary_is_rejected_and_state_unchanged() {
    let mut e = engine(&["CRANE"], &["CRANE", "TRACE"]);
    let before = e.clone();
    let r = e.guess("QUACK");
    assert_eq!(r, Err(GuessError::InvalidWord));
    assert_eq!(e, before);
}

#[test]
fn repeated_guess_is_rejected_and_board_length_unchanged() {
    let mut e = engine(&["CRANE"], &["CRANE", "TRACE"]);
    e.guess("TRACE").unwrap();
    assert_eq!(e.board_state.len(), 5);
    let before = e.clone();
    let r = e.guess("TRACE");
    assert_eq!(r, Err(GuessError::AlreadyGuessed));
    assert_eq!(e.board_state.len(), 5);
    assert_eq!(e, before);
}

#[test]
fn repeat_detection_is_case_insensitive() {
    let mut e = engine(&["CRANE"], &["CRANE", "TRACE"]);
    e.guess("TRACE").unwrap();
    let r = e.guess("trace");
    assert_eq!(r, Err(GuessError::AlreadyGuessed));
}

#[test]
fn empty_guess_against_five_letter_word_is_invalid_length() {
    let mut e = engine(&["CRANE"], &["CRANE"]);
    assert_eq!(e.guess(""), Err(GuessError::InvalidLength));
}

#[test]
fn accepted_guess_appends_to_board_in_order() {
    let mut e = engine(&["CRANE"], &["CRANE", "TRACE"]);
    e.guess("TRACE").unwrap();
    e.guess("CRANE").unwrap();
    assert_eq!(e.board_state.len(), 10);
    let board_letters: Vec<char> = (0..e.board_state.len()).map(|i| e.board_state.get(i).letter).collect();
    assert_eq!(
        board_letters,
        vec!['T', 'R', 'A', 'C', 'E', 'C', 'R', 'A', 'N', 'E']
    );
}

#[test]
fn guess_returns_own_results_not_cumulative_board() {
    let mut e = engine(&["CRANE"], &["CRANE", "TRACE"]);
    e.guess("TRACE").unwrap();
    let second = e.guess("CRANE").unwrap();
    assert_eq!(second.len(), 5);
    assert_eq!(letters(&second), vec!['C', 'R', 'A', 'N', 'E']);
}

#[test]
fn new_game_resets_session() {
    let mut e = engine(&["CRANE", "TRACE"], &["CRANE", "TRACE"]);
    let guess_word = if e.game_word == "CRANE" { "TRACE" } else { "CRANE" };
    e.guess(guess_word).unwrap();
    assert!(e.board_state.len() > 0);
    e.new_game();
    assert_eq!(e.guesses.len(), 0);
    assert_eq!(e.board_state.len(), 0);
    for i in 0..e.keyboard_state.len() {
        assert_eq!(e.keyboard_state.get(i).state, LetterState::NotPlayed);
    }
    assert!(e.game_word == "CRANE" || e.game_word == "TRACE");
}

#[test]
fn error_messages_match_the_rejections() {
    assert_eq!(GuessError::InvalidLength.message(), "invalid word length");
    assert_eq!(GuessError::InvalidWord.message(), "invalid word");
    assert_eq!(GuessError::AlreadyGuessed.message(), "word already guessed");
}
