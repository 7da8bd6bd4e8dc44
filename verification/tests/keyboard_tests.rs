use wordle_core::GameEngine;
use wordle_core::KeyboardState;
use wordle_core::LetterState;

fn state_of(kb: &KeyboardState, letter: char) -> LetterState {
    for i in 0..kb.len() {
        let entry = kb.get(i);
        if entry.key == letter {
            return entry.state;
        }
    }
    panic!("no keyboard entry for {}", letter);
}

#[test]
fn fresh_keyboard_holds_the_alphabet_not_played() {
    let kb = KeyboardState::new();
    assert_eq!(kb.len(), 26);
    let keys: Vec<char> = (0..kb.len()).map(|i| kb.get(i).key).collect();
    let expected: Vec<char> = "QWERTYUIOPASDFGHJKLZXCVBNM".chars().collect();
    assert_eq!(keys, expected);
    for i in 0..kb.len() {
        assert_eq!(kb.get(i).state, LetterState::NotPlayed);
    }
}

#[test]
fn default_keyboard_equals_fresh_keyboard() {
    assert_eq!(KeyboardState::default(), KeyboardState::new());
}

#[test]
fn update_upgrades_only_the_named_letter() {
    let mut kb = KeyboardState::new();
    kb.update(&'T', LetterState::WrongSpot);
    assert_eq!(state_of(&kb, 'T'), LetterState::WrongSpot);
    for i in 0..kb.len() {
        let entry = kb.get(i);
        if entry.key != 'T' {
            assert_eq!(entry.state, LetterState::NotPlayed);
        }
    }
}

#[test]
fn update_is_case_insensitive() {
    let mut kb = KeyboardState::new();
    kb.update(&'t', LetterState::Correct);
    assert_eq!(state_of(&kb, 'T'), LetterState::Correct);
}

#[test]
fn update_never_downgrades() {
    let mut kb = KeyboardState::new();
    kb.update(&'E', LetterState::Correct);
    kb.update(&'E', LetterState::WrongSpot);
    assert_eq!(state_of(&kb, 'E'), LetterState::Correct);
    kb.update(&'E', LetterState::Incorrect);
    assert_eq!(state_of(&kb, 'E'), LetterState::Correct);
}

#[test]
fn update_upgrades_along_the_ordering() {
    let mut kb = KeyboardState::new();
    kb.update(&'B', LetterState::Incorrect);
    assert_eq!(state_of(&kb, 'B'), LetterState::Incorrect);
    kb.update(&'B', LetterState::WrongSpot);
    assert_eq!(state_of(&kb, 'B'), LetterState::WrongSpot);
    kb.update(&'B', LetterState::Correct);
    assert_eq!(state_of(&kb, 'B'), LetterState::Correct);
}

#[test]
fn reset_clears_states_and_keeps_keys() {
    let mut kb = KeyboardState::new();
    kb.update(&'Q', LetterState::Correct);
    kb.reset();
    assert_eq!(kb, KeyboardState::new());
}

#[test]
fn keyboard_is_monotonic_across_a_game() {
    let mut e = GameEngine::new(
        vec!["CRANE".to_string()],
        vec!["CRANE".to_string(), "TRACE".to_string(), "CABLE".to_string()],
    );
    e.guess("CRANE").unwrap();
    assert_eq!(state_of(&e.keyboard_state, 'C'), LetterState::Correct);
    assert_eq!(state_of(&e.keyboard_state, 'A'), LetterState::Correct);
    // CABLE scores its A as WrongSpot, but the keyboard keeps the better state.
    e.guess("CABLE").unwrap();
    assert_eq!(state_of(&e.keyboard_state, 'A'), LetterState::Correct);
    assert_eq!(state_of(&e.keyboard_state, 'C'), LetterState::Correct);
    assert_eq!(state_of(&e.keyboard_state, 'B'), LetterState::Incorrect);
}

#[test]
fn one_guess_fills_the_keyboard_from_not_played() {
    let mut e = GameEngine::new(
        vec!["CRANE".to_string()],
        vec!["CRANE".to_string(), "TRACE".to_string()],
    );
    e.guess("TRACE").unwrap();
    assert_eq!(state_of(&e.keyboard_state, 'T'), LetterState::Incorrect);
    assert_eq!(state_of(&e.keyboard_state, 'R'), LetterState::Correct);
    assert_eq!(state_of(&e.keyboard_state, 'A'), LetterState::Correct);
    assert_eq!(state_of(&e.keyboard_state, 'C'), LetterState::WrongSpot);
    assert_eq!(state_of(&e.keyboard_state, 'E'), LetterState::Correct);
    assert_eq!(state_of(&e.keyboard_state, 'Z'), LetterState::NotPlayed);
}
