//! Letter-level vocabulary: the scoring states a guessed letter can take, the
//! total order on them that drives the keyboard aggregate, and uppercase
//! normalization over the ASCII alphabet.

use vstd::prelude::*;

verus! {

use vstd::string::StrSliceExecFns;

/// Correctness classification of one letter occurrence in one guess, ordered
/// from worst to best: `NotPlayed < Incorrect < WrongSpot < Correct`.
#[derive(Debug, Clone, Copy, PartialEq, Eq, Structural)]
pub enum LetterState {
    NotPlayed,
    Incorrect,
    WrongSpot,
    Correct,
}

/// Rank of a `LetterState` under the ordering
/// `NotPlayed < Incorrect < WrongSpot < Correct`.
pub open spec fn state_rank(s: LetterState) -> int {
    match s {
        LetterState::NotPlayed => 0,
        LetterState::Incorrect => 1,
        LetterState::WrongSpot => 2,
        LetterState::Correct => 3,
    }
}

/// Decides `state_rank(a) >= state_rank(b)`: whether status `a` is at least as
/// good as status `b`.
pub fn state_at_least(a: LetterState, b: LetterState) -> (r: bool)
    ensures
        r == (state_rank(a) >= state_rank(b)),
{
    let ra: u8 = match a {
        LetterState::NotPlayed => 0,
        LetterState::Incorrect => 1,
        LetterState::WrongSpot => 2,
        LetterState::Correct => 3,
    };
    let rb: u8 = match b {
        LetterState::NotPlayed => 0,
        LetterState::Incorrect => 1,
        LetterState::WrongSpot => 2,
        LetterState::Correct => 3,
    };
    ra >= rb
}

/// An uppercase letter of the English alphabet.
pub open spec fn is_upper_alpha(c: char) -> bool {
    'A' <= c && c <= 'Z'
}

/// A lowercase letter of the English alphabet.
pub open spec fn is_lower_alpha(c: char) -> bool {
    'a' <= c && c <= 'z'
}

/// A letter of the English alphabet, either case.
pub open spec fn is_alpha(c: char) -> bool {
    is_upper_alpha(c) || is_lower_alpha(c)
}

/// Uppercase normalization of a single character: lowercase English letters
/// map to their uppercase form, every other character is left unchanged.
pub open spec fn upper_char(c: char) -> char {
    if is_lower_alpha(c) {
        ((c as u32) - 32) as char
    } else {
        c
    }
}

/// Uppercase normalization of a whole word, character by character.
pub open spec fn upper_word(w: Seq<char>) -> Seq<char> {
    w.map_values(|c: char| upper_char(c))
}

/// A word made only of uppercase English letters.
pub open spec fn upper_alpha_word(w: Seq<char>) -> bool {
    forall|i: int| 0 <= i < w.len() ==> is_upper_alpha(#[trigger] w[i])
}

/// Executable uppercase normalization of a single character.
pub fn to_upper(c: char) -> (r: char)
    ensures
        r == upper_char(c),
{
    match c {
        'a' => 'A',
        'b' => 'B',
        'c' => 'C',
        'd' => 'D',
        'e' => 'E',
        'f' => 'F',
        'g' => 'G',
        'h' => 'H',
        'i' => 'I',
        'j' => 'J',
        'k' => 'K',
        'l' => 'L',
        'm' => 'M',
        'n' => 'N',
        'o' => 'O',
        'p' => 'P',
        'q' => 'Q',
        'r' => 'R',
        's' => 'S',
        't' => 'T',
        'u' => 'U',
        'v' => 'V',
        'w' => 'W',
        'x' => 'X',
        'y' => 'Y',
        'z' => 'Z',
        _ => c,
    }
}

/// Relies on `String::push`: appends the given character to the end of the
/// string.
#[verifier::external_body]
fn push_char(s: &mut String, c: char)
    ensures
        final(s)@ == old(s)@.push(c),
{
    s.push(c)
}

/// Executable uppercase normalization of a whole word.
pub fn to_upper_word(s: &str) -> (r: String)
    ensures
        r@ == upper_word(s@),
{
    let n = s.unicode_len();
    let mut out = String::new();
    let mut i: usize = 0;
    while i < n
        invariant
            i <= n,
            n == s@.len(),
            out@ == upper_word(s@.take(i as int)),
        decreases n - i,
    {
        let c = s.get_char(i);
        push_char(&mut out, to_upper(c));
        proof {
            assert(upper_word(s@.take(i + 1)) =~= upper_word(s@.take(i as int)).push(
                upper_char(s@[i as int]),
            ));
        }
        i = i + 1;
    }
    proof {
        assert(s@.take(n as int) =~= s@);
    }
    out
}

/// Whether character `c` occurs anywhere in `s`.
pub fn str_contains_char(s: &str, c: char) -> (r: bool)
    ensures
        r == s@.contains(c),
{
    let n = s.unicode_len();
    let mut i: usize = 0;
    while i < n
        invariant
            i <= n,
            n == s@.len(),
            forall|j: int| 0 <= j < i ==> s@[j] != c,
        decreases n - i,
    {
        if s.get_char(i) == c {
            return true;
        }
        i = i + 1;
    }
    false
}

} // verus!
