//! The words of the step language: a step's text as a sequence of tokens.
//!
//! Blanks separate tokens and mean nothing else. A number is a run of
//! digits, with a point and more digits if a digit follows the point. A
//! word is a run of letters; the keywords are taken in any case, the scale
//! letters `C`, `F` and `K` in upper case only.

use crate::schedule::text::chars_of;
use crate::schedule::units::{TemperatureScale, TimeUnit};
use vstd::prelude::*;

verus! {

/// A token of the step language.
#[derive(Clone, Copy, Debug, PartialEq, Eq, Structural)]
pub enum Token {
    /// A number, in millionths.
    Number(u64),
    Hold,
    For,
    To,
    Over,
    By,
    Degrees,
    Per,
    Ambient,
    Unit(TimeUnit),
    Scale(TemperatureScale),
    Dot,
}

/// The largest number that the language holds, in millionths.
pub const MAX_NUMBER: u64 = 0x7fff_ffff_ffff_ffff;

/// What a whole part is counted up to; every whole part from here on is too large.
const WHOLE_CAP: u64 = 10_000_000_000_000;

/// The blanks: space, tab, line feed and carriage return.
pub open spec fn is_space(c: char) -> bool {
    c == ' ' || c == '\t' || c == '\n' || c == '\r'
}

/// The ten digits.
pub open spec fn is_digit(c: char) -> bool {
    '0' <= c <= '9'
}

/// The letters of the English alphabet, in either case.
pub open spec fn is_letter(c: char) -> bool {
    ('a' <= c <= 'z') || ('A' <= c <= 'Z')
}

/// The code of the letter in lower case; the code of any other character.
pub open spec fn lower(c: char) -> u32 {
    if 'A' <= c <= 'Z' {
        (c as u32 + 32) as u32
    } else {
        c as u32
    }
}

/// The number that a digit writes.
pub open spec fn digit_value(c: char) -> nat {
    (c as u32 - '0' as u32) as nat
}

/// The first index at or after `from` that holds no digit.
pub open spec fn digits_end(s: Seq<char>, from: int) -> int
    decreases s.len() - from,
{
    if 0 <= from < s.len() && is_digit(s[from]) {
        digits_end(s, from + 1)
    } else {
        from
    }
}

/// The first index at or after `from` that holds no letter.
pub open spec fn letters_end(s: Seq<char>, from: int) -> int
    decreases s.len() - from,
{
    if 0 <= from < s.len() && is_letter(s[from]) {
        letters_end(s, from + 1)
    } else {
        from
    }
}

/// The number that the digits from `from` up to `to` write.
pub open spec fn whole_value(s: Seq<char>, from: int, to: int) -> nat
    decreases to - from,
{
    if to <= from {
        0
    } else {
        whole_value(s, from, to - 1) * 10 + digit_value(s[to - 1])
    }
}

/// The fraction that the digits from `from` up to `to` write after a
/// point, where the first of them counts `place`: with a first place of
/// 100000 that is the fraction in millionths, cut off after the sixth digit.
pub open spec fn fraction_value(s: Seq<char>, from: int, to: int, place: nat) -> nat
    decreases to - from,
{
    if to <= from || place == 0 {
        0
    } else {
        digit_value(s[from]) * place + fraction_value(s, from + 1, to, place / 10)
    }
}

/// Whether a point at `at` starts a fraction: a digit follows it.
pub open spec fn has_fraction(s: Seq<char>, at: int) -> bool {
    0 <= at && at + 1 < s.len() && s[at] == '.' && is_digit(s[at + 1])
}

/// The index after the number that starts at `from`.
pub open spec fn number_end(s: Seq<char>, from: int) -> int {
    let point = digits_end(s, from);
    if has_fraction(s, point) {
        digits_end(s, point + 1)
    } else {
        point
    }
}

/// The number that starts at `from`, in millionths.
pub open spec fn number_value(s: Seq<char>, from: int) -> nat {
    let point = digits_end(s, from);
    whole_value(s, from, point) * 1_000_000 + if has_fraction(s, point) {
        fraction_value(s, point + 1, digits_end(s, point + 1), 100_000)
    } else {
        0
    }
}

/// Whether the word is the keyword, whatever the case of its letters.
pub open spec fn is_word(word: Seq<char>, keyword: Seq<char>) -> bool {
    word.len() == keyword.len() && forall|i: int|
        0 <= i < word.len() ==> lower(#[trigger] word[i]) == keyword[i] as u32
}

/// The token that a word stands for.
pub open spec fn word_token(word: Seq<char>) -> Option<Token> {
    if is_word(word, "hold"@) {
        Some(Token::Hold)
    } else if is_word(word, "for"@) {
        Some(Token::For)
    } else if is_word(word, "to"@) {
        Some(Token::To)
    } else if is_word(word, "over"@) {
        Some(Token::Over)
    } else if is_word(word, "by"@) {
        Some(Token::By)
    } else if is_word(word, "degrees"@) {
        Some(Token::Degrees)
    } else if is_word(word, "per"@) {
        Some(Token::Per)
    } else if is_word(word, "ambient"@) {
        Some(Token::Ambient)
    } else if is_word(word, "hour"@) || is_word(word, "hours"@) {
        Some(Token::Unit(TimeUnit::Hours))
    } else if is_word(word, "minute"@) || is_word(word, "minutes"@) {
        Some(Token::Unit(TimeUnit::Minutes))
    } else if is_word(word, "second"@) || is_word(word, "seconds"@) {
        Some(Token::Unit(TimeUnit::Seconds))
    } else if word == seq!['C'] {
        Some(Token::Scale(TemperatureScale::Celsius))
    } else if word == seq!['F'] {
        Some(Token::Scale(TemperatureScale::Fahrenheit))
    } else if word == seq!['K'] {
        Some(Token::Scale(TemperatureScale::Kelvin))
    } else {
        None
    }
}

/// The tokens of the text from index `i` on, after the tokens `before`.
/// `None` where a character belongs to no token, a word is no word of the
/// language, or a number is larger than [`MAX_NUMBER`]. (A number and a
/// word always end after their start and within the text; saying so here
/// makes it plain that the tokens are finitely many.)
pub open spec fn lex_from(s: Seq<char>, i: int, before: Seq<Token>) -> Option<Seq<Token>>
    decreases s.len() - i,
{
    if i < 0 || i >= s.len() {
        Some(before)
    } else if is_space(s[i]) {
        lex_from(s, i + 1, before)
    } else if s[i] == '.' {
        lex_from(s, i + 1, before.push(Token::Dot))
    } else if is_digit(s[i]) {
        let next = number_end(s, i);
        if i < next <= s.len() && number_value(s, i) <= MAX_NUMBER {
            lex_from(s, next, before.push(Token::Number(number_value(s, i) as u64)))
        } else {
            None
        }
    } else if is_letter(s[i]) {
        let next = letters_end(s, i);
        if i < next <= s.len() {
            match word_token(s.subrange(i, next)) {
                Some(token) => lex_from(s, next, before.push(token)),
                None => None,
            }
        } else {
            None
        }
    } else {
        None
    }
}

/// The tokens of a text.
pub open spec fn tokens(s: Seq<char>) -> Option<Seq<Token>> {
    lex_from(s, 0, Seq::empty())
}

/// A run of digits ends within the text, at or after its start, and holds
/// digits only.
pub proof fn lemma_digits_end(s: Seq<char>, from: int)
    requires
        0 <= from <= s.len(),
    ensures
        from <= digits_end(s, from) <= s.len(),
        forall|k: int| from <= k < digits_end(s, from) ==> is_digit(#[trigger] s[k]),
        digits_end(s, from) < s.len() ==> !is_digit(s[digits_end(s, from)]),
    decreases s.len() - from,
{
    if from < s.len() && is_digit(s[from]) {
        lemma_digits_end(s, from + 1);
    }
}

/// A whole part only grows with more digits.
proof fn lemma_whole_value_grows(s: Seq<char>, from: int, to: int)
    requires
        from <= to,
    ensures
        whole_value(s, from, to + 1) >= whole_value(s, from, to) * 10,
{
}

fn digit(c: char) -> (is: bool)
    ensures
        is == is_digit(c),
{
    c >= '0' && c <= '9'
}

fn letter(c: char) -> (is: bool)
    ensures
        is == is_letter(c),
{
    (c >= 'a' && c <= 'z') || (c >= 'A' && c <= 'Z')
}

fn space(c: char) -> (is: bool)
    ensures
        is == is_space(c),
{
    c == ' ' || c == '\t' || c == '\n' || c == '\r'
}

/// Reads the number that starts at `start`: its value in millionths, if
/// that is no larger than [`MAX_NUMBER`], and the index after it.
fn scan_number(chars: &Vec<char>, start: usize) -> (found: (Option<u64>, usize))
    requires
        start < chars.len(),
        is_digit(chars[start as int]),
    ensures
        found.1 == number_end(chars@, start as int),
        start < found.1 <= chars.len(),
        found.0 == (if number_value(chars@, start as int) <= MAX_NUMBER {
            Some(number_value(chars@, start as int) as u64)
        } else {
            None
        }),
{
    let ghost s = chars@;
    let mut whole: u64 = 0;
    let mut j: usize = start;
    while j < chars.len() && digit(chars[j])
        invariant
            start <= j <= chars.len(),
            s == chars@,
            digits_end(s, start as int) == digits_end(s, j as int),
            whole <= WHOLE_CAP,
            whole == if whole_value(s, start as int, j as int) < WHOLE_CAP {
                whole_value(s, start as int, j as int)
            } else {
                WHOLE_CAP as nat
            },
        decreases chars.len() - j,
    {
        let d = (chars[j] as u32 - '0' as u32) as u64;
        proof {
            lemma_whole_value_grows(s, start as int, j as int);
        }
        if whole < WHOLE_CAP {
            let more = whole * 10 + d;
            whole = if more < WHOLE_CAP {
                more
            } else {
                WHOLE_CAP
            };
        }
        j += 1;
    }
    let point = j;
    let mut fraction: u64 = 0;
    let mut end = point;
    if point < chars.len() && chars[point] == '.' && point + 1 < chars.len() && digit(
        chars[point + 1],
    ) {
        let ghost last = digits_end(s, point + 1);
        proof {
            lemma_digits_end(s, point + 1);
        }
        let mut place: u64 = 100_000;
        let mut k: usize = point + 1;
        while k < chars.len() && digit(chars[k])
            invariant
                point + 1 <= k <= chars.len(),
                s == chars@,
                k <= last,
                digits_end(s, k as int) == last,
                place <= 100_000,
                fraction + place * 10 <= 1_000_000,
                fraction_value(s, point + 1, last, 100_000) == fraction + fraction_value(
                    s,
                    k as int,
                    last,
                    place as nat,
                ),
            decreases chars.len() - k,
        {
            let d = (chars[k] as u32 - '0' as u32) as u64;
            proof {
                lemma_digits_end(s, k + 1);
            }
            if place > 0 {
                assert(d * place <= 9 * place) by (nonlinear_arith)
                    requires
                        d <= 9,
                        place >= 0,
                ;
                fraction = fraction + d * place;
                place = place / 10;
            }
            k += 1;
        }
        end = k;
    }
    if whole < WHOLE_CAP {
        let value = whole * 1_000_000 + fraction;
        if value <= MAX_NUMBER {
            (Some(value), end)
        } else {
            (None, end)
        }
    } else {
        (None, end)
    }
}

/// The index after the word that starts at `start`.
fn scan_word(chars: &Vec<char>, start: usize) -> (end: usize)
    requires
        start < chars.len(),
        is_letter(chars[start as int]),
    ensures
        end == letters_end(chars@, start as int),
        start < end <= chars.len(),
{
    let mut j: usize = start;
    while j < chars.len() && letter(chars[j])
        invariant
            start <= j <= chars.len(),
            letters_end(chars@, start as int) == letters_end(chars@, j as int),
        decreases chars.len() - j,
    {
        j += 1;
    }
    j
}

/// Whether the characters from `from` up to `to` are the keyword, whatever
/// their case.
fn is_keyword(chars: &Vec<char>, from: usize, to: usize, keyword: &str) -> (is: bool)
    requires
        from <= to <= chars.len(),
    ensures
        is == is_word(chars@.subrange(from as int, to as int), keyword@),
{
    let letters = chars_of(keyword);
    if to - from != letters.len() {
        return false;
    }
    let ghost word = chars@.subrange(from as int, to as int);
    let mut i: usize = 0;
    while i < letters.len()
        invariant
            i <= letters.len(),
            from <= to <= chars.len(),
            to - from == letters.len(),
            letters@ == keyword@,
            word == chars@.subrange(from as int, to as int),
            forall|j: int| 0 <= j < i ==> lower(#[trigger] word[j]) == keyword@[j] as u32,
        decreases letters.len() - i,
    {
        let c = chars[from + i];
        let code: u32 = if c >= 'A' && c <= 'Z' {
            c as u32 + 32
        } else {
            c as u32
        };
        assert(word[i as int] == c);
        if code != letters[i] as u32 {
            return false;
        }
        i += 1;
    }
    true
}

/// The token that the word from `from` up to `to` stands for.
fn classify(chars: &Vec<char>, from: usize, to: usize) -> (token: Option<Token>)
    requires
        from < to <= chars.len(),
    ensures
        token == word_token(chars@.subrange(from as int, to as int)),
{
    let ghost word = chars@.subrange(from as int, to as int);
    if is_keyword(chars, from, to, "hold") {
        Some(Token::Hold)
    } else if is_keyword(chars, from, to, "for") {
        Some(Token::For)
    } else if is_keyword(chars, from, to, "to") {
        Some(Token::To)
    } else if is_keyword(chars, from, to, "over") {
        Some(Token::Over)
    } else if is_keyword(chars, from, to, "by") {
        Some(Token::By)
    } else if is_keyword(chars, from, to, "degrees") {
        Some(Token::Degrees)
    } else if is_keyword(chars, from, to, "per") {
        Some(Token::Per)
    } else if is_keyword(chars, from, to, "ambient") {
        Some(Token::Ambient)
    } else if is_keyword(chars, from, to, "hour") || is_keyword(chars, from, to, "hours") {
        Some(Token::Unit(TimeUnit::Hours))
    } else if is_keyword(chars, from, to, "minute") || is_keyword(chars, from, to, "minutes") {
        Some(Token::Unit(TimeUnit::Minutes))
    } else if is_keyword(chars, from, to, "second") || is_keyword(chars, from, to, "seconds") {
        Some(Token::Unit(TimeUnit::Seconds))
    } else if to - from == 1 {
        let c = chars[from];
        assert(word =~= seq![c]);
        assert(seq!['C'][0] == 'C' && seq!['F'][0] == 'F' && seq!['K'][0] == 'K');
        if c == 'C' {
            Some(Token::Scale(TemperatureScale::Celsius))
        } else if c == 'F' {
            Some(Token::Scale(TemperatureScale::Fahrenheit))
        } else if c == 'K' {
            Some(Token::Scale(TemperatureScale::Kelvin))
        } else {
            None
        }
    } else {
        None
    }
}

/// Splits a step's text into its tokens.
pub fn lex(input: &str) -> (found: Option<Vec<Token>>)
    ensures
        match tokens(input@) {
            Some(t) => found matches Some(v) && v@ == t,
            None => found is None,
        },
{
    let chars = chars_of(input);
    let mut out: Vec<Token> = Vec::new();
    let mut i: usize = 0;
    while i < chars.len()
        invariant
            i <= chars.len(),
            chars@ == input@,
            tokens(input@) == lex_from(chars@, i as int, out@),
        decreases chars.len() - i,
    {
        let c = chars[i];
        if space(c) {
            i += 1;
        } else if c == '.' {
            out.push(Token::Dot);
            i += 1;
        } else if digit(c) {
            let (value, next) = scan_number(&chars, i);
            match value {
                Some(number) => {
                    out.push(Token::Number(number));
                    i = next;
                },
                None => {
                    return None;
                },
            }
        } else if letter(c) {
            let next = scan_word(&chars, i);
            match classify(&chars, i, next) {
                Some(token) => {
                    out.push(token);
                    i = next;
                },
                None => {
                    return None;
                },
            }
        } else {
            return None;
        }
    }
    Some(out)
}

} // verus!
