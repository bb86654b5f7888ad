//! The grammar of the step language over its tokens.
//!
//! ```text
//! step     := (hold | duration | rate) "."?
//! hold     := "hold" "for" number time_unit
//! duration := temp "to" temp "over" number time_unit
//! rate     := temp "to" temp "by" number "degrees"? "per"? time_unit
//! temp     := ("ambient" | number) scale?
//! ```

use crate::schedule::error::ScheduleError;
use crate::schedule::lexer::{lex, tokens, Token};
use crate::schedule::normalized::NormalizedStep;
use crate::schedule::step::{too_long, Step, StepType};
use crate::schedule::units::{Duration, Rate};
use vstd::prelude::*;
use vstd::string::StringExecFns;

verus! {

/// The temperature that `ambient` stands for: 25 degrees.
pub const AMBIENT: i64 = 25_000_000;

/// The number that a temperature is written with at token `i`: a
/// number, or 25 for `ambient`.
pub open spec fn written_at(t: Seq<Token>, i: int) -> Option<i64> {
    if 0 <= i < t.len() {
        match t[i] {
            Token::Number(value) => if value <= i64::MAX {
                Some(value as i64)
            } else {
                None
            },
            Token::Ambient => Some(AMBIENT),
            _ => None,
        }
    } else {
        None
    }
}

/// The temperature written from token `i` on, in millionths of a degree
/// Celsius, and the index after it. The number counts in the scale that
/// follows it, and in Celsius where none does.
pub open spec fn temp_at(t: Seq<Token>, i: int) -> Option<(i64, int)> {
    match written_at(t, i) {
        Some(value) => if i + 1 < t.len() && t[i + 1] is Scale {
            Some((t[i + 1]->Scale_0.as_celsius(value as int) as i64, i + 2))
        } else {
            Some((value, i + 1))
        },
        None => None,
    }
}

/// The number and the unit of time at tokens `i` and `i + 1`.
pub open spec fn amount_at(t: Seq<Token>, i: int) -> Option<Duration> {
    if 0 <= i && i + 1 < t.len() && t[i] is Number && t[i + 1] is Unit {
        Some(Duration { value: t[i]->Number_0, unit: t[i + 1]->Unit_0 })
    } else {
        None
    }
}

/// The tokens without the point that may close a step.
pub open spec fn body(t: Seq<Token>) -> Seq<Token> {
    if t.len() > 0 && t.last() == Token::Dot {
        t.drop_last()
    } else {
        t
    }
}

/// The index after the words `degrees` and `per`, each of which may stand
/// at `i` in that order or be left out.
pub open spec fn after_fillers(t: Seq<Token>, i: int) -> int {
    let j = if 0 <= i < t.len() && t[i] == Token::Degrees {
        i + 1
    } else {
        i
    };
    if 0 <= j < t.len() && t[j] == Token::Per {
        j + 1
    } else {
        j
    }
}

/// The hold that the tokens write, if they write one.
pub open spec fn hold_of(b: Seq<Token>) -> Option<Step> {
    if b.len() == 4 && b[0] == Token::Hold && b[1] == Token::For {
        match amount_at(b, 2) {
            Some(length) => Some(Step::Hold { length }),
            None => None,
        }
    } else {
        None
    }
}

/// The change of temperature that the tokens write after the two
/// temperatures `start` and `end`, from token `j` on.
pub open spec fn change_of(b: Seq<Token>, start: i64, end: i64, j: int) -> Option<Step> {
    if 0 <= j < b.len() && b[j] == Token::Over {
        match amount_at(b, j + 1) {
            Some(length) => if j + 3 == b.len() {
                Some(Step::Duration { start_temperature: start, end_temperature: end, length })
            } else {
                None
            },
            None => None,
        }
    } else if 0 <= j && j + 1 < b.len() && b[j] == Token::By && b[j + 1] is Number {
        let unit = after_fillers(b, j + 2);
        if unit + 1 == b.len() && b[unit] is Unit {
            Some(
                Step::Rate {
                    start_temperature: start,
                    end_temperature: end,
                    rate: Rate { value: b[j + 1]->Number_0, unit: b[unit]->Unit_0 },
                },
            )
        } else {
            None
        }
    } else {
        None
    }
}

/// The step that the tokens write, if they write one.
pub open spec fn step_of(t: Seq<Token>) -> Option<Step> {
    let b = body(t);
    if b.len() > 0 && b[0] == Token::Hold {
        hold_of(b)
    } else {
        match temp_at(b, 0) {
            Some((start, i)) => if i < b.len() && b[i] == Token::To {
                match temp_at(b, i + 1) {
                    Some((end, j)) => change_of(b, start, end, j),
                    None => None,
                }
            } else {
                None
            },
            None => None,
        }
    }
}

/// The step that a text writes, if it writes one.
pub open spec fn parsed(input: Seq<char>) -> Option<Step> {
    match tokens(input) {
        Some(t) => step_of(t),
        None => None,
    }
}

/// What is said of a text that writes no step.
pub open spec fn unrecognized(input: Seq<char>) -> Seq<char> {
    "unrecognized step provided: "@ + input
}

/// What parsing a text after the step `previous` gives: the segment, or
/// what is wrong with the text.
pub open spec fn step_result(input: Seq<char>, previous: Option<NormalizedStep>) -> Result<
    NormalizedStep,
    Seq<char>,
> {
    match parsed(input) {
        Some(step) => match step.normalized(previous) {
            Some(segment) => Ok(segment),
            None => Err(too_long()),
        },
        None => Err(unrecognized(input)),
    }
}

/// Reads the temperature written from token `i` on.
pub fn temp_from_parsed(tokens: &Vec<Token>, i: usize) -> (found: Option<(i64, usize)>)
    ensures
        match temp_at(tokens@, i as int) {
            Some((value, next)) => found == Some((value, next as usize)) && i < next <= tokens.len(),
            None => found is None,
        },
{
    if i >= tokens.len() {
        return None;
    }
    let written: i64 = match tokens[i] {
        Token::Number(value) => {
            if value > i64::MAX as u64 {
                return None;
            }
            value as i64
        },
        Token::Ambient => AMBIENT,
        _ => {
            return None;
        },
    };
    if i + 1 < tokens.len() {
        match tokens[i + 1] {
            Token::Scale(scale) => {
                return Some((scale.to_celsius(written), i + 2));
            },
            _ => {},
        }
    }
    Some((written, i + 1))
}

/// Reads the number and the unit of time at tokens `i` and `i + 1`.
fn amount_from_parsed(tokens: &Vec<Token>, i: usize) -> (found: Option<Duration>)
    ensures
        found == amount_at(tokens@, i as int),
{
    if i >= tokens.len() || i + 1 >= tokens.len() {
        return None;
    }
    match (tokens[i], tokens[i + 1]) {
        (Token::Number(value), Token::Unit(unit)) => Some(Duration { value, unit }),
        _ => None,
    }
}

/// The tokens without the point that may close a step.
fn body_of(tokens: &Vec<Token>) -> (b: Vec<Token>)
    ensures
        b@ == body(tokens@),
{
    let len = tokens.len();
    let n = if len > 0 && tokens[len - 1] == Token::Dot {
        len - 1
    } else {
        len
    };
    let mut b: Vec<Token> = Vec::new();
    let mut i: usize = 0;
    while i < n
        invariant
            i <= n <= tokens.len(),
            b@ == tokens@.take(i as int),
        decreases n - i,
    {
        b.push(tokens[i]);
        i += 1;
    }
    b
}

/// Reads the hold that the tokens write.
fn hold_from_tokens(b: &Vec<Token>) -> (found: Option<Step>)
    ensures
        found == hold_of(b@),
{
    if b.len() == 4 && b[0] == Token::Hold && b[1] == Token::For {
        match amount_from_parsed(b, 2) {
            Some(length) => Some(Step::Hold { length }),
            None => None,
        }
    } else {
        None
    }
}

/// The index after the words `degrees` and `per` at `i`.
fn skip_fillers(b: &Vec<Token>, i: usize) -> (next: usize)
    requires
        i <= b.len(),
    ensures
        next == after_fillers(b@, i as int),
        i <= next <= b.len(),
{
    let mut j = i;
    if j < b.len() && b[j] == Token::Degrees {
        j += 1;
    }
    if j < b.len() && b[j] == Token::Per {
        j += 1;
    }
    j
}

/// Reads the change of temperature that the tokens write from token `j`
/// on, after the two temperatures.
fn change_from_tokens(b: &Vec<Token>, start: i64, end: i64, j: usize) -> (found: Option<Step>)
    ensures
        found == change_of(b@, start, end, j as int),
{
    let n = b.len();
    if j >= n {
        return None;
    }
    if b[j] == Token::Over {
        match amount_from_parsed(b, j + 1) {
            Some(length) => if n - j == 3 {
                Some(Step::Duration { start_temperature: start, end_temperature: end, length })
            } else {
                None
            },
            None => None,
        }
    } else if b[j] == Token::By && n - j > 1 {
        match b[j + 1] {
            Token::Number(value) => {
                let unit = skip_fillers(b, j + 2);
                if unit < n && n - unit == 1 {
                    match b[unit] {
                        Token::Unit(time) => Some(
                            Step::Rate {
                                start_temperature: start,
                                end_temperature: end,
                                rate: Rate { value, unit: time },
                            },
                        ),
                        _ => None,
                    }
                } else {
                    None
                }
            },
            _ => None,
        }
    } else {
        None
    }
}

/// Reads the step that the tokens write.
pub fn parse_tokens(tokens: &Vec<Token>) -> (found: Option<Step>)
    ensures
        found == step_of(tokens@),
{
    let b = body_of(tokens);
    if b.len() > 0 && b[0] == Token::Hold {
        return hold_from_tokens(&b);
    }
    match temp_from_parsed(&b, 0) {
        Some((start, i)) => {
            if i < b.len() && b[i] == Token::To {
                match temp_from_parsed(&b, i + 1) {
                    Some((end, j)) => change_from_tokens(&b, start, end, j),
                    None => None,
                }
            } else {
                None
            }
        },
        None => None,
    }
}

/// The shape of the step that a text writes, `Unknown` where it writes none.
pub fn step_type(input: &str) -> (kind: StepType)
    ensures
        kind == (match parsed(input@) {
            Some(step) => step.kind(),
            None => StepType::Unknown,
        }),
{
    match lex(input) {
        Some(tokens) => match parse_tokens(&tokens) {
            Some(step) => step.kind(),
            None => StepType::Unknown,
        },
        None => StepType::Unknown,
    }
}

/// Parses one step that follows the step `previous`, or opens the
/// schedule where there is none.
pub fn parse_step(input: &str, previous: Option<NormalizedStep>) -> (segment: Result<
    NormalizedStep,
    ScheduleError,
>)
    ensures
        match step_result(input@, previous) {
            Ok(step) => segment == Ok::<NormalizedStep, ScheduleError>(step),
            Err(reason) => segment matches Err(ScheduleError::InvalidStep { description })
                && description@ == reason,
        },
{
    let step = match lex(input) {
        Some(tokens) => parse_tokens(&tokens),
        None => None,
    };
    match step {
        Some(step) => step.normalize(previous),
        None => Err(
            ScheduleError::InvalidStep {
                description: String::from_str("unrecognized step provided: ").concat(input),
            },
        ),
    }
}

} // verus!
