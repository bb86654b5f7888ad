//! Schedule names as file names.
//!
//! A name becomes a file name by joining its words with underscores. The
//! file name is legal where it is not empty, holds none but the characters
//! `-`, `_`, `.`, letters and digits, is no reserved device name, and has at
//! most 256 characters. The two tests on its characters are regular
//! expressions, matched by the `regex` crate.

use crate::schedule::error::ScheduleError;
use crate::schedule::text::{chars_of, string_of};
use vstd::prelude::*;
use vstd::string::StringExecFns;

verus! {

/// The largest number of characters in a file name.
pub const MAX_NAME_LENGTH: usize = 256;

/// The pattern that finds a character no file name may hold.
pub const RESERVED_CHARACTERS: &'static str = "[^-_.A-Za-z0-9]";

/// The pattern that finds a reserved device name at the end of the name or
/// before a point.
pub const RESERVED_NAMES: &'static str = "(aux|clock\\$|con|nul|prn|com[1-9]|lpt[1-9])(?:$|\\.)";

/// `regex::Error`, what compiling a pattern fails with.
#[verifier::external_type_specification]
#[verifier::external_body]
pub struct ExRegexError(regex::Error);

/// Whether the regular expression `pattern` has a match anywhere in
/// `text`, as the `regex` crate finds it; `None` where the crate does not
/// take `pattern` for a regular expression.
pub uninterp spec fn regex_match(pattern: Seq<char>, text: Seq<char>) -> Option<bool>;

/// `regex::Regex::new` followed by `Regex::is_match`: compiles the pattern,
/// which fails for what is no regular expression, and searches the text for
/// a match of it. The answer depends on the pattern and the text alone.
#[verifier::external_body]
fn pattern_found(pattern: &str, text: &str) -> (found: Result<bool, regex::Error>)
    ensures
        found matches Ok(answer) ==> regex_match(pattern@, text@) == Some(answer),
        found is Err ==> regex_match(pattern@, text@) is None,
{
    match regex::Regex::new(pattern) {
        Ok(expression) => Ok(expression.is_match(text)),
        Err(error) => Err(error),
    }
}

/// Whether the pattern has a match in the text, `None` for what is no pattern.
fn search(pattern: &str, text: &str) -> (found: Option<bool>)
    ensures
        found == regex_match(pattern@, text@),
{
    match pattern_found(pattern, text) {
        Ok(answer) => Some(answer),
        Err(_) => None,
    }
}

/// The characters with the Unicode property `White_Space`.
pub open spec fn is_whitespace(c: char) -> bool {
    let code = c as u32;
    ||| 0x09 <= code <= 0x0d
    ||| code == 0x20
    ||| code == 0x85
    ||| code == 0xa0
    ||| code == 0x1680
    ||| 0x2000 <= code <= 0x200a
    ||| code == 0x2028
    ||| code == 0x2029
    ||| code == 0x202f
    ||| code == 0x205f
    ||| code == 0x3000
}

/// The first index at or after `from` that holds no whitespace.
pub open spec fn blanks_end(s: Seq<char>, from: int) -> int
    decreases s.len() - from,
{
    if 0 <= from < s.len() && is_whitespace(s[from]) {
        blanks_end(s, from + 1)
    } else {
        from
    }
}

/// The first index at or after `from` that holds whitespace.
pub open spec fn word_end(s: Seq<char>, from: int) -> int
    decreases s.len() - from,
{
    if 0 <= from < s.len() && !is_whitespace(s[from]) {
        word_end(s, from + 1)
    } else {
        from
    }
}

/// The words of the text from index `from` on: its longest runs without
/// whitespace.
pub open spec fn words_from(s: Seq<char>, from: int) -> Seq<Seq<char>>
    decreases s.len() - from,
{
    let start = blanks_end(s, from);
    let end = word_end(s, start);
    if from <= start < end <= s.len() {
        seq![s.subrange(start, end)] + words_from(s, end)
    } else {
        Seq::empty()
    }
}

/// The parts in one sequence, with `between` between each two.
pub open spec fn joined(parts: Seq<Seq<char>>, between: Seq<char>) -> Seq<char>
    decreases parts.len(),
{
    if parts.len() == 0 {
        Seq::empty()
    } else if parts.len() == 1 {
        parts[0]
    } else {
        joined(parts.drop_last(), between) + between + parts.last()
    }
}

/// The file name that a schedule's name gives: its words, joined by
/// underscores.
pub open spec fn sanitized(name: Seq<char>) -> Seq<char> {
    joined(words_from(name, 0), seq!['_'])
}

/// What is decided of a file name, given what the two patterns found in
/// it: the name itself where it is legal, and else what is wrong with it.
pub open spec fn name_verdict(filename: Seq<char>, illegal: Option<bool>, reserved: Option<bool>)
    -> Result<Seq<char>, Seq<char>> {
    if filename.len() == 0 {
        Err("name is empty"@)
    } else if illegal is None || reserved is None {
        Err("name cannot be checked ["@ + filename + "]"@)
    } else if illegal == Some(true) {
        Err(filename)
    } else if reserved == Some(true) {
        Err("reserved names ["@ + filename + "]"@)
    } else if filename.len() > MAX_NAME_LENGTH {
        Err("name too long ["@ + filename + "]"@)
    } else {
        Ok(filename)
    }
}

/// What is decided of a schedule's name.
pub open spec fn name_result(name: Seq<char>) -> Result<Seq<char>, Seq<char>> {
    name_verdict(
        sanitized(name),
        regex_match(RESERVED_CHARACTERS@, sanitized(name)),
        regex_match(RESERVED_NAMES@, sanitized(name)),
    )
}

fn whitespace(c: char) -> (is: bool)
    ensures
        is == is_whitespace(c),
{
    let code = c as u32;
    (0x09 <= code && code <= 0x0d) || code == 0x20 || code == 0x85 || code == 0xa0 || code
        == 0x1680 || (0x2000 <= code && code <= 0x200a) || code == 0x2028 || code == 0x2029 || code
        == 0x202f || code == 0x205f || code == 0x3000
}

/// Joins the words of a name with underscores.
pub fn sanitize(name: &str) -> (filename: String)
    ensures
        filename@ == sanitized(name@),
{
    let chars = chars_of(name);
    let ghost s = chars@;
    let mut out: Vec<char> = Vec::new();
    let ghost mut done: Seq<Seq<char>> = Seq::empty();
    let mut i: usize = 0;
    loop
        invariant
            i <= chars.len(),
            s == chars@,
            s == name@,
            words_from(s, 0) == done + words_from(s, i as int),
            out@ == joined(done, seq!['_']),
            done.len() == 0 <==> out.len() == 0,
        ensures
            out@ == sanitized(name@),
        decreases chars.len() - i,
    {
        let mut start = i;
        while start < chars.len() && whitespace(chars[start])
            invariant
                i <= start <= chars.len(),
                s == chars@,
                blanks_end(s, i as int) == blanks_end(s, start as int),
            decreases chars.len() - start,
        {
            start += 1;
        }
        if start >= chars.len() {
            break ;
        }
        if out.len() > 0 {
            out.push('_');
        }
        let ghost joined_before = out@;
        let mut end = start;
        while end < chars.len() && !whitespace(chars[end])
            invariant
                start <= end <= chars.len(),
                s == chars@,
                word_end(s, start as int) == word_end(s, end as int),
                out@ == joined_before + s.subrange(start as int, end as int),
            decreases chars.len() - end,
        {
            out.push(chars[end]);
            end += 1;
        }
        proof {
            let word = s.subrange(start as int, end as int);
            assert(done.push(word).drop_last() =~= done);
            done = done.push(word);
        }
        i = end;
    }
    string_of(&out)
}

/// Decides on a file name, given what the two patterns found in it.
pub fn check_filename(filename: String, illegal: Option<bool>, reserved: Option<bool>) -> (checked:
    Result<String, ScheduleError>)
    ensures
        match name_verdict(filename@, illegal, reserved) {
            Ok(name) => checked matches Ok(text) && text@ == name,
            Err(reason) => checked matches Err(ScheduleError::InvalidName(text)) && text@ == reason,
        },
{
    let length = filename.as_str().unicode_len();
    if length == 0 {
        return Err(ScheduleError::InvalidName(String::from_str("name is empty")));
    }
    let (illegal, reserved) = match (illegal, reserved) {
        (Some(illegal), Some(reserved)) => (illegal, reserved),
        _ => {
            return Err(
                ScheduleError::InvalidName(
                    String::from_str("name cannot be checked [").concat(filename.as_str()).concat(
                        "]",
                    ),
                ),
            );
        },
    };
    if illegal {
        Err(ScheduleError::InvalidName(filename))
    } else if reserved {
        Err(
            ScheduleError::InvalidName(
                String::from_str("reserved names [").concat(filename.as_str()).concat("]"),
            ),
        )
    } else if length > MAX_NAME_LENGTH {
        Err(
            ScheduleError::InvalidName(
                String::from_str("name too long [").concat(filename.as_str()).concat("]"),
            ),
        )
    } else {
        Ok(filename)
    }
}

/// Tries to turn a schedule's name into a file name.
pub fn to_filename(name: &String) -> (checked: Result<String, ScheduleError>)
    ensures
        match name_result(name@) {
            Ok(filename) => checked matches Ok(text) && text@ == filename,
            Err(reason) => checked matches Err(ScheduleError::InvalidName(text)) && text@ == reason,
        },
{
    let filename = sanitize(name.as_str());
    let illegal = search(RESERVED_CHARACTERS, filename.as_str());
    let reserved = search(RESERVED_NAMES, filename.as_str());
    check_filename(filename, illegal, reserved)
}

} // verus!
