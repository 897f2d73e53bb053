//! Key presses as an input monitor reports them, line by line.

use crate::text::chars_of;
use crate::text::fields_of;
use crate::text::find_first;
use crate::text::first_in;
use crate::text::parse_unsigned;
use crate::text::same_text;
use crate::text::split_fields;
use crate::text::trim;
use crate::text::trimmed;
use crate::text::unsigned_of;
use crate::text::within;
use crate::text::CharClass;
use crate::text::Radix;
use vstd::prelude::*;
use vstd::slice::slice_subrange;

verus! {

/// Why a line of the monitor could not be read.
#[derive(Debug, Clone, Copy, PartialEq, Eq, Structural)]
pub enum ParseError {
    UnknownError,
}

impl ParseError {
    /// The text that describes the error.
    pub open spec fn text(self) -> Seq<char> {
        "Unknown error occured"@
    }

    /// The text that describes the error.
    pub fn to_string(&self) -> (message: String)
        ensures
            message@ == self.text(),
    {
        "Unknown error occured".to_owned()
    }
}

/// The 32-bit number that `s` spells in decimal, if it spells one.
pub open spec fn number_in(s: Seq<char>) -> Option<u64> {
    within(unsigned_of(s, Radix::Decimal), u32::MAX as int)
}

/// What an event line says of a key: its third field is the event's code,
/// where 2 stands for a key that went down and 3 for one that came up. A
/// line with fewer fields, or with anything else as its third, says
/// nothing.
pub open spec fn code_in(line: Seq<char>) -> Option<bool> {
    let fields = fields_of(line);
    if fields.len() < 3 {
        None
    } else if number_in(fields[2]) == Some(2u64) {
        Some(true)
    } else if number_in(fields[2]) == Some(3u64) {
        Some(false)
    } else {
        None
    }
}

/// Reads an event line: whether its key went down.
fn code_of(line: &[char]) -> (pressed: Option<bool>)
    ensures
        pressed == code_in(line@),
{
    let fields = split_fields(line);
    if fields.len() < 3 {
        return None;
    }
    let (from, to) = fields[2];
    let code = parse_unsigned(slice_subrange(line, from, to), Radix::Decimal, u32::MAX as u64);
    match code {
        Some(2) => Some(true),
        Some(3) => Some(false),
        _ => None,
    }
}

/// Reads an event line: `true` where a key went down, `false` where one
/// came up, and `UnknownError` for any other line.
pub fn parse_code(line: &str) -> (pressed: Result<bool, ParseError>)
    ensures
        pressed == (match code_in(line@) {
            Some(down) => Ok::<bool, ParseError>(down),
            None => Err::<bool, ParseError>(ParseError::UnknownError),
        }),
{
    let chars = chars_of(line);
    match code_of(chars.as_slice()) {
        Some(down) => Ok(down),
        None => Err(ParseError::UnknownError),
    }
}

/// What one line of the monitor says.
#[derive(Debug, Clone, Copy, PartialEq, Eq, Structural)]
pub enum KeyLine {
    /// The key of the event that is being reported.
    Detail(u32),
    /// A `detail` line whose value is no key code.
    BadDetail,
    /// The start of an event: a key went down (`true`) or came up.
    Event(bool),
    /// Anything else.
    Other,
}

/// What the line says. A line with a colon is a pair of a name and a value,
/// of which only `detail` counts, whose value is a key code. A line without
/// one is an event line where `code_in` reads it as one.
pub open spec fn key_line(line: Seq<char>) -> KeyLine {
    let colon = first_in(line, 0, CharClass::Is(':'));
    if colon < line.len() {
        if trimmed(line.take(colon)) == "detail"@ {
            match number_in(trimmed(line.skip(colon + 1))) {
                Some(code) => KeyLine::Detail(code as u32),
                None => KeyLine::BadDetail,
            }
        } else {
            KeyLine::Other
        }
    } else {
        match code_in(trimmed(line)) {
            Some(down) => KeyLine::Event(down),
            None => KeyLine::Other,
        }
    }
}

/// Reads one line of the monitor.
pub fn parse_key_line(line: &str) -> (said: KeyLine)
    ensures
        said == key_line(line@),
{
    let chars = chars_of(line);
    let line = chars.as_slice();
    let n = line.len();
    let colon = find_first(line, 0, CharClass::Is(':'));
    if colon < n {
        let key = trim(slice_subrange(line, 0, colon));
        if same_text(key, "detail") {
            let value = trim(slice_subrange(line, colon + 1, n));
            match parse_unsigned(value, Radix::Decimal, u32::MAX as u64) {
                Some(code) => KeyLine::Detail(code as u32),
                None => KeyLine::BadDetail,
            }
        } else {
            KeyLine::Other
        }
    } else {
        match code_of(trim(line)) {
            Some(down) => KeyLine::Event(down),
            None => KeyLine::Other,
        }
    }
}

/// The watch on one key: which key, and whether the event that is being
/// reported is a press.
#[derive(Debug, Clone, Copy, PartialEq, Eq, Structural)]
pub struct KeyWatch {
    pub key_code: u32,
    pub is_pressed: bool,
}

impl KeyWatch {
    /// A watch on `key_code`, before any event.
    pub fn new(key_code: u32) -> (watch: KeyWatch)
        ensures
            watch == (KeyWatch { key_code, is_pressed: false }),
    {
        KeyWatch { key_code, is_pressed: false }
    }

    /// The watch after a line, and what is to be reported for it.
    pub open spec fn after(self, said: KeyLine) -> (KeyWatch, Result<Option<bool>, ParseError>) {
        match said {
            KeyLine::Detail(code) => (
                self,
                Ok(
                    if code == self.key_code {
                        Some(self.is_pressed)
                    } else {
                        None
                    },
                ),
            ),
            KeyLine::BadDetail => (self, Err(ParseError::UnknownError)),
            KeyLine::Event(down) => (KeyWatch { key_code: self.key_code, is_pressed: down }, Ok(None)),
            KeyLine::Other => (self, Ok(None)),
        }
    }

    /// Takes one line of the monitor. An event line sets whether the event
    /// is a press. A `detail` line that names the watched key reports it:
    /// `Some(true)` for a press, `Some(false)` for a release. A `detail`
    /// line without a key code is `UnknownError`. Every other line passes.
    pub fn on_line(&mut self, line: &str) -> (report: Result<Option<bool>, ParseError>)
        ensures
            (*final(self), report) == old(self).after(key_line(line@)),
    {
        match parse_key_line(line) {
            KeyLine::Detail(code) => {
                if code == self.key_code {
                    Ok(Some(self.is_pressed))
                } else {
                    Ok(None)
                }
            },
            KeyLine::BadDetail => Err(ParseError::UnknownError),
            KeyLine::Event(down) => {
                self.is_pressed = down;
                Ok(None)
            },
            KeyLine::Other => Ok(None),
        }
    }
}

} // verus!
