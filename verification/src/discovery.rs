//! Finding processes by name: what one entry of the process table gives.

use crate::error::ProcessError;
use crate::process::get_name;
use crate::process::name_in;
use crate::text::all_digits;
use crate::text::chars_of;
use crate::text::digit;
use crate::text::parse_unsigned;
use crate::text::trim;
use crate::text::trimmed;
use crate::text::unsigned_of;
use crate::text::within;
use crate::text::Radix;
use vstd::prelude::*;

verus! {

/// A process that a search found.
#[derive(Debug)]
pub struct ProcessListItem {
    pub name: String,
    pub pid: i32,
}

impl Clone for ProcessListItem {
    fn clone(&self) -> (copy: ProcessListItem)
        ensures
            copy == *self,
    {
        ProcessListItem { name: self.name.clone(), pid: self.pid }
    }
}

/// The text that `str::to_lowercase` makes of `s`.
pub uninterp spec fn lowercase(s: Seq<char>) -> Seq<char>;

/// `str::to_lowercase`: the text in lower case, by the Unicode rules that
/// the standard library follows. What it makes of a text depends on the
/// text alone.
#[verifier::external_body]
pub(crate) fn to_lowercase(s: &str) -> (lower: String)
    ensures
        lower@ == lowercase(s@),
{
    s.to_lowercase()
}

/// Whether `needle` stands somewhere in `hay`, character for character.
pub open spec fn has_part(hay: Seq<char>, needle: Seq<char>) -> bool {
    exists|at: int| 0 <= at && at + needle.len() <= hay.len() && #[trigger] hay.subrange(
        at,
        at + needle.len(),
    ) == needle
}

/// Whether `needle` stands in `hay` at index `at`.
fn stands_at(hay: &[char], at: usize, needle: &[char]) -> (found: bool)
    requires
        at + needle@.len() <= hay@.len(),
    ensures
        found == (hay@.subrange(at as int, at + needle@.len()) == needle@),
{
    let ghost part = hay@.subrange(at as int, at + needle@.len());
    let n = hay.len();
    let mut i: usize = 0;
    while i < needle.len()
        invariant
            i <= needle@.len(),
            at + needle@.len() <= hay@.len() == n,
            part == hay@.subrange(at as int, at + needle@.len()),
            part.take(i as int) == needle@.take(i as int),
        decreases needle@.len() - i,
    {
        if hay[at + i] != needle[i] {
            assert(part[i as int] != needle@[i as int]);
            return false;
        }
        assert(part.take(i + 1) =~= part.take(i as int).push(part[i as int]));
        assert(needle@.take(i + 1) =~= needle@.take(i as int).push(needle@[i as int]));
        i += 1;
    }
    assert(part.take(i as int) == part);
    assert(needle@.take(i as int) == needle@);
    true
}

/// Whether `needle` stands somewhere in `hay`.
pub fn contains_part(hay: &[char], needle: &[char]) -> (found: bool)
    ensures
        found == has_part(hay@, needle@),
{
    if needle.len() > hay.len() {
        return false;
    }
    let last = hay.len() - needle.len();
    let mut at: usize = 0;
    loop
        invariant
            at <= last == hay@.len() - needle@.len(),
            forall|k: int| 0 <= k < at ==> #[trigger] hay@.subrange(k, k + needle@.len()) != needle@,
        decreases last - at,
    {
        if stands_at(hay, at, needle) {
            return true;
        }
        if at == last {
            return false;
        }
        at += 1;
    }
}

/// Whether a name answers a query, both already in lower case: the query,
/// without the white space around it, stands somewhere in the name.
pub fn name_answers(lower_name: &str, lower_query: &str) -> (answers: bool)
    ensures
        answers == has_part(lower_name@, trimmed(lower_query@)),
{
    let name = chars_of(lower_name);
    let query = chars_of(lower_query);
    contains_part(name.as_slice(), trim(query.as_slice()))
}

/// Whether the name of a process answers a query, without regard to case.
pub fn matches_query(name: &str, query: &str) -> (answers: bool)
    ensures
        answers == has_part(lowercase(name@), trimmed(lowercase(query@))),
{
    let lower_name = to_lowercase(name);
    let lower_query = to_lowercase(query);
    name_answers(lower_name.as_str(), lower_query.as_str())
}

/// Whether an entry of the process table is named like a process: by
/// decimal digits alone.
pub fn is_process_entry(entry: &str) -> (numbered: bool)
    ensures
        numbered == all_digits(entry@, Radix::Decimal),
{
    let chars = chars_of(entry);
    let mut i: usize = 0;
    while i < chars.len()
        invariant
            i <= chars@.len(),
            chars@ == entry@,
            all_digits(chars@.take(i as int), Radix::Decimal),
        decreases chars@.len() - i,
    {
        if digit(chars[i], Radix::Decimal).is_none() {
            return false;
        }
        assert forall|j: int| 0 <= j < i + 1 implies crate::text::digit_of(
            #[trigger] chars@.take(i + 1)[j],
            Radix::Decimal,
        ).is_some() by {
            if j < i {
                assert(chars@.take(i + 1)[j] == chars@.take(i as int)[j]);
            }
        }
        i += 1;
    }
    assert(chars@.take(i as int) == chars@);
    true
}

/// The process id that the name of an entry spells, if it fits one.
pub open spec fn pid_in(entry: Seq<char>) -> Option<u64> {
    within(unsigned_of(entry, Radix::Decimal), i32::MAX as int)
}

/// What one entry of the process table gives to a search for `query`.
/// `entry` is the name of the entry and `status` the status text of the
/// process, or `None` where it could not be read. An entry that is not
/// named by digits alone is no process and gives nothing, and so does a
/// process whose name does not answer the query. A status that cannot be
/// read or gives no name is `NotFoundError`; a process id that does not fit
/// is `UnknownError`.
pub fn list_item(entry: &str, status: Option<&str>, query: &str) -> (item: Result<
    Option<ProcessListItem>,
    ProcessError,
>)
    ensures
        !all_digits(entry@, Radix::Decimal) ==> item matches Ok(None),
        all_digits(entry@, Radix::Decimal) ==> match item {
            Ok(Some(found)) => {
                &&& status matches Some(text) && name_in(text@) == Some(found.name@)
                &&& has_part(lowercase(found.name@), trimmed(lowercase(query@)))
                &&& pid_in(entry@) == Some(found.pid as u64)
            },
            Ok(None) => status matches Some(text) && name_in(text@) matches Some(name) && !has_part(
                lowercase(name),
                trimmed(lowercase(query@)),
            ),
            Err(e) => if e == ProcessError::NotFoundError {
                status matches Some(text) ==> name_in(text@) is None
            } else {
                &&& e == ProcessError::UnknownError
                &&& pid_in(entry@) is None
                &&& status matches Some(text) && name_in(text@) matches Some(name) && has_part(
                    lowercase(name),
                    trimmed(lowercase(query@)),
                )
            },
        },
{
    if !is_process_entry(entry) {
        return Ok(None);
    }
    let name = match get_name(status) {
        Ok(name) => name,
        Err(e) => {
            return Err(e);
        },
    };
    if !matches_query(name.as_str(), query) {
        return Ok(None);
    }
    let digits = chars_of(entry);
    match parse_unsigned(digits.as_slice(), Radix::Decimal, i32::MAX as u64) {
        Some(pid) => Ok(Some(ProcessListItem { name, pid: pid as i32 })),
        None => Err(ProcessError::UnknownError),
    }
}

} // verus!
