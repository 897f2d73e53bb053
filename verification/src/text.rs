//! Text as a sequence of characters: white space, lines, fields and unsigned
//! numbers, as the parsers of this crate read them.

use vstd::prelude::*;
use vstd::slice::slice_subrange;

verus! {

/// Whether `c` is white space: the characters that Unicode classes as
/// `White_Space`.
pub open spec fn is_space(c: char) -> bool {
    let u = c as u32;
    ||| 0x09 <= u <= 0x0D
    ||| u == 0x20
    ||| u == 0x85
    ||| u == 0xA0
    ||| u == 0x1680
    ||| 0x2000 <= u <= 0x200A
    ||| u == 0x2028
    ||| u == 0x2029
    ||| u == 0x202F
    ||| u == 0x205F
    ||| u == 0x3000
}

/// Whether `c` is white space.
pub fn is_space_char(c: char) -> (b: bool)
    ensures
        b == is_space(c),
{
    let u: u32 = c as u32;
    (0x09 <= u && u <= 0x0D) || u == 0x20 || u == 0x85 || u == 0xA0 || u == 0x1680 || (0x2000 <= u
        && u <= 0x200A) || u == 0x2028 || u == 0x2029 || u == 0x202F || u == 0x205F || u == 0x3000
}

/// The characters of `s`, in order.
pub fn chars_of(s: &str) -> (chars: Vec<char>)
    ensures
        chars@ == s@,
{
    broadcast use vstd::string::group_string_axioms;

    let mut chars: Vec<char> = Vec::new();
    for c in it: s.chars()
        invariant
            it.seq() == s@,
            chars@ == it.seq().take(it.index()),
    {
        chars.push(c);
    }
    chars
}

/// A set of characters that a search looks for.
#[derive(Debug, Clone, Copy, PartialEq, Eq, Structural)]
pub enum CharClass {
    /// White space.
    Space,
    /// Anything but white space.
    Solid,
    /// One given character.
    Is(char),
}

impl CharClass {
    /// Whether `c` belongs to the class.
    pub open spec fn holds(self, c: char) -> bool {
        match self {
            CharClass::Space => is_space(c),
            CharClass::Solid => !is_space(c),
            CharClass::Is(d) => c == d,
        }
    }

    /// Whether `c` belongs to the class.
    pub fn test(self, c: char) -> (b: bool)
        ensures
            b == self.holds(c),
    {
        match self {
            CharClass::Space => is_space_char(c),
            CharClass::Solid => !is_space_char(c),
            CharClass::Is(d) => c == d,
        }
    }
}

/// The least index at or after `from` whose character belongs to `class`;
/// the length of `s` where there is none.
pub open spec fn first_in(s: Seq<char>, from: int, class: CharClass) -> int
    decreases s.len() - from,
{
    if from < 0 || from >= s.len() {
        s.len() as int
    } else if class.holds(s[from]) {
        from
    } else {
        first_in(s, from + 1, class)
    }
}

/// `first_in` is the least such index: nothing before it belongs to the
/// class, and the character at it does, unless it is the length.
pub proof fn lemma_first_in(s: Seq<char>, from: int, class: CharClass)
    requires
        0 <= from <= s.len(),
    ensures
        from <= first_in(s, from, class) <= s.len(),
        forall|k: int| from <= k < first_in(s, from, class) ==> !class.holds(#[trigger] s[k]),
        first_in(s, from, class) < s.len() ==> class.holds(s[first_in(s, from, class)]),
    decreases s.len() - from,
{
    if from < s.len() && !class.holds(s[from]) {
        lemma_first_in(s, from + 1, class);
    }
}

/// The least index at or after `from` whose character belongs to `class`;
/// the length of `s` where there is none.
pub fn find_first(s: &[char], from: usize, class: CharClass) -> (at: usize)
    ensures
        at == first_in(s@, from as int, class),
        at <= s@.len(),
        from <= s@.len() ==> from <= at,
{
    let n = s.len();
    if from >= n {
        return n;
    }
    let mut at: usize = from;
    while at < n && !class.test(s[at])
        invariant
            from <= at <= n == s@.len(),
            first_in(s@, from as int, class) == first_in(s@, at as int, class),
        decreases n - at,
    {
        at += 1;
    }
    at
}

/// The index after the last character that belongs to `class`; 0 where
/// there is none.
pub open spec fn after_last(s: Seq<char>, class: CharClass) -> int
    decreases s.len(),
{
    if s.len() == 0 {
        0
    } else if class.holds(s.last()) {
        s.len() as int
    } else {
        after_last(s.drop_last(), class)
    }
}

/// `after_last` is the greatest such index: nothing at or after it belongs
/// to the class, and the character before it does, unless it is 0.
pub proof fn lemma_after_last(s: Seq<char>, class: CharClass)
    ensures
        0 <= after_last(s, class) <= s.len(),
        forall|k: int| after_last(s, class) <= k < s.len() ==> !class.holds(#[trigger] s[k]),
        after_last(s, class) > 0 ==> class.holds(s[after_last(s, class) - 1]),
    decreases s.len(),
{
    if s.len() > 0 && !class.holds(s.last()) {
        let front = s.drop_last();
        lemma_after_last(front, class);
        assert forall|k: int| after_last(s, class) <= k < s.len() implies !class.holds(
            #[trigger] s[k],
        ) by {
            if k < front.len() {
                assert(front[k] == s[k]);
            }
        }
    }
}

/// The index after the last character that belongs to `class`; 0 where
/// there is none.
pub fn find_after_last(s: &[char], class: CharClass) -> (at: usize)
    ensures
        at == after_last(s@, class),
        at <= s@.len(),
{
    let mut at: usize = s.len();
    assert(s@.take(at as int) == s@);
    while at > 0 && !class.test(s[at - 1])
        invariant
            at <= s@.len(),
            after_last(s@, class) == after_last(s@.take(at as int), class),
        decreases at,
    {
        assert(s@.take(at as int).drop_last() == s@.take(at - 1));
        at -= 1;
    }
    proof {
        if at > 0 {
            assert(s@.take(at as int).last() == s@[at - 1]);
        }
    }
    at
}

/// Where the text of a line ends whose newline stands at `newline`: a
/// carriage return directly before the newline belongs to the line ending.
pub open spec fn line_end(s: Seq<char>, from: int, newline: int) -> int {
    if newline > from && s[newline - 1] == '\r' {
        newline - 1
    } else {
        newline
    }
}

/// The lines of `s` from index `from` on, which is where a line starts.
pub open spec fn lines_from(s: Seq<char>, from: int) -> Seq<Seq<char>>
    decreases s.len() - from,
    via lines_from_decreases
{
    if from < 0 || from >= s.len() {
        Seq::empty()
    } else {
        let newline = first_in(s, from, CharClass::Is('\n'));
        if newline >= s.len() {
            seq![s.subrange(from, s.len() as int)]
        } else {
            seq![s.subrange(from, line_end(s, from, newline))] + lines_from(s, newline + 1)
        }
    }
}

#[via_fn]
proof fn lines_from_decreases(s: Seq<char>, from: int) {
    if 0 <= from < s.len() {
        lemma_first_in(s, from, CharClass::Is('\n'));
    }
}

/// The lines of `s`. A line ends at a newline or at a carriage return
/// followed by a newline, neither of which belongs to it, or at the end of
/// `s`; after the last line ending no empty line follows.
pub open spec fn lines_of(s: Seq<char>) -> Seq<Seq<char>> {
    lines_from(s, 0)
}

/// The fields of `s` from index `from` on.
pub open spec fn fields_from(s: Seq<char>, from: int) -> Seq<Seq<char>>
    decreases s.len() - from,
    via fields_from_decreases
{
    let start = first_in(s, from, CharClass::Solid);
    if from < 0 || start >= s.len() {
        Seq::empty()
    } else {
        let end = first_in(s, start, CharClass::Space);
        seq![s.subrange(start, end)] + fields_from(s, end)
    }
}

#[via_fn]
proof fn fields_from_decreases(s: Seq<char>, from: int) {
    if 0 <= from <= s.len() {
        lemma_first_in(s, from, CharClass::Solid);
        let start = first_in(s, from, CharClass::Solid);
        if start < s.len() {
            lemma_first_in(s, start, CharClass::Space);
        }
    }
}

/// The fields of `s`: its longest runs of characters that are not white
/// space, in order.
pub open spec fn fields_of(s: Seq<char>) -> Seq<Seq<char>> {
    fields_from(s, 0)
}

/// Whether the index pairs in `spans` cut exactly `parts` out of `s`.
pub open spec fn cuts(s: Seq<char>, spans: Seq<(usize, usize)>, parts: Seq<Seq<char>>) -> bool {
    &&& spans.len() == parts.len()
    &&& forall|i: int|
        0 <= i < spans.len() ==> {
            &&& (#[trigger] spans[i]).0 <= spans[i].1 <= s.len()
            &&& s.subrange(spans[i].0 as int, spans[i].1 as int) == parts[i]
        }
}

/// Where the lines of `s` start and end.
pub fn split_lines(s: &[char]) -> (spans: Vec<(usize, usize)>)
    ensures
        cuts(s@, spans@, lines_of(s@)),
{
    let n = s.len();
    let mut spans: Vec<(usize, usize)> = Vec::new();
    let mut from: usize = 0;
    while from < n
        invariant
            from <= n == s@.len(),
            spans@.len() <= lines_of(s@).len(),
            cuts(s@, spans@, lines_of(s@).take(spans@.len() as int)),
            lines_of(s@).skip(spans@.len() as int) == lines_from(s@, from as int),
        decreases n - from,
    {
        let ghost rest = lines_from(s@, from as int);
        let ghost done = spans@.len() as int;
        let newline = find_first(s, from, CharClass::Is('\n'));
        let end = if newline < n && newline > from && s[newline - 1] == '\r' {
            newline - 1
        } else {
            newline
        };
        let next = if newline < n {
            newline + 1
        } else {
            n
        };
        proof {
            assert(rest.len() > 0);
            assert(rest[0] == s@.subrange(from as int, end as int));
            assert(rest.skip(1) =~= lines_from(s@, next as int));
            assert(lines_of(s@)[done] == rest[0]);
            assert(lines_of(s@).skip(done + 1) =~= rest.skip(1));
        }
        spans.push((from, end));
        from = next;
    }
    proof {
        assert(lines_from(s@, from as int).len() == 0);
        assert(lines_of(s@).take(spans@.len() as int) =~= lines_of(s@));
    }
    spans
}

/// Where the fields of `s` start and end.
pub fn split_fields(s: &[char]) -> (spans: Vec<(usize, usize)>)
    ensures
        cuts(s@, spans@, fields_of(s@)),
{
    let n = s.len();
    let mut spans: Vec<(usize, usize)> = Vec::new();
    let mut from: usize = 0;
    loop
        invariant
            from <= n == s@.len(),
            spans@.len() <= fields_of(s@).len(),
            cuts(s@, spans@, fields_of(s@).take(spans@.len() as int)),
            fields_of(s@).skip(spans@.len() as int) == fields_from(s@, from as int),
        ensures
            cuts(s@, spans@, fields_of(s@)),
        decreases n - from,
    {
        let ghost rest = fields_from(s@, from as int);
        let ghost done = spans@.len() as int;
        let start = find_first(s, from, CharClass::Solid);
        if start >= n {
            proof {
                assert(rest.len() == 0);
                assert(fields_of(s@).take(done) =~= fields_of(s@));
            }
            break;
        }
        let end = find_first(s, start, CharClass::Space);
        proof {
            lemma_first_in(s@, start as int, CharClass::Space);
            assert(rest[0] == s@.subrange(start as int, end as int));
            assert(rest.skip(1) =~= fields_from(s@, end as int));
            assert(fields_of(s@)[done] == rest[0]);
            assert(fields_of(s@).skip(done + 1) =~= rest.skip(1));
        }
        spans.push((start, end));
        from = end;
    }
    spans
}

/// `s` without the white space at its start and at its end.
pub open spec fn trimmed(s: Seq<char>) -> Seq<char> {
    let from = first_in(s, 0, CharClass::Solid);
    if from >= s.len() {
        Seq::empty()
    } else {
        s.subrange(from, after_last(s, CharClass::Solid))
    }
}

/// `s` without the white space at its start and at its end.
pub fn trim(s: &[char]) -> (inner: &[char])
    ensures
        inner@ == trimmed(s@),
{
    let from = find_first(s, 0, CharClass::Solid);
    if from >= s.len() {
        return slice_subrange(s, 0, 0);
    }
    let to = find_after_last(s, CharClass::Solid);
    proof {
        lemma_first_in(s@, 0, CharClass::Solid);
        lemma_after_last(s@, CharClass::Solid);
    }
    slice_subrange(s, from, to)
}

/// Whether `s` spells `text`.
pub fn same_text(s: &[char], text: &str) -> (b: bool)
    ensures
        b == (s@ == text@),
{
    let other = chars_of(text);
    if s.len() != other.len() {
        return false;
    }
    let mut i: usize = 0;
    while i < s.len()
        invariant
            i <= s@.len() == other@.len(),
            other@ == text@,
            s@.take(i as int) == other@.take(i as int),
        decreases s@.len() - i,
    {
        if s[i] != other[i] {
            return false;
        }
        assert(s@.take(i + 1) =~= s@.take(i as int).push(s@[i as int]));
        assert(other@.take(i + 1) =~= other@.take(i as int).push(other@[i as int]));
        i += 1;
    }
    assert(s@.take(i as int) == s@);
    assert(other@.take(i as int) == other@);
    true
}

/// The base in which a number is written.
#[derive(Debug, Clone, Copy, PartialEq, Eq, Structural)]
pub enum Radix {
    Decimal,
    Hex,
}

impl Radix {
    /// The number of digits of the base.
    pub open spec fn base(self) -> int {
        match self {
            Radix::Decimal => 10,
            Radix::Hex => 16,
        }
    }
}

/// The value of `c` as a digit of the base, if it is one: `0` to `9`, and
/// in base 16 also `a` to `f` in either case.
pub open spec fn digit_of(c: char, radix: Radix) -> Option<int> {
    let u = c as u32 as int;
    if 0x30 <= u <= 0x39 {
        Some(u - 0x30)
    } else if radix == Radix::Hex && 0x61 <= u <= 0x66 {
        Some(u - 0x61 + 10)
    } else if radix == Radix::Hex && 0x41 <= u <= 0x46 {
        Some(u - 0x41 + 10)
    } else {
        None
    }
}

/// Whether every character of `s` is a digit of the base.
pub open spec fn all_digits(s: Seq<char>, radix: Radix) -> bool {
    forall|i: int| 0 <= i < s.len() ==> digit_of(#[trigger] s[i], radix).is_some()
}

/// The number that the digits `s` spell, most significant digit first.
pub open spec fn digits_value(s: Seq<char>, radix: Radix) -> int
    decreases s.len(),
{
    if s.len() == 0 {
        0
    } else {
        digits_value(s.drop_last(), radix) * radix.base() + match digit_of(s.last(), radix) {
            Some(d) => d,
            None => 0,
        }
    }
}

/// The unsigned number that `s` spells: one `+` may stand before the
/// digits, and there is at least one digit. `None` for any other text.
pub open spec fn unsigned_of(s: Seq<char>, radix: Radix) -> Option<int> {
    let digits = if s.len() > 0 && s[0] == '+' {
        s.skip(1)
    } else {
        s
    };
    if digits.len() > 0 && all_digits(digits, radix) {
        Some(digits_value(digits, radix))
    } else {
        None
    }
}

/// The number `value` where there is one and it is at most `limit`.
pub open spec fn within(value: Option<int>, limit: int) -> Option<u64> {
    match value {
        Some(v) => if 0 <= v <= limit && v <= u64::MAX {
            Some(v as u64)
        } else {
            None
        },
        None => None,
    }
}

/// A digit string is worth at least as much as each of its beginnings.
pub proof fn lemma_digits_value_grows(s: Seq<char>, radix: Radix, k: int)
    requires
        0 <= k <= s.len(),
    ensures
        0 <= digits_value(s.take(k), radix) <= digits_value(s, radix),
    decreases s.len(),
{
    if k == s.len() {
        assert(s.take(k) == s);
        if s.len() > 0 {
            lemma_digits_value_grows(s.drop_last(), radix, k - 1);
            assert(s.drop_last().take(k - 1) == s.drop_last());
        }
    } else {
        let front = s.drop_last();
        lemma_digits_value_grows(front, radix, k);
        assert(front.take(k) == s.take(k));
        let v = digits_value(front, radix);
        let b = radix.base();
        assert(v * b >= v) by (nonlinear_arith)
            requires
                v >= 0,
                b >= 1,
        ;
    }
}

/// The value of `c` as a digit of the base, if it is one.
pub fn digit(c: char, radix: Radix) -> (d: Option<u64>)
    ensures
        d matches Some(v) ==> digit_of(c, radix) == Some(v as int) && v < radix.base(),
        d is None ==> digit_of(c, radix) is None,
{
    let u: u32 = c as u32;
    if 0x30 <= u && u <= 0x39 {
        Some((u - 0x30) as u64)
    } else if radix == Radix::Hex && 0x61 <= u && u <= 0x66 {
        Some((u - 0x61 + 10) as u64)
    } else if radix == Radix::Hex && 0x41 <= u && u <= 0x46 {
        Some((u - 0x41 + 10) as u64)
    } else {
        None
    }
}

/// Reads `s` as an unsigned number in the given base: `Some` where `s`
/// spells a number that is at most `limit`.
pub fn parse_unsigned(s: &[char], radix: Radix, limit: u64) -> (value: Option<u64>)
    ensures
        value == within(unsigned_of(s@, radix), limit as int),
{
    let n = s.len();
    let start: usize = if n > 0 && s[0] == '+' {
        1
    } else {
        0
    };
    if start >= n {
        return None;
    }
    let ghost digits = s@.skip(start as int);
    let base: u64 = match radix {
        Radix::Decimal => 10,
        Radix::Hex => 16,
    };
    let mut total: u64 = 0;
    let mut i: usize = start;
    assert(s@.skip(0) == s@);
    while i < n
        invariant
            start <= i <= n == s@.len(),
            digits == s@.skip(start as int),
            unsigned_of(s@, radix) == (if all_digits(digits, radix) {
                Some(digits_value(digits, radix))
            } else {
                None
            }),
            base == radix.base(),
            all_digits(digits.take(i - start), radix),
            total == digits_value(digits.take(i - start), radix),
            total <= limit,
        decreases n - i,
    {
        let ghost seen = digits.take(i - start);
        let ghost more = digits.take(i - start + 1);
        proof {
            assert(more.drop_last() == seen);
            assert(more.last() == s@[i as int]);
            assert(digits[i - start] == s@[i as int]);
        }
        let d = match digit(s[i], radix) {
            Some(d) => d,
            None => {
                assert(digit_of(digits[i - start], radix) is None);
                return None;
            },
        };
        let next = match total.checked_mul(base) {
            Some(scaled) => scaled.checked_add(d),
            None => None,
        };
        proof {
            assert(digits_value(more, radix) == total * base + d);
            assert forall|j: int| 0 <= j < more.len() implies digit_of(
                #[trigger] more[j],
                radix,
            ).is_some() by {
                if j < seen.len() {
                    assert(more[j] == seen[j]);
                }
            }
            if all_digits(digits, radix) {
                lemma_digits_value_grows(digits, radix, i - start + 1);
            }
        }
        match next {
            Some(v) => {
                if v > limit {
                    return None;
                }
                total = v;
            },
            None => {
                return None;
            },
        }
        i += 1;
    }
    assert(digits.take(i - start) == digits);
    Some(total)
}

} // verus!
