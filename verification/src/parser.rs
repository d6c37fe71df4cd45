//! Trace lines and the entries they denote.
//!
//! A trace line is `<start> <len>` (a range of keys), `<start>` alone (one
//! key) or `*` (a line to skip). The tokens of a line are its maximal runs
//! of bytes that are not white space; only the first two are read.

use crate::decimal::{
    all_digits, decimal_chars, decimal_digits, is_digit, lemma_decimal_digits,
    lemma_parse_decimal_digits, parse_unsigned, parse_unsigned_spec, push_decimal,
};
use std::ops::Range;
use vstd::prelude::*;
use vstd::utf8::{encode_utf8, is_ascii_chars_encode_utf8};

verus! {

/// Why a trace line was rejected.
#[derive(Clone, Copy, Debug, PartialEq, Eq, Structural)]
pub enum ParseError {
    /// The first token is not an unsigned number that fits `usize`.
    InvalidStart,
    /// The second token is not an unsigned number that fits `usize`.
    InvalidLength,
    /// `start + len` does not fit `usize`.
    RangeOverflow,
}

impl ParseError {
    /// A sentence that names the fault.
    pub fn message(&self) -> (text: &'static str)
        ensures
            text@ == match *self {
                ParseError::InvalidStart => "the first token is not an unsigned integer"@,
                ParseError::InvalidLength => "the second token is not an unsigned integer"@,
                ParseError::RangeOverflow => "the range does not end within the key space"@,
            },
    {
        match self {
            ParseError::InvalidStart => "the first token is not an unsigned integer",
            ParseError::InvalidLength => "the second token is not an unsigned integer",
            ParseError::RangeOverflow => "the range does not end within the key space",
        }
    }
}

/// What a trace entry is: the keys `start..end` and the position of its line.
pub struct EntryView {
    pub start: usize,
    pub end: usize,
    pub line_number: usize,
}

impl EntryView {
    /// The number of keys in the entry.
    pub open spec fn len(self) -> nat {
        if self.start <= self.end {
            (self.end - self.start) as nat
        } else {
            0
        }
    }
}

/// One request of a trace: a range of keys, each key one lookup, and the
/// position of the line it came from, which numbers the first key's request.
#[derive(Debug)]
pub struct TraceEntry {
    range: Range<usize>,
    line_number: usize,
}

impl View for TraceEntry {
    type V = EntryView;

    closed spec fn view(&self) -> EntryView {
        EntryView { start: self.range.start, end: self.range.end, line_number: self.line_number }
    }
}

impl DeepView for TraceEntry {
    type V = EntryView;

    open spec fn deep_view(&self) -> EntryView {
        self@
    }
}

impl TraceEntry {
    #[verifier::type_invariant]
    spec fn ordered(self) -> bool {
        self.range.start <= self.range.end
    }

    /// The keys of the entry.
    pub fn range(&self) -> (r: Range<usize>)
        ensures
            r.start == self@.start,
            r.end == self@.end,
            r.start <= r.end,
    {
        proof {
            use_type_invariant(self);
        }
        self.range.start..self.range.end
    }

    /// The position of the line the entry was read from.
    pub fn line_number(&self) -> (n: usize)
        ensures
            n == self@.line_number,
    {
        self.line_number
    }

    /// Writes the entry as a trace line, `<start> <len>`.
    pub fn to_line(&self) -> (line: String)
        ensures
            line@ == entry_line_chars(self@),
            encode_utf8(line@) == entry_line(self@),
    {
        proof {
            use_type_invariant(self);
            reveal_strlit(" ");
        }
        let mut line = String::new();
        push_decimal(&mut line, self.range.start as u64);
        line.append(" ");
        push_decimal(&mut line, (self.range.end - self.range.start) as u64);
        proof {
            assert(" "@ =~= seq![' ']);
            assert(line@ =~= entry_line_chars(self@));
            lemma_entry_line_bytes(self@);
        }
        line
    }
}

/// The byte is white space: a blank, a tab, a line feed, a vertical tab,
/// a form feed or a carriage return.
pub open spec fn is_space(b: u8) -> bool {
    b == 32 || 9 <= b <= 13
}

/// Where the next token at or after `from` begins: at the first byte that
/// is not white space, or at the end of the line where only white space is
/// left.
pub open spec fn token_start(line: Seq<u8>, from: int) -> int
    decreases line.len() - from,
{
    if from >= line.len() {
        line.len() as int
    } else if !is_space(line[from]) {
        from
    } else {
        token_start(line, from + 1)
    }
}

/// Where the token that begins at `from` ends: at the next white space, or
/// at the end of the line.
pub open spec fn token_end(line: Seq<u8>, from: int) -> int
    decreases line.len() - from,
{
    if from >= line.len() {
        line.len() as int
    } else if is_space(line[from]) {
        from
    } else {
        token_end(line, from + 1)
    }
}

/// A token is a maximal run of bytes that are not white space: the next
/// token at or after `from` begins behind white space only, holds no white
/// space, and ends at white space or at the end of the line.
pub proof fn lemma_token_is_maximal_run(line: Seq<u8>, from: int)
    requires
        0 <= from <= line.len(),
    ensures
        from <= token_start(line, from) <= token_end(line, token_start(line, from)) <= line.len(),
        forall|i: int| from <= i < token_start(line, from) ==> is_space(#[trigger] line[i]),
        forall|i: int|
            token_start(line, from) <= i < token_end(line, token_start(line, from)) ==> !is_space(
                #[trigger] line[i],
            ),
        token_end(line, token_start(line, from)) < line.len() ==> is_space(
            line[token_end(line, token_start(line, from))],
        ),
        token_start(line, from) < line.len() ==> token_start(line, from) < token_end(
            line,
            token_start(line, from),
        ),
{
    lemma_token_start(line, from);
    lemma_token_end(line, token_start(line, from));
}

proof fn lemma_token_start(line: Seq<u8>, from: int)
    requires
        0 <= from <= line.len(),
    ensures
        from <= token_start(line, from) <= line.len(),
        forall|i: int| from <= i < token_start(line, from) ==> is_space(#[trigger] line[i]),
        token_start(line, from) < line.len() ==> !is_space(line[token_start(line, from)]),
    decreases line.len() - from,
{
    if from < line.len() && is_space(line[from]) {
        lemma_token_start(line, from + 1);
    }
}

proof fn lemma_token_end(line: Seq<u8>, from: int)
    requires
        0 <= from <= line.len(),
    ensures
        from <= token_end(line, from) <= line.len(),
        forall|i: int| from <= i < token_end(line, from) ==> !is_space(#[trigger] line[i]),
        token_end(line, from) < line.len() ==> is_space(line[token_end(line, from)]),
    decreases line.len() - from,
{
    if from < line.len() && !is_space(line[from]) {
        lemma_token_end(line, from + 1);
    }
}

/// The first token of a line: its first maximal run of bytes that are not
/// white space, empty where the line holds none.
pub open spec fn first_token(line: Seq<u8>) -> Seq<u8> {
    line.subrange(token_start(line, 0), token_end(line, token_start(line, 0)))
}

/// Where the second token of a line begins; at the end of the line where
/// the line holds one token at most.
pub open spec fn second_start(line: Seq<u8>) -> int {
    token_start(line, token_end(line, token_start(line, 0)))
}

/// The second token of a line, empty where the line holds one token at
/// most.
pub open spec fn second_token(line: Seq<u8>) -> Seq<u8> {
    line.subrange(second_start(line), token_end(line, second_start(line)))
}

/// The entry that a line at position `line_number` denotes: `None` for the
/// skip marker `*`, otherwise the keys `start..start + len` of its first two
/// tokens, `len` being 1 where the line holds one token only. Tokens are
/// separated, led and followed by white space of any length.
pub open spec fn parse_line(line: Seq<u8>, line_number: usize) -> Result<
    Option<EntryView>,
    ParseError,
> {
    if line.len() == 1 && line[0] == 42 {
        Ok(None)
    } else {
        match parse_unsigned_spec(first_token(line)) {
            None => Err(ParseError::InvalidStart),
            Some(start) => {
                let len = if second_start(line) == line.len() {
                    Some(1usize)
                } else {
                    parse_unsigned_spec(second_token(line))
                };
                match len {
                    None => Err(ParseError::InvalidLength),
                    Some(len) => if start + len > usize::MAX {
                        Err(ParseError::RangeOverflow)
                    } else {
                        Ok(Some(EntryView { start, end: (start + len) as usize, line_number }))
                    },
                }
            },
        }
    }
}

/// The trace line of an entry, `<start> <len>`, as bytes.
pub open spec fn entry_line(e: EntryView) -> Seq<u8> {
    decimal_digits(e.start as nat) + seq![32u8] + decimal_digits((e.end - e.start) as nat)
}

/// The trace line of an entry, `<start> <len>`, as characters.
pub open spec fn entry_line_chars(e: EntryView) -> Seq<char> {
    decimal_chars(e.start as nat) + seq![' '] + decimal_chars((e.end - e.start) as nat)
}

/// A parser's answer agrees with what the line denotes.
pub open spec fn parsed_as(
    r: Result<Option<TraceEntry>, ParseError>,
    expected: Result<Option<EntryView>, ParseError>,
) -> bool {
    match r {
        Ok(Some(e)) => expected == Ok::<Option<EntryView>, ParseError>(Some(e@)),
        Ok(None) => expected == Ok::<Option<EntryView>, ParseError>(None),
        Err(e) => expected == Err::<Option<EntryView>, ParseError>(e),
    }
}

/// A token made of digits ends where the digits end, if white space or the
/// end of the line follows them.
proof fn lemma_token_end_of_digits(line: Seq<u8>, from: int, to: int)
    requires
        0 <= from <= to <= line.len(),
        all_digits(line.subrange(from, to)),
        to < line.len() ==> is_space(line[to]),
    ensures
        token_end(line, from) == to,
    decreases to - from,
{
    if from < to {
        assert(line.subrange(from, to)[0] == line[from]);
        assert(is_digit(line[from]));
        assert forall|i: int| 0 <= i < to - (from + 1) implies is_digit(
            #[trigger] line.subrange(from + 1, to)[i],
        ) by {
            assert(line.subrange(from + 1, to)[i] == line.subrange(from, to)[i + 1]);
        }
        lemma_token_end_of_digits(line, from + 1, to);
    }
}

/// The characters of an entry's line encode to its bytes.
proof fn lemma_entry_line_bytes(e: EntryView)
    requires
        e.start <= e.end,
    ensures
        encode_utf8(entry_line_chars(e)) == entry_line(e),
{
    let chars = entry_line_chars(e);
    let bytes = entry_line(e);
    let a = decimal_digits(e.start as nat);
    let b = decimal_digits((e.end - e.start) as nat);
    lemma_decimal_digits(e.start as nat);
    lemma_decimal_digits((e.end - e.start) as nat);
    assert(chars.len() == bytes.len());
    assert forall|i: int| 0 <= i < chars.len() implies chars[i] == bytes[i] as char
        && '\0' <= #[trigger] chars[i] <= '\u{7f}' by {
        if i < a.len() {
            assert(is_digit(a[i]));
        } else if i > a.len() {
            assert(is_digit(b[i - a.len() - 1]));
        }
    }
    is_ascii_chars_encode_utf8(chars);
    assert(encode_utf8(chars) =~= bytes);
}

/// Writing an entry as `<start> <len>` and reading the line back at the same
/// position gives the entry again.
pub proof fn lemma_parse_entry_line(e: EntryView)
    requires
        e.start <= e.end,
    ensures
        parse_line(entry_line(e), e.line_number) == Ok::<Option<EntryView>, ParseError>(Some(e)),
{
    let a = decimal_digits(e.start as nat);
    let b = decimal_digits((e.end - e.start) as nat);
    let line = entry_line(e);
    lemma_decimal_digits(e.start as nat);
    lemma_decimal_digits((e.end - e.start) as nat);
    lemma_parse_decimal_digits(e.start as nat);
    lemma_parse_decimal_digits((e.end - e.start) as nat);
    let n = a.len() as int;
    assert(line.len() == n + 1 + b.len());
    assert(line[n] == 32);
    assert(line.subrange(0, n) =~= a);
    assert(line.subrange(n + 1, line.len() as int) =~= b);
    lemma_token_end_of_digits(line, 0, n);
    lemma_token_end_of_digits(line, n + 1, line.len() as int);
    assert(is_digit(a[0]));
    assert(line[0] == a[0]);
    assert(is_digit(b[0]));
    assert(line[n + 1] == b[0]);
    assert(token_start(line, 0) == 0);
    assert(token_start(line, n + 1) == n + 1);
    assert(token_start(line, n) == n + 1);
    assert(first_token(line) == a);
    assert(second_start(line) == n + 1);
    assert(second_token(line) == b);
}

/// Whether the byte is white space.
fn is_space_byte(b: u8) -> (space: bool)
    ensures
        space == is_space(b),
{
    b == 32 || (9 <= b && b <= 13)
}

/// Finds the beginning of the next token at or after `from`.
fn find_token_start(line: &[u8], from: usize) -> (start: usize)
    requires
        from <= line@.len(),
    ensures
        start == token_start(line@, from as int),
        from <= start <= line@.len(),
{
    let mut i: usize = from;
    while i < line.len() && is_space_byte(line[i])
        invariant
            from <= i <= line@.len(),
            token_start(line@, from as int) == token_start(line@, i as int),
        decreases line@.len() - i,
    {
        i = i + 1;
    }
    i
}

/// Finds the end of the token that begins at `from`.
fn find_token_end(line: &[u8], from: usize) -> (end: usize)
    requires
        from <= line@.len(),
    ensures
        end == token_end(line@, from as int),
        from <= end <= line@.len(),
{
    let mut i: usize = from;
    while i < line.len() && !is_space_byte(line[i])
        invariant
            from <= i <= line@.len(),
            token_end(line@, from as int) == token_end(line@, i as int),
        decreases line@.len() - i,
    {
        i = i + 1;
    }
    i
}

/// Something that turns the lines of a trace into entries of type `T`.
pub trait TraceParser<T> {
    /// Reads the line at position `line_number`; `Ok(None)` for a line that
    /// holds no request.
    fn parse(&mut self, line: &str, line_number: usize) -> Result<Option<T>, ParseError>;
}

/// The parser of both trace formats: `<start> <len>` lines with any further
/// tokens ignored, and one key per line with `*` lines to skip. Tokens are
/// cut at white space of any length.
pub struct GenericTraceParser;

impl TraceParser<TraceEntry> for GenericTraceParser {
    fn parse(&mut self, line: &str, line_number: usize) -> (r: Result<
        Option<TraceEntry>,
        ParseError,
    >)
        ensures
            parsed_as(r, parse_line(encode_utf8(line@), line_number)),
    {
        let bytes = line.as_bytes();
        if bytes.len() == 1 && bytes[0] == 42 {
            return Ok(None);
        }
        let first_start = find_token_start(bytes, 0);
        let first_end = find_token_end(bytes, first_start);
        let start = match parse_unsigned(bytes, first_start, first_end) {
            Some(start) => start,
            None => {
                return Err(ParseError::InvalidStart);
            },
        };
        let second_start = find_token_start(bytes, first_end);
        let len = if second_start == bytes.len() {
            1
        } else {
            let second_end = find_token_end(bytes, second_start);
            match parse_unsigned(bytes, second_start, second_end) {
                Some(len) => len,
                None => {
                    return Err(ParseError::InvalidLength);
                },
            }
        };
        if len > usize::MAX - start {
            return Err(ParseError::RangeOverflow);
        }
        Ok(Some(TraceEntry { range: start..(start + len), line_number }))
    }
}

} // verus!
