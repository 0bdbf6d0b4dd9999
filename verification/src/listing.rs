//! Classifying the lines of a listing and decoding them into entries.
//!
//! A listing is text whose lines end in a line feed; the last line may lack
//! it. A line that begins with `#` is a comment. Any other line is cut into
//! fields at each `|` and is a version line, a summary line or a record line.
//! A line that is too short for its kind, or holds text where a number is
//! expected, fails the whole listing. An empty line has a single empty field
//! and fails in this way. A carriage return before a line feed belongs to
//! the line.

use crate::entry::{
    Line, LineView, Record, RecordView, Summary, SummaryView, Type, Version, VersionView,
};
use crate::number::{decimal, is_digit, parse_decimal, parse_unsigned, unsigned};
use crate::text::{
    after, cut, equals, first_at, lemma_encoding_not_shorter, lemma_first_at, split, starts_with,
};
use vstd::prelude::*;
use vstd::string::*;
use vstd::utf8::*;

verus! {

/// The kind of line that a line was taken for.
#[derive(Debug, Clone, Copy, PartialEq, Eq, Structural)]
pub enum Shape {
    /// A version line: seven fields, the first a decimal number, the fourth
    /// an unsigned integer.
    Version,
    /// A summary line: six fields, the fifth an unsigned integer.
    Summary,
    /// A record line: seven or eight fields, the fifth an unsigned integer.
    Record,
}

/// What was found wrong with a line.
#[derive(Debug, Clone, Copy, PartialEq, Eq, Structural)]
pub enum ParseErrorKind {
    /// The line has fewer fields than its kind requires.
    FieldCount,
    /// A field that should hold a number holds something else, or a number
    /// that is too large.
    NumericDecode,
}

/// The reason why a listing could not be decoded.
#[derive(Debug, Clone, PartialEq, Eq)]
pub struct ParseError {
    /// What was found wrong with the line.
    pub kind: ParseErrorKind,
    /// The kind of line that the line was taken for.
    pub expected: Shape,
    /// The number of the line in the listing, counted from 1, comments included.
    pub line_number: usize,
    /// The line as it stands in the listing, without its line feed.
    pub line: String,
}

/// What a [`ParseError`] is in contracts.
pub struct ParseErrorView {
    pub kind: ParseErrorKind,
    pub expected: Shape,
    pub line_number: nat,
    pub line: Seq<char>,
}

impl View for ParseError {
    type V = ParseErrorView;

    open spec fn view(&self) -> ParseErrorView {
        ParseErrorView {
            kind: self.kind,
            expected: self.expected,
            line_number: self.line_number as nat,
            line: self.line@,
        }
    }
}

/// The lines of a text. Each line feed ends a line; what follows the last
/// line feed is a line too unless it is empty.
pub open spec fn lines(text: Seq<char>) -> Seq<Seq<char>>
    decreases text.len(),
{
    let k = first_at(text, '\n');
    if text.len() == 0 {
        seq![]
    } else if 0 <= k < text.len() {
        seq![text.subrange(0, k)] + lines(text.subrange(k + 1, text.len() as int))
    } else {
        seq![text]
    }
}

/// The fields of a line.
pub open spec fn fields(line: Seq<char>) -> Seq<Seq<char>> {
    split(line, '|')
}

/// A comment begins with `#`.
pub open spec fn is_comment(line: Seq<char>) -> bool {
    line.len() > 0 && line[0] == '#'
}

/// The first field of a version line holds nothing but decimal digits and `.`.
pub open spec fn is_version_token(field: Seq<char>) -> bool {
    forall|i: int| 0 <= i < field.len() ==> is_digit(#[trigger] field[i]) || field[i] == '.'
}

/// A summary line has the word `summary` as its sixth field.
pub open spec fn is_summary(f: Seq<Seq<char>>) -> bool {
    f.len() > 5 && f[5] == "summary"@
}

/// The kind of line that a line which is no comment is taken for.
pub open spec fn shape_of(line: Seq<char>) -> Shape {
    let f = fields(line);
    if is_version_token(f[0]) {
        Shape::Version
    } else if is_summary(f) {
        Shape::Summary
    } else {
        Shape::Record
    }
}

/// The error for a line, given the line's number.
pub open spec fn failure(
    kind: ParseErrorKind,
    expected: Shape,
    number: nat,
    line: Seq<char>,
) -> Result<Option<LineView>, ParseErrorView> {
    Err(ParseErrorView { kind, expected, line_number: number, line })
}

/// What a version line decodes to.
pub open spec fn version_entry(line: Seq<char>, number: nat) -> Result<
    Option<LineView>,
    ParseErrorView,
> {
    let f = fields(line);
    if f.len() < 7 {
        failure(ParseErrorKind::FieldCount, Shape::Version, number, line)
    } else {
        match (decimal(f[0]), unsigned(f[3])) {
            (Some(version), Some(records)) => Ok(
                Some(
                    LineView::Version(
                        VersionView {
                            version,
                            registry: f[1],
                            serial: f[2],
                            records,
                            start_date: f[4],
                            end_date: f[5],
                            utc_offset: f[6],
                        },
                    ),
                ),
            ),
            _ => failure(ParseErrorKind::NumericDecode, Shape::Version, number, line),
        }
    }
}

/// What a summary line decodes to. Its second and fourth field are not read.
pub open spec fn summary_entry(line: Seq<char>, number: nat) -> Result<
    Option<LineView>,
    ParseErrorView,
> {
    let f = fields(line);
    match unsigned(f[4]) {
        Some(count) => Ok(
            Some(
                LineView::Summary(
                    SummaryView { registry: f[0], res_type: Type::of(f[2]), count },
                ),
            ),
        ),
        None => failure(ParseErrorKind::NumericDecode, Shape::Summary, number, line),
    }
}

/// What a record line decodes to. The id is empty where the line has no
/// eighth field.
pub open spec fn record_entry(line: Seq<char>, number: nat) -> Result<
    Option<LineView>,
    ParseErrorView,
> {
    let f = fields(line);
    if f.len() < 7 {
        failure(ParseErrorKind::FieldCount, Shape::Record, number, line)
    } else {
        match unsigned(f[4]) {
            Some(value) => Ok(
                Some(
                    LineView::Record(
                        RecordView {
                            registry: f[0],
                            organization: f[1],
                            res_type: Type::of(f[2]),
                            start: f[3],
                            value,
                            date: f[5],
                            status: f[6],
                            id: if f.len() > 7 {
                                f[7]
                            } else {
                                Seq::<char>::empty()
                            },
                        },
                    ),
                ),
            ),
            None => failure(ParseErrorKind::NumericDecode, Shape::Record, number, line),
        }
    }
}

/// What one line of a listing decodes to: nothing for a comment, an entry, or
/// the error that fails the listing. `number` is the line's number, which
/// only an error reports.
pub open spec fn line_entry(line: Seq<char>, number: nat) -> Result<
    Option<LineView>,
    ParseErrorView,
> {
    if is_comment(line) {
        Ok(None)
    } else {
        match shape_of(line) {
            Shape::Version => version_entry(line, number),
            Shape::Summary => summary_entry(line, number),
            Shape::Record => record_entry(line, number),
        }
    }
}

/// What a sequence of lines decodes to: the entries of its lines in their
/// order, or the error of the first line that has one.
pub open spec fn entries(lines: Seq<Seq<char>>) -> Result<Seq<LineView>, ParseErrorView>
    decreases lines.len(),
{
    if lines.len() == 0 {
        Ok(seq![])
    } else {
        match entries(lines.drop_last()) {
            Err(e) => Err(e),
            Ok(found) => match line_entry(lines.last(), lines.len()) {
                Err(e) => Err(e),
                Ok(None) => Ok(found),
                Ok(Some(entry)) => Ok(found.push(entry)),
            },
        }
    }
}

/// What the text of a listing decodes to.
pub open spec fn parsed(text: Seq<char>) -> Result<Seq<LineView>, ParseErrorView> {
    entries(lines(text))
}

/// The entries of a vector as they stand in contracts.
pub open spec fn views(found: Seq<Line>) -> Seq<LineView> {
    found.map_values(|line: Line| line@)
}

/// The texts of a vector of string slices.
pub open spec fn texts(pieces: Seq<&str>) -> Seq<Seq<char>> {
    pieces.map_values(|piece: &str| piece@)
}

/// An error among the first lines is the error of the whole.
pub proof fn lemma_error_stays(first: Seq<Seq<char>>, more: Seq<Seq<char>>)
    requires
        entries(first) is Err,
    ensures
        entries(first + more) == entries(first),
    decreases more.len(),
{
    if more.len() == 0 {
        assert(first + more =~= first);
    } else {
        lemma_error_stays(first, more.drop_last());
        assert((first + more).drop_last() =~= first + more.drop_last());
    }
}

/// Cuts a line into its fields.
pub fn split_fields<'a>(line: &'a str) -> (pieces: Vec<&'a str>)
    ensures
        texts(pieces@) == fields(line@),
{
    let mut pieces: Vec<&str> = Vec::new();
    let mut rest = line;
    loop
        invariant_except_break
            fields(line@) == texts(pieces@) + split(rest@, '|'),
        ensures
            texts(pieces@) == fields(line@),
        decreases rest@.len(),
    {
        let (piece, tail) = cut(rest, '|');
        proof {
            lemma_first_at(rest@, '|');
        }
        let ghost sofar = pieces@;
        pieces.push(piece);
        assert(texts(pieces@) =~= texts(sofar).push(piece@));
        match tail {
            Some(tail) => {
                assert(texts(pieces@) + split(tail@, '|') =~= texts(sofar) + split(rest@, '|'));
                rest = tail;
            },
            None => {
                assert(piece@ =~= rest@);
                assert(texts(pieces@) =~= texts(sofar) + split(rest@, '|'));
                break ;
            },
        }
    }
    pieces
}

/// Tells whether a field holds nothing but decimal digits and `.`.
pub fn holds_version_token(field: &str) -> (r: bool)
    ensures
        r == is_version_token(field@),
{
    if !field.is_ascii() {
        return false;
    }
    let bytes = field.as_bytes();
    proof {
        is_ascii_chars_encode_utf8(field@);
    }
    let mut i: usize = 0;
    while i < bytes.len()
        invariant
            i <= bytes.len(),
            bytes@.len() == field@.len(),
            is_ascii_chars(field@),
            forall|j: int| 0 <= j < field@.len() ==> field@[j] as u8 == bytes@[j],
            forall|j: int| 0 <= j < i ==> is_digit(#[trigger] field@[j]) || field@[j] == '.',
        decreases bytes.len() - i,
    {
        let b = bytes[i];
        let ghost c = field@[i as int];
        if !((48 <= b && b <= 57) || b == 46) {
            assert(!(is_digit(c) || c == '.'));
            return false;
        }
        i += 1;
    }
    true
}

fn fail(kind: ParseErrorKind, expected: Shape, number: usize, line: &str) -> (r: Result<
    Option<Line>,
    ParseError,
>)
    ensures
        r matches Err(error) && failure(kind, expected, number as nat, line@) matches Err(e) && e
            == error@,
{
    Err(ParseError { kind, expected, line_number: number, line: line.to_owned() })
}

/// Decodes one line of a listing, which stands there as line `number`:
/// nothing for a comment, else the line's entry, or the error that the line
/// gives rise to.
pub fn parse_line(line: &str, number: usize) -> (r: Result<Option<Line>, ParseError>)
    ensures
        match r {
            Ok(Some(entry)) => line_entry(line@, number as nat) matches Ok(Some(e)) && e == entry@,
            Ok(None) => line_entry(line@, number as nat) matches Ok(None),
            Err(error) => line_entry(line@, number as nat) matches Err(e) && e == error@,
        },
{
    if starts_with(line, '#') {
        return Ok(None);
    }
    let f = split_fields(line);
    proof {
        lemma_first_at(line@, '|');
        assert(fields(line@).len() > 0);
        assert(forall|i: int| 0 <= i < f@.len() ==> (#[trigger] f@[i])@ == fields(line@)[i]);
    }
    if holds_version_token(f[0]) {
        if f.len() < 7 {
            return fail(ParseErrorKind::FieldCount, Shape::Version, number, line);
        }
        let version = parse_decimal(f[0]);
        let records = parse_unsigned(f[3]);
        match (version, records) {
            (Some(version), Some(records)) => Ok(
                Some(
                    Line::Version(
                        Version {
                            version,
                            registry: f[1].to_owned(),
                            serial: f[2].to_owned(),
                            records,
                            start_date: f[4].to_owned(),
                            end_date: f[5].to_owned(),
                            utc_offset: f[6].to_owned(),
                        },
                    ),
                ),
            ),
            _ => fail(ParseErrorKind::NumericDecode, Shape::Version, number, line),
        }
    } else if f.len() > 5 && equals(f[5], "summary") {
        match parse_unsigned(f[4]) {
            Some(count) => Ok(
                Some(
                    Line::Summary(
                        Summary { registry: f[0].to_owned(), res_type: Type::from(f[2]), count },
                    ),
                ),
            ),
            None => fail(ParseErrorKind::NumericDecode, Shape::Summary, number, line),
        }
    } else {
        if f.len() < 7 {
            return fail(ParseErrorKind::FieldCount, Shape::Record, number, line);
        }
        match parse_unsigned(f[4]) {
            Some(value) => {
                let id = if f.len() > 7 {
                    f[7].to_owned()
                } else {
                    String::new()
                };
                Ok(
                    Some(
                        Line::Record(
                            Record {
                                registry: f[0].to_owned(),
                                organization: f[1].to_owned(),
                                res_type: Type::from(f[2]),
                                start: f[3].to_owned(),
                                value,
                                date: f[5].to_owned(),
                                status: f[6].to_owned(),
                                id,
                            },
                        ),
                    ),
                )
            },
            None => fail(ParseErrorKind::NumericDecode, Shape::Record, number, line),
        }
    }
}

/// Decodes the text of a listing into its entries, in the order of their
/// lines. The first line in error fails the listing: no entries are returned
/// then, only the error.
pub fn read_all(text: &str) -> (r: Result<Vec<Line>, ParseError>)
    ensures
        match r {
            Ok(found) => parsed(text@) matches Ok(entries) && entries == views(found@),
            Err(error) => parsed(text@) matches Err(e) && e == error@,
        },
{
    let mut found: Vec<Line> = Vec::new();
    let mut rest = text;
    let mut number: usize = 0;
    let size = text.as_bytes().len();
    let ghost mut done: Seq<Seq<char>> = seq![];
    proof {
        lemma_encoding_not_shorter(text@);
        assert(views(found@) =~= Seq::<LineView>::empty());
    }
    while !rest.is_empty()
        invariant
            lines(text@) == done + lines(rest@),
            entries(done) == Ok::<Seq<LineView>, ParseErrorView>(views(found@)),
            number == done.len(),
            done.len() + rest@.len() <= size,
        decreases rest@.len(),
    {
        let (line, tail) = cut(rest, '\n');
        number += 1;
        let ghost read = done.push(line@);
        let ghost more = match after(rest@, '\n') {
            Some(behind) => lines(behind),
            None => Seq::<Seq<char>>::empty(),
        };
        let ghost sofar = found@;
        proof {
            lemma_first_at(rest@, '\n');
            assert(line@ =~= rest@ || after(rest@, '\n') is Some);
            assert(lines(rest@) =~= seq![line@] + more);
            assert(lines(text@) =~= read + more);
            assert(read.drop_last() =~= done);
        }
        match parse_line(line, number) {
            Ok(Some(entry)) => {
                found.push(entry);
                assert(views(found@) =~= views(sofar).push(entry@));
            },
            Ok(None) => {},
            Err(e) => {
                proof {
                    lemma_error_stays(read, more);
                }
                return Err(e);
            },
        }
        match tail {
            Some(tail) => {
                rest = tail;
            },
            None => {
                proof {
                    reveal_strlit("");
                }
                rest = "";
            },
        }
        proof {
            done = read;
        }
    }
    assert(done + lines(rest@) =~= done);
    Ok(found)
}

} // verus!
