//! The exported note: its header, its body and the attachments of the body.

use vstd::prelude::*;
use crate::error::{FormatError, ParseError, ReferenceError, ValueError};
use crate::percent::{decode, percent_decoded};
use crate::text::{
    chars_of, copy_range, find_char, find_from, lines, split_lines, starts_with, string_of, texts,
    trim, trimmed,
};
use crate::timestamp::{unix_seconds_of, utc_civil_of, CivilTime, Timestamp};

verus! {

/// How the day was rated.
#[derive(Clone, Copy, Debug, PartialEq, Eq)]
pub enum Mood {
    Unrated,
    Level1,
    Level2,
    Level3,
    Level4,
    Level5,
}

/// The mood that a code of the mood line stands for.
pub open spec fn mood_of_code(code: Seq<char>) -> Option<Mood> {
    if code == "-1"@ {
        Some(Mood::Unrated)
    } else if code == "1"@ {
        Some(Mood::Level1)
    } else if code == "2"@ {
        Some(Mood::Level2)
    } else if code == "3"@ {
        Some(Mood::Level3)
    } else if code == "4"@ {
        Some(Mood::Level4)
    } else if code == "5"@ {
        Some(Mood::Level5)
    } else {
        None
    }
}

/// The code that stands for a mood.
pub open spec fn code_of_mood(mood: Mood) -> Seq<char> {
    match mood {
        Mood::Unrated => "-1"@,
        Mood::Level1 => "1"@,
        Mood::Level2 => "2"@,
        Mood::Level3 => "3"@,
        Mood::Level4 => "4"@,
        Mood::Level5 => "5"@,
    }
}

impl Mood {
    /// The code that stands for this mood.
    pub fn code(&self) -> (out: &'static str)
        ensures
            out@ == code_of_mood(*self),
    {
        match self {
            Mood::Unrated => "-1",
            Mood::Level1 => "1",
            Mood::Level2 => "2",
            Mood::Level3 => "3",
            Mood::Level4 => "4",
            Mood::Level5 => "5",
        }
    }

    /// Reads a mood code: `-1` for an unrated day, `1` to `5` for the levels.
    pub fn from_str(s: &str) -> (out: Result<Mood, ()>)
        ensures
            out == match mood_of_code(s@) {
                Some(mood) => Ok::<Mood, ()>(mood),
                None => Err(()),
            },
    {
        let code = chars_of(s);
        Mood::from_code(&code)
    }

    pub(crate) fn from_code(code: &Vec<char>) -> (out: Result<Mood, ()>)
        ensures
            out == match mood_of_code(code@) {
                Some(mood) => Ok::<Mood, ()>(mood),
                None => Err(()),
            },
    {
        proof {
            reveal_strlit("-1");
            reveal_strlit("1");
            reveal_strlit("2");
            reveal_strlit("3");
            reveal_strlit("4");
            reveal_strlit("5");
        }
        if code.len() == 2 && code[0] == '-' && code[1] == '1' {
            assert(code@ =~= "-1"@);
            Ok(Mood::Unrated)
        } else if code.len() == 1 {
            let c: char = code[0];
            if c == '1' {
                assert(code@ =~= "1"@);
                Ok(Mood::Level1)
            } else if c == '2' {
                assert(code@ =~= "2"@);
                Ok(Mood::Level2)
            } else if c == '3' {
                assert(code@ =~= "3"@);
                Ok(Mood::Level3)
            } else if c == '4' {
                assert(code@ =~= "4"@);
                Ok(Mood::Level4)
            } else if c == '5' {
                assert(code@ =~= "5"@);
                Ok(Mood::Level5)
            } else {
                Err(())
            }
        } else {
            Err(())
        }
    }
}

/// One note, read: when it was written, how the day was rated, the body with
/// a placeholder for each reference line, and the paths that those lines name.
#[derive(Debug, PartialEq, Eq)]
pub struct MoodLog {
    pub datetime: Timestamp,
    pub mood: Mood,
    pub day_one_markdown_content: String,
    pub attachments: Vec<String>,
}

/// What a `MoodLog` holds, as plain values.
pub struct MoodRecord {
    /// Seconds from the Unix epoch.
    pub timestamp: int,
    pub mood: Mood,
    pub body: Seq<char>,
    pub attachments: Seq<Seq<char>>,
}

impl View for MoodLog {
    type V = MoodRecord;

    open spec fn view(&self) -> MoodRecord {
        MoodRecord {
            timestamp: self.datetime@,
            mood: self.mood,
            body: self.day_one_markdown_content@,
            attachments: texts(self.attachments@),
        }
    }
}

/// The label that opens the date line.
pub const DATE_PREFIX: &'static str = "Date (human): ";

/// The label that opens the mood line.
pub const MOOD_PREFIX: &'static str = "Mood: ";

/// The two characters that open a reference line.
pub const ATTACHMENT_MARKER: &'static str = "![";

/// What stands in the body in place of a reference line.
pub const PLACEHOLDER: &'static str = "[{attachment}]";

/// Number of lines that the header takes.
pub const HEADER_LINES: usize = 6;

/// Hours by which the clock of every note runs ahead of UTC.
pub const SOURCE_OFFSET_HOURS: i8 = 1;

/// Whether `c` is one of the ten decimal digits.
pub open spec fn is_digit(c: char) -> bool {
    '0' <= c && c <= '9'
}

/// The number that the digit `c` stands for.
pub open spec fn digit_value(c: char) -> int {
    c as int - '0' as int
}

/// The number written by the two digits of `s` at `at`.
pub open spec fn two_digits(s: Seq<char>, at: int) -> int {
    10 * digit_value(s[at]) + digit_value(s[at + 1])
}

/// Whether `s` has the shape `YYYY-MM-DD HH:MM`, each letter a digit.
pub open spec fn is_date_text(s: Seq<char>) -> bool {
    &&& s.len() == 16
    &&& is_digit(s[0]) && is_digit(s[1]) && is_digit(s[2]) && is_digit(s[3])
    &&& s[4] == '-'
    &&& is_digit(s[5]) && is_digit(s[6])
    &&& s[7] == '-'
    &&& is_digit(s[8]) && is_digit(s[9])
    &&& s[10] == ' '
    &&& is_digit(s[11]) && is_digit(s[12])
    &&& s[13] == ':'
    &&& is_digit(s[14]) && is_digit(s[15])
}

/// The fields that a text of the shape `YYYY-MM-DD HH:MM` writes down.
pub open spec fn date_fields_of(s: Seq<char>) -> Option<CivilTime> {
    if is_date_text(s) {
        Some(
            CivilTime {
                year: (100 * two_digits(s, 0) + two_digits(s, 2)) as i32,
                month: two_digits(s, 5) as u8,
                day: two_digits(s, 8) as u8,
                hour: two_digits(s, 11) as u8,
                minute: two_digits(s, 14) as u8,
                second: 0,
            },
        )
    } else {
        None
    }
}

/// The instant that a date line names, in seconds from the Unix epoch. The
/// date and time behind the label are read on a clock that runs
/// `SOURCE_OFFSET_HOURS` ahead of UTC.
pub open spec fn timestamp_of_line(line: Seq<char>) -> Result<int, ParseError> {
    if !DATE_PREFIX@.is_prefix_of(line) {
        Err(ParseError::Format(FormatError::MissingDatePrefix))
    } else {
        match date_fields_of(line.skip(DATE_PREFIX@.len() as int)) {
            Some(local) if local.is_valid() && utc_civil_of(
                unix_seconds_of(local, SOURCE_OFFSET_HOURS as int),
            ) is Some => Ok(unix_seconds_of(local, SOURCE_OFFSET_HOURS as int)),
            _ => Err(ParseError::Value(ValueError::Date)),
        }
    }
}

/// The value of `c` where it is a decimal digit.
fn digit(c: char) -> (out: Option<u8>)
    ensures
        out is Some <==> is_digit(c),
        out matches Some(d) ==> d == digit_value(c) && d < 10,
{
    if '0' <= c && c <= '9' {
        Some((c as u32 - '0' as u32) as u8)
    } else {
        None
    }
}

/// The number written by two digits of `text` at `at`.
fn number2(text: &[char], at: usize) -> (out: Option<u8>)
    requires
        at + 1 < text.len(),
    ensures
        out is Some <==> is_digit(text@[at as int]) && is_digit(text@[at + 1]),
        out matches Some(n) ==> n == two_digits(text@, at as int) && n < 100,
{
    match (digit(text[at]), digit(text[at + 1])) {
        (Some(tens), Some(units)) => Some(10 * tens + units),
        _ => None,
    }
}

/// Reads a text of the shape `YYYY-MM-DD HH:MM` into its fields, whatever
/// numbers it holds.
pub fn date_fields(text: &[char]) -> (out: Option<CivilTime>)
    ensures
        out == date_fields_of(text@),
{
    if text.len() != 16 || text[4] != '-' || text[7] != '-' || text[10] != ' ' || text[13] != ':' {
        return None;
    }
    match (
        number2(text, 0),
        number2(text, 2),
        number2(text, 5),
        number2(text, 8),
        number2(text, 11),
        number2(text, 14),
    ) {
        (Some(century), Some(years), Some(month), Some(day), Some(hour), Some(minute)) => {
            let year: i32 = 100 * (century as i32) + years as i32;
            Some(CivilTime { year, month, day, hour, minute, second: 0 })
        },
        _ => None,
    }
}

/// Parses the instant from a line like `Date (human): 1970-01-01 00:01`.
pub fn parse_datetime(datetime_line: &str) -> (out: Result<Timestamp, ParseError>)
    ensures
        match out {
            Ok(instant) => timestamp_of_line(datetime_line@) == Ok::<int, ParseError>(instant@),
            Err(e) => timestamp_of_line(datetime_line@) == Err::<int, ParseError>(e),
        },
{
    let line = chars_of(datetime_line);
    datetime_of_line(&line)
}

pub(crate) fn datetime_of_line(line: &Vec<char>) -> (out: Result<Timestamp, ParseError>)
    ensures
        match out {
            Ok(instant) => timestamp_of_line(line@) == Ok::<int, ParseError>(instant@),
            Err(e) => timestamp_of_line(line@) == Err::<int, ParseError>(e),
        },
{
    let prefix = chars_of(DATE_PREFIX);
    if !starts_with(line.as_slice(), prefix.as_slice()) {
        return Err(ParseError::Format(FormatError::MissingDatePrefix));
    }
    let text = copy_range(line.as_slice(), prefix.len(), line.len());
    assert(text@ == line@.skip(DATE_PREFIX@.len() as int));
    match date_fields(text.as_slice()) {
        Some(local) => match Timestamp::from_local(&local, SOURCE_OFFSET_HOURS) {
            Some(instant) => Ok(instant),
            None => Err(ParseError::Value(ValueError::Date)),
        },
        None => Err(ParseError::Value(ValueError::Date)),
    }
}

/// The mood that a mood line names.
pub open spec fn mood_of_line(line: Seq<char>) -> Result<Mood, ParseError> {
    if !MOOD_PREFIX@.is_prefix_of(line) {
        Err(ParseError::Format(FormatError::MissingMoodPrefix))
    } else {
        match mood_of_code(line.skip(MOOD_PREFIX@.len() as int)) {
            Some(mood) => Ok(mood),
            None => Err(ParseError::Value(ValueError::Mood)),
        }
    }
}

pub(crate) fn mood_of(line: &Vec<char>) -> (out: Result<Mood, ParseError>)
    ensures
        out == mood_of_line(line@),
{
    let prefix = chars_of(MOOD_PREFIX);
    if !starts_with(line.as_slice(), prefix.as_slice()) {
        return Err(ParseError::Format(FormatError::MissingMoodPrefix));
    }
    let code = copy_range(line.as_slice(), prefix.len(), line.len());
    assert(code@ == line@.skip(MOOD_PREFIX@.len() as int));
    match Mood::from_code(&code) {
        Ok(mood) => Ok(mood),
        Err(_) => Err(ParseError::Value(ValueError::Mood)),
    }
}

/// Whether a body line refers to an attachment: without the white space
/// around it, it begins with the marker.
pub open spec fn is_attachment_line(line: Seq<char>) -> bool {
    ATTACHMENT_MARKER@.is_prefix_of(trimmed(line))
}

/// The text between the first `(` of `line` and its first `)`, where the
/// bracket opens before it closes.
pub open spec fn reference_of(line: Seq<char>) -> Option<Seq<char>> {
    let open = find_from(line, '(', 0);
    let close = find_from(line, ')', 0);
    if open < close && close < line.len() {
        Some(line.subrange(open + 1, close))
    } else {
        None
    }
}

/// The path that a reference line names: its reference, percent-decoded.
pub open spec fn attachment_path(line: Seq<char>) -> Result<Seq<char>, ReferenceError> {
    match reference_of(line) {
        None => Err(ReferenceError::MissingSpan),
        Some(reference) => match percent_decoded(reference) {
            Some(path) => Ok(path),
            None => Err(ReferenceError::Encoding),
        },
    }
}

/// The text between the first `(` of `line` and its first `)`.
pub fn reference_text(line: &[char]) -> (out: Option<Vec<char>>)
    ensures
        match out {
            Some(reference) => reference_of(line@) == Some(reference@),
            None => reference_of(line@) is None,
        },
{
    let open: usize = find_char(line, '(', 0);
    let close: usize = find_char(line, ')', 0);
    if open < close && close < line.len() {
        Some(copy_range(line, open + 1, close))
    } else {
        None
    }
}

/// What a reference line comes to, given what decoding its reference gave.
pub fn path_from_decoded(decoded: Result<String, std::string::FromUtf8Error>) -> (out: Result<
    String,
    ReferenceError,
>)
    ensures
        match decoded {
            Ok(path) => out == Ok::<String, ReferenceError>(path),
            Err(_) => out == Err::<String, ReferenceError>(ReferenceError::Encoding),
        },
{
    match decoded {
        Ok(path) => Ok(path),
        Err(_) => Err(ReferenceError::Encoding),
    }
}

/// Parses a path from something like `![Untitled](ML%201970/Untitled.png)`.
pub fn parse_attachment(line: &str) -> (out: Result<String, ReferenceError>)
    ensures
        match out {
            Ok(path) => attachment_path(line@) == Ok::<Seq<char>, ReferenceError>(path@),
            Err(e) => attachment_path(line@) == Err::<Seq<char>, ReferenceError>(e),
        },
{
    let line = chars_of(line);
    attachment_of(&line)
}

pub(crate) fn attachment_of(line: &Vec<char>) -> (out: Result<String, ReferenceError>)
    ensures
        match out {
            Ok(path) => attachment_path(line@) == Ok::<Seq<char>, ReferenceError>(path@),
            Err(e) => attachment_path(line@) == Err::<Seq<char>, ReferenceError>(e),
        },
{
    match reference_text(line.as_slice()) {
        Some(reference) => {
            let reference = string_of(reference.as_slice());
            path_from_decoded(decode(reference.as_str()))
        },
        None => Err(ReferenceError::MissingSpan),
    }
}

/// What a body line becomes in the rewritten body: a reference line gives
/// way to the placeholder, any other line stays as it is.
pub open spec fn rewritten_line(line: Seq<char>) -> Seq<char> {
    if is_attachment_line(line) {
        PLACEHOLDER@
    } else {
        line
    }
}

/// The lines of the rewritten body, one for each body line.
pub open spec fn rewritten(body: Seq<Seq<char>>) -> Seq<Seq<char>> {
    body.map_values(|line: Seq<char>| rewritten_line(line))
}

/// The lines with a line feed between each two of them.
pub open spec fn joined(lines: Seq<Seq<char>>) -> Seq<char>
    decreases lines.len(),
{
    if lines.len() == 0 {
        Seq::empty()
    } else if lines.len() == 1 {
        lines[0]
    } else {
        joined(lines.drop_last()) + seq!['\n'] + lines.last()
    }
}

/// Number of reference lines among `body`.
pub open spec fn reference_count(body: Seq<Seq<char>>) -> nat
    decreases body.len(),
{
    if body.len() == 0 {
        0
    } else {
        reference_count(body.drop_last()) + (if is_attachment_line(body.last()) {
            1nat
        } else {
            0nat
        })
    }
}

/// The paths that the reference lines of `body` name, in the order of the
/// lines; or the index and the fault of the first reference line that names
/// none.
pub open spec fn attachments_of(body: Seq<Seq<char>>) -> Result<
    Seq<Seq<char>>,
    (int, ReferenceError),
>
    decreases body.len(),
{
    if body.len() == 0 {
        Ok(Seq::empty())
    } else {
        match attachments_of(body.drop_last()) {
            Err(fault) => Err(fault),
            Ok(paths) => if !is_attachment_line(body.last()) {
                Ok(paths)
            } else {
                match attachment_path(trimmed(body.last())) {
                    Ok(path) => Ok(paths.push(path)),
                    Err(error) => Err((body.len() - 1, error)),
                }
            },
        }
    }
}

/// What a document comes to: its record, or the first fault in it. The
/// header is the first six lines, of which the third holds the date and the
/// fourth the mood; every line after them belongs to the body.
pub open spec fn parse_document(content: Seq<char>) -> Result<MoodRecord, ParseError> {
    let all = lines(content);
    if all.len() < HEADER_LINES {
        Err(ParseError::Format(FormatError::MissingHeaderLines))
    } else {
        let body = all.skip(HEADER_LINES as int);
        match (timestamp_of_line(all[2]), mood_of_line(all[3]), attachments_of(body)) {
            (Err(e), _, _) => Err(e),
            (Ok(_), Err(e), _) => Err(e),
            (Ok(_), Ok(_), Err((index, error))) => Err(
                ParseError::Reference { line: (HEADER_LINES + index + 1) as usize, error },
            ),
            (Ok(timestamp), Ok(mood), Ok(attachments)) => Ok(
                MoodRecord { timestamp, mood, body: joined(rewritten(body)), attachments },
            ),
        }
    }
}

/// A fault among the first lines of a body is the fault of the whole body.
proof fn lemma_fault_stays(body: Seq<Seq<char>>, n: int)
    requires
        0 <= n <= body.len(),
        attachments_of(body.take(n)) is Err,
    ensures
        attachments_of(body) == attachments_of(body.take(n)),
    decreases body.len() - n,
{
    if n < body.len() {
        assert(body.take(n + 1).drop_last() =~= body.take(n));
        lemma_fault_stays(body, n + 1);
    } else {
        assert(body.take(n) =~= body);
    }
}

/// What a returned value says, as plain values.
pub open spec fn outcome(out: Result<MoodLog, ParseError>) -> Result<MoodRecord, ParseError> {
    match out {
        Ok(log) => Ok(log@),
        Err(e) => Err(e),
    }
}

/// Reads one exported note: the record where the document has the layout of
/// a note, else the first fault in it.
pub fn parse_file(content: &str) -> (out: Result<MoodLog, ParseError>)
    ensures
        outcome(out) == parse_document(content@),
{
    let text = chars_of(content);
    let all = split_lines(text.as_slice());
    if all.len() < HEADER_LINES {
        return Err(ParseError::Format(FormatError::MissingHeaderLines));
    }
    let datetime = match datetime_of_line(&all[2]) {
        Ok(datetime) => datetime,
        Err(e) => return Err(e),
    };
    let mood = match mood_of(&all[3]) {
        Ok(mood) => mood,
        Err(e) => return Err(e),
    };
    let marker = chars_of(ATTACHMENT_MARKER);
    let placeholder = chars_of(PLACEHOLDER);
    let ghost body = lines(content@).skip(HEADER_LINES as int);
    let mut rewritten_body: Vec<char> = Vec::new();
    let mut attachments: Vec<String> = Vec::new();
    let mut k: usize = HEADER_LINES;
    proof {
        assert(body.take(0) =~= Seq::empty());
        assert(texts(attachments@) =~= Seq::empty());
        assert(rewritten(body.take(0)) =~= Seq::empty());
    }
    while k < all.len()
        invariant
            HEADER_LINES <= k <= all.len(),
            timestamp_of_line(lines(content@)[2]) == Ok::<int, ParseError>(datetime@),
            mood_of_line(lines(content@)[3]) == Ok::<Mood, ParseError>(mood),
            all@.len() == lines(content@).len(),
            forall|i: int| 0 <= i < all@.len() ==> (#[trigger] all@[i])@ == lines(content@)[i],
            body == lines(content@).skip(HEADER_LINES as int),
            marker@ == ATTACHMENT_MARKER@,
            placeholder@ == PLACEHOLDER@,
            attachments_of(body.take(k - HEADER_LINES)) == Ok::<
                Seq<Seq<char>>,
                (int, ReferenceError),
            >(texts(attachments@)),
            rewritten_body@ == joined(rewritten(body.take(k - HEADER_LINES))),
        decreases all.len() - k,
    {
        let ghost done = body.take(k - HEADER_LINES);
        let ghost next = body.take(k - HEADER_LINES + 1);
        let line = &all[k];
        proof {
            assert(line@ == body[k - HEADER_LINES]);
            assert(next.drop_last() =~= done);
            assert(next.last() == line@);
            assert(rewritten(next).drop_last() =~= rewritten(done));
            assert(rewritten(next).last() == rewritten_line(line@));
        }
        if k > HEADER_LINES {
            rewritten_body.push('\n');
        }
        let stripped = trim(line.as_slice());
        if starts_with(stripped.as_slice(), marker.as_slice()) {
            match attachment_of(&stripped) {
                Ok(path) => {
                    proof {
                        assert(texts(attachments@.push(path)) =~= texts(attachments@).push(path@));
                    }
                    attachments.push(path);
                },
                Err(error) => {
                    proof {
                        lemma_fault_stays(body, k - HEADER_LINES + 1);
                    }
                    return Err(ParseError::Reference { line: k + 1, error });
                },
            }
            rewritten_body.extend_from_slice(placeholder.as_slice());
        } else {
            rewritten_body.extend_from_slice(line.as_slice());
        }
        k += 1;
    }
    proof {
        assert(body.take(k - HEADER_LINES) =~= body);
    }
    Ok(
        MoodLog {
            datetime,
            mood,
            day_one_markdown_content: string_of(rewritten_body.as_slice()),
            attachments,
        },
    )
}

} // verus!
