//! The command line that files one entry with the journaling program.

use vstd::prelude::*;
use vstd::string::StringExecFns;
use crate::notion::{code_of_mood, Mood};
use crate::text::texts;
use crate::timestamp::{utc_civil_of, CivilTime, Timestamp};

verus! {

/// The character that writes the digit `d`.
pub open spec fn digit_char(d: int) -> char {
    (('0' as u8) + d) as char
}

/// `n` in two digits, for `n` below 100.
pub open spec fn two_digit_text(n: int) -> Seq<char> {
    seq![digit_char(n / 10), digit_char(n % 10)]
}

/// A year in four digits, with a minus sign before those of a year before 0.
pub open spec fn year_text(year: int) -> Seq<char> {
    if year < 0 {
        seq!['-'] + two_digit_text(-year / 100) + two_digit_text(-year % 100)
    } else {
        two_digit_text(year / 100) + two_digit_text(year % 100)
    }
}

/// A UTC date and time in the form `1970-01-01T00:00:01Z`.
pub open spec fn iso_utc_text(utc: CivilTime) -> Seq<char> {
    year_text(utc.year as int) + seq!['-'] + two_digit_text(utc.month as int) + seq!['-']
        + two_digit_text(utc.day as int) + seq!['T'] + two_digit_text(utc.hour as int) + seq![':']
        + two_digit_text(utc.minute as int) + seq![':'] + two_digit_text(utc.second as int)
        + seq!['Z']
}

/// Appends `n` in two digits.
fn push_two_digits(out: &mut String, n: u8)
    requires
        n < 100,
    ensures
        final(out)@ == old(out)@ + two_digit_text(n as int),
{
    out.push(('0' as u8 + n / 10) as char);
    out.push(('0' as u8 + n % 10) as char);
    assert(out@ =~= old(out)@ + two_digit_text(n as int));
}

/// Writes a UTC date and time in the form `1970-01-01T00:00:01Z`.
pub fn format_civil(utc: &CivilTime) -> (out: String)
    requires
        utc.in_range(),
    ensures
        out@ == iso_utc_text(*utc),
{
    let mut out = String::new();
    let magnitude: i32 = if utc.year < 0 {
        out.push('-');
        -utc.year
    } else {
        utc.year
    };
    push_two_digits(&mut out, (magnitude / 100) as u8);
    push_two_digits(&mut out, (magnitude % 100) as u8);
    assert(out@ =~= year_text(utc.year as int));
    out.push('-');
    push_two_digits(&mut out, utc.month);
    out.push('-');
    push_two_digits(&mut out, utc.day);
    out.push('T');
    push_two_digits(&mut out, utc.hour);
    out.push(':');
    push_two_digits(&mut out, utc.minute);
    out.push(':');
    push_two_digits(&mut out, utc.second);
    out.push('Z');
    assert(out@ =~= iso_utc_text(*utc));
    out
}

/// The date and time of `instant` in UTC, as the journaling program reads it.
pub open spec fn iso_date_of(instant: int) -> Seq<char> {
    match utc_civil_of(instant) {
        Some(utc) => iso_utc_text(utc),
        None => Seq::empty(),
    }
}

/// Writes an instant as its UTC date and time, in the form
/// `1970-01-01T00:00:01Z`.
pub fn format_datetime(datetime: Timestamp) -> (out: String)
    ensures
        utc_civil_of(datetime@) is Some,
        out@ == iso_date_of(datetime@),
{
    let utc = datetime.to_utc();
    format_civil(&utc)
}

/// A list behind its flag, or nothing where the list is empty.
pub open spec fn list_option(flag: Seq<char>, items: Seq<Seq<char>>) -> Seq<Seq<char>> {
    if items.len() > 0 {
        seq![flag] + items
    } else {
        Seq::empty()
    }
}

/// A value behind its flag, or nothing where there is no value.
pub open spec fn value_option(flag: Seq<char>, value: Option<Seq<char>>) -> Seq<Seq<char>> {
    match value {
        Some(v) => seq![flag, v],
        None => Seq::empty(),
    }
}

/// A flag that is there or is not.
pub open spec fn switch_option(flag: Seq<char>, on: bool) -> Seq<Seq<char>> {
    if on {
        seq![flag]
    } else {
        Seq::empty()
    }
}

/// The options that go before the command: the attachments, the tags, the
/// journal, the date and the star, in this order.
pub open spec fn options_of(
    attachments: Seq<Seq<char>>,
    tags: Seq<Seq<char>>,
    journal: Option<Seq<char>>,
    iso_date: Option<Seq<char>>,
    starred: bool,
) -> Seq<Seq<char>> {
    list_option("--attachments"@, attachments) + list_option("--tags"@, tags) + value_option(
        "--journal"@,
        journal,
    ) + value_option("--isoDate"@, iso_date) + switch_option("--starred"@, starred)
}

/// The whole command line: the options, `--` where there are any, then the
/// command `new` and the text of the entry.
pub open spec fn args_of(options: Seq<Seq<char>>, content: Seq<char>) -> Seq<Seq<char>> {
    (if options.len() > 0 {
        options.push("--"@)
    } else {
        options
    }) + seq!["new"@, content]
}

/// The characters of the string in `text`, where there is one.
pub open spec fn text_of(text: Option<String>) -> Option<Seq<char>> {
    match text {
        Some(s) => Some(s@),
        None => None,
    }
}

/// The date argument of the instant in `datetime`, where there is one.
pub open spec fn iso_date_arg(datetime: Option<Timestamp>) -> Option<Seq<char>> {
    match datetime {
        Some(instant) => Some(iso_date_of(instant@)),
        None => None,
    }
}

/// What the tag of a mood begins with.
pub const MOOD_TAG_PREFIX: &'static str = "mood/";

/// The tag of every entry that comes from a note.
pub const ORIGIN_TAG: &'static str = "from-notion";

/// The tag that files an entry under its mood: the prefix and the mood's code.
pub fn mood_tag(mood: Mood) -> (tag: String)
    ensures
        tag@ == MOOD_TAG_PREFIX@ + code_of_mood(mood),
{
    let mut tag = MOOD_TAG_PREFIX.to_owned();
    tag.append(mood.code());
    tag
}

/// The tags of the entry made from a note of the given mood.
pub fn entry_tags(mood: Mood) -> (tags: Vec<String>)
    ensures
        texts(tags@) == seq![MOOD_TAG_PREFIX@ + code_of_mood(mood), ORIGIN_TAG@],
{
    let mut tags: Vec<String> = Vec::new();
    tags.push(mood_tag(mood));
    tags.push(ORIGIN_TAG.to_owned());
    assert(texts(tags@) =~= seq![MOOD_TAG_PREFIX@ + code_of_mood(mood), ORIGIN_TAG@]);
    tags
}

/// Appends one argument.
fn push_arg(args: &mut Vec<String>, arg: String)
    ensures
        texts(final(args)@) == texts(old(args)@).push(arg@),
{
    args.push(arg);
    assert(texts(args@) =~= texts(old(args)@).push(arg@));
}

/// Appends a list behind its flag, where the list is not empty.
fn push_list(args: &mut Vec<String>, flag: &str, items: Vec<String>)
    ensures
        texts(final(args)@) == texts(old(args)@) + list_option(flag@, texts(items@)),
{
    let ghost item_texts = texts(items@);
    let mut items = items;
    if !items.is_empty() {
        args.push(flag.to_owned());
        args.append(&mut items);
    }
    assert(texts(args@) =~= texts(old(args)@) + list_option(flag@, item_texts));
}

/// Appends a value behind its flag, where there is a value.
fn push_value(args: &mut Vec<String>, flag: &str, value: Option<String>)
    ensures
        texts(final(args)@) == texts(old(args)@) + value_option(flag@, text_of(value)),
{
    if let Some(value) = value {
        args.push(flag.to_owned());
        args.push(value);
    }
    assert(texts(args@) =~= texts(old(args)@) + value_option(flag@, text_of(value)));
}

/// Lays out the arguments that create one entry. `attachments` holds the
/// paths as the journaling program is to open them.
pub fn make_args(
    content: String,
    attachments: Vec<String>,
    tags: Vec<String>,
    journal: Option<String>,
    datetime: Option<Timestamp>,
    starred: bool,
) -> (args: Vec<String>)
    ensures
        texts(args@) == args_of(
            options_of(
                texts(attachments@),
                texts(tags@),
                text_of(journal),
                iso_date_arg(datetime),
                starred,
            ),
            content@,
        ),
{
    let mut args: Vec<String> = Vec::new();
    assert(texts(args@) =~= Seq::empty());
    push_list(&mut args, "--attachments", attachments);
    push_list(&mut args, "--tags", tags);
    push_value(&mut args, "--journal", journal);
    let iso_date = match datetime {
        Some(datetime) => Some(format_datetime(datetime)),
        None => None,
    };
    push_value(&mut args, "--isoDate", iso_date);
    if starred {
        push_arg(&mut args, "--starred".to_owned());
    }
    let ghost options = options_of(
        texts(attachments@),
        texts(tags@),
        text_of(journal),
        iso_date_arg(datetime),
        starred,
    );
    assert(texts(args@) =~= options);
    if !args.is_empty() {
        push_arg(&mut args, "--".to_owned());
    }
    push_arg(&mut args, "new".to_owned());
    push_arg(&mut args, content);
    assert(texts(args@) =~= args_of(options, content@));
    args
}

} // verus!
