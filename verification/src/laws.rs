//! What holds of every document, whatever it says.

use vstd::prelude::*;
use crate::error::{FormatError, ParseError, ReferenceError, ValueError};
use crate::notion::{
    attachment_path, attachments_of, code_of_mood, is_attachment_line, joined, mood_of_code,
    outcome, parse_document, reference_count, rewritten, rewritten_line, timestamp_of_line, Mood,
    MoodLog, MoodRecord, DATE_PREFIX, HEADER_LINES, MOOD_PREFIX, PLACEHOLDER,
};
use crate::text::{
    lemma_occurrences_across_line_feed, lemma_occurs_once_in_itself, lines, occurrences, trimmed,
};

verus! {

/// The body lines of a document: all that follow its header.
pub open spec fn body_lines(content: Seq<char>) -> Seq<Seq<char>> {
    lines(content).skip(HEADER_LINES as int)
}

/// Whether the placeholder occurs in no line of `body` but the reference lines.
pub open spec fn placeholder_is_fresh(body: Seq<Seq<char>>) -> bool {
    forall|i: int|
        0 <= i < body.len() && !is_attachment_line(#[trigger] body[i]) ==> occurrences(
            body[i],
            PLACEHOLDER@,
        ) == 0
}

/// The placeholder is not empty and holds no line feed.
proof fn lemma_placeholder_shape()
    ensures
        PLACEHOLDER@.len() > 0,
        !PLACEHOLDER@.contains('\n'),
{
    reveal_strlit("[{attachment}]");
    assert forall|i: int| 0 <= i < PLACEHOLDER@.len() implies PLACEHOLDER@[i] != '\n' by {}
}

/// A body that parses names as many paths as it has reference lines.
proof fn lemma_path_count(body: Seq<Seq<char>>)
    requires
        attachments_of(body) is Ok,
    ensures
        attachments_of(body)->Ok_0.len() == reference_count(body),
    decreases body.len(),
{
    if body.len() > 0 {
        lemma_path_count(body.drop_last());
    }
}

proof fn lemma_placeholder_count(body: Seq<Seq<char>>)
    requires
        attachments_of(body) is Ok,
        placeholder_is_fresh(body),
    ensures
        occurrences(joined(rewritten(body)), PLACEHOLDER@) == reference_count(body),
    decreases body.len(),
{
    lemma_placeholder_shape();
    lemma_occurs_once_in_itself(PLACEHOLDER@);
    if body.len() > 0 {
        let front = body.drop_last();
        let last = body.last();
        assert(rewritten(body).drop_last() =~= rewritten(front));
        assert(rewritten(body).last() == rewritten_line(last));
        assert(occurrences(rewritten_line(last), PLACEHOLDER@) == (if is_attachment_line(last) {
            1nat
        } else {
            0nat
        })) by {
            assert(body[body.len() - 1] == last);
        }
        if body.len() > 1 {
            assert forall|i: int|
                0 <= i < front.len() && !is_attachment_line(
                    #[trigger] front[i],
                ) implies occurrences(front[i], PLACEHOLDER@) == 0 by {
                assert(front[i] == body[i]);
            }
            lemma_placeholder_count(front);
            lemma_occurrences_across_line_feed(
                joined(rewritten(front)),
                rewritten_line(last),
                PLACEHOLDER@,
            );
        } else {
            assert(front.len() == 0);
            assert(reference_count(front) == 0);
        }
    } else {
        assert(rewritten(body).len() == 0);
    }
}

proof fn lemma_path_of_reference_line(body: Seq<Seq<char>>, i: int)
    requires
        attachments_of(body) is Ok,
        0 <= i < body.len(),
        is_attachment_line(body[i]),
    ensures
        reference_count(body.take(i)) < attachments_of(body)->Ok_0.len(),
        attachment_path(trimmed(body[i])) == Ok::<Seq<char>, ReferenceError>(
            attachments_of(body)->Ok_0[reference_count(body.take(i)) as int],
        ),
    decreases body.len(),
{
    let front = body.drop_last();
    lemma_path_count(front);
    if i == body.len() - 1 {
        assert(body.take(i) =~= front);
    } else {
        assert(front.take(i) =~= body.take(i));
        assert(front[i] == body[i]);
        lemma_path_of_reference_line(front, i);
    }
}

/// The placeholder occurs in the body as often as there are attachments,
/// for every document in which no other body line holds the placeholder.
pub proof fn lemma_placeholders_count_attachments(content: Seq<char>, record: MoodRecord)
    requires
        parse_document(content) == Ok::<MoodRecord, ParseError>(record),
        placeholder_is_fresh(body_lines(content)),
    ensures
        occurrences(record.body, PLACEHOLDER@) == record.attachments.len(),
{
    lemma_placeholder_count(body_lines(content));
    lemma_path_count(body_lines(content));
}

/// Attachments come in the order of the reference lines: a reference line
/// that has `k` reference lines before it stands as a placeholder in the
/// body, and the attachment at index `k` is the path that it names.
pub proof fn lemma_attachments_follow_reference_lines(
    content: Seq<char>,
    record: MoodRecord,
    i: int,
)
    requires
        parse_document(content) == Ok::<MoodRecord, ParseError>(record),
        0 <= i < body_lines(content).len(),
        is_attachment_line(body_lines(content)[i]),
    ensures
        record.attachments.len() == reference_count(body_lines(content)),
        reference_count(body_lines(content).take(i)) < record.attachments.len(),
        attachment_path(trimmed(body_lines(content)[i])) == Ok::<Seq<char>, ReferenceError>(
            record.attachments[reference_count(body_lines(content).take(i)) as int],
        ),
        rewritten(body_lines(content))[i] == PLACEHOLDER@,
{
    lemma_path_count(body_lines(content));
    lemma_path_of_reference_line(body_lines(content), i);
}

/// The body is the body lines joined by line feeds, each line as it stood,
/// white space included, but for the reference lines: of those nothing stays,
/// and the bare placeholder takes the place of each.
pub proof fn lemma_body_keeps_other_lines(content: Seq<char>, record: MoodRecord)
    requires
        parse_document(content) == Ok::<MoodRecord, ParseError>(record),
    ensures
        record.body == joined(rewritten(body_lines(content))),
        rewritten(body_lines(content)).len() == body_lines(content).len(),
        forall|i: int|
            0 <= i < body_lines(content).len() ==> #[trigger] rewritten(body_lines(content))[i]
                == (if is_attachment_line(body_lines(content)[i]) {
                PLACEHOLDER@
            } else {
                body_lines(content)[i]
            }),
{
}

/// Reading is a function of the text: two readings of one document agree in
/// every field, or report the same fault.
pub proof fn lemma_reading_is_unique(
    content: Seq<char>,
    first: Result<MoodLog, ParseError>,
    second: Result<MoodLog, ParseError>,
)
    requires
        outcome(first) == parse_document(content),
        outcome(second) == parse_document(content),
    ensures
        outcome(first) == outcome(second),
        first is Ok ==> second is Ok && first->Ok_0@.timestamp == second->Ok_0@.timestamp
            && first->Ok_0@.mood == second->Ok_0@.mood && first->Ok_0@.body == second->Ok_0@.body
            && first->Ok_0@.attachments == second->Ok_0@.attachments,
        first is Err ==> second is Err && first->Err_0 == second->Err_0,
{
}

/// A document of fewer than six lines, or one whose third line lacks the
/// date label, gives a format error and no record.
pub proof fn lemma_header_faults_are_format_errors(content: Seq<char>)
    requires
        lines(content).len() < HEADER_LINES || !DATE_PREFIX@.is_prefix_of(lines(content)[2]),
    ensures
        parse_document(content) is Err,
        parse_document(content)->Err_0 is Format,
        lines(content).len() < HEADER_LINES ==> parse_document(content) == Err::<
            MoodRecord,
            ParseError,
        >(ParseError::Format(FormatError::MissingHeaderLines)),
        lines(content).len() >= HEADER_LINES ==> parse_document(content) == Err::<
            MoodRecord,
            ParseError,
        >(ParseError::Format(FormatError::MissingDatePrefix)),
{
}

/// Each mood has one code, and no other text stands for it.
pub proof fn lemma_mood_codes(mood: Mood, code: Seq<char>)
    ensures
        mood_of_code(code_of_mood(mood)) == Some(mood),
        mood_of_code(code) == Some(mood) ==> code == code_of_mood(mood),
{
    reveal_strlit("-1");
    reveal_strlit("1");
    reveal_strlit("2");
    reveal_strlit("3");
    reveal_strlit("4");
    reveal_strlit("5");
    assert("1"@[0] == '1');
    assert("2"@[0] == '2');
    assert("3"@[0] == '3');
    assert("4"@[0] == '4');
    assert("5"@[0] == '5');
}

/// The mood of a record is the one that the code on the mood line stands
/// for, and a document whose code stands for none gives no record: where the
/// date line is in order, it gives a value error.
pub proof fn lemma_mood_is_read_or_refused(content: Seq<char>)
    requires
        lines(content).len() >= HEADER_LINES,
        MOOD_PREFIX@.is_prefix_of(lines(content)[3]),
    ensures
        parse_document(content) matches Ok(record) ==> mood_of_code(
            lines(content)[3].skip(MOOD_PREFIX@.len() as int),
        ) == Some(record.mood),
        mood_of_code(lines(content)[3].skip(MOOD_PREFIX@.len() as int)) is None ==> parse_document(
            content,
        ) is Err,
        mood_of_code(lines(content)[3].skip(MOOD_PREFIX@.len() as int)) is None
            && timestamp_of_line(lines(content)[2]) is Ok ==> parse_document(content) == Err::<
            MoodRecord,
            ParseError,
        >(ParseError::Value(ValueError::Mood)),
{
}

} // verus!
