use notion_to_day_one::day_one::{entry_tags, format_civil, format_datetime, make_args, mood_tag};
use notion_to_day_one::notion::Mood;
use notion_to_day_one::timestamp::{CivilTime, Timestamp};

#[test]
fn test_datetime_format() {
    assert_eq!(
        format_datetime(Timestamp::from_unix_timestamp(1).unwrap()),
        "1970-01-01T00:00:01Z"
    )
}

#[test]
fn test_all() {
    assert_eq!(
        make_args(
            "Entry content".to_owned(),
            vec!["/bin/bash".to_owned(), "/bin/sh".to_owned()],
            vec!["tag1".to_owned(), "tag2".to_owned()],
            Some("Journal".to_owned()),
            Some(Timestamp::from_unix_timestamp(1).unwrap()),
            true
        ),
        vec![
            "--attachments",
            "/bin/bash",
            "/bin/sh",
            "--tags",
            "tag1",
            "tag2",
            "--journal",
            "Journal",
            "--isoDate",
            "1970-01-01T00:00:01Z",
            "--starred",
            "--",
            "new",
            "Entry content"
        ]
    )
}

#[test]
fn no_options_leave_the_command_alone() {
    assert_eq!(
        make_args("text".to_owned(), vec![], vec![], None, None, false),
        vec!["new", "text"]
    );
}

#[test]
fn each_option_brings_the_separator() {
    assert_eq!(
        make_args("t".to_owned(), vec![], vec![], None, None, true),
        vec!["--starred", "--", "new", "t"]
    );
    assert_eq!(
        make_args("t".to_owned(), vec![], vec!["a".to_owned()], None, None, false),
        vec!["--tags", "a", "--", "new", "t"]
    );
    assert_eq!(
        make_args("t".to_owned(), vec!["p".to_owned()], vec![], None, None, false),
        vec!["--attachments", "p", "--", "new", "t"]
    );
    assert_eq!(
        make_args("t".to_owned(), vec![], vec![], Some("J".to_owned()), None, false),
        vec!["--journal", "J", "--", "new", "t"]
    );
    assert_eq!(
        make_args(
            "t".to_owned(),
            vec![],
            vec![],
            None,
            Some(Timestamp::from_unix_timestamp(60).unwrap()),
            false
        ),
        vec!["--isoDate", "1970-01-01T00:01:00Z", "--", "new", "t"]
    );
}

#[test]
fn dates_are_written_in_utc() {
    let format = |seconds: i64| format_datetime(Timestamp::from_unix_timestamp(seconds).unwrap());
    assert_eq!(format(0), "1970-01-01T00:00:00Z");
    assert_eq!(format(-1), "1969-12-31T23:59:59Z");
    assert_eq!(format(1_546_300_800), "2019-01-01T00:00:00Z");
    assert_eq!(format(951_782_400), "2000-02-29T00:00:00Z");
    assert_eq!(format(253_402_300_799), "9999-12-31T23:59:59Z");
    assert_eq!(format(-62_167_219_200), "0000-01-01T00:00:00Z");
    assert_eq!(format(-62_167_219_201), "-0001-12-31T23:59:59Z");
    assert_eq!(format(-377_705_116_800), "-9999-01-01T00:00:00Z");
}

#[test]
fn format_civil_pads_with_zeros() {
    let utc = CivilTime { year: 7, month: 3, day: 9, hour: 4, minute: 5, second: 6 };
    assert_eq!(format_civil(&utc), "0007-03-09T04:05:06Z");
    let utc = CivilTime { year: -45, month: 12, day: 31, hour: 23, minute: 59, second: 59 };
    assert_eq!(format_civil(&utc), "-0045-12-31T23:59:59Z");
}

#[test]
fn tags_name_the_mood_and_the_origin() {
    assert_eq!(mood_tag(Mood::Unrated), "mood/-1");
    assert_eq!(mood_tag(Mood::Level1), "mood/1");
    assert_eq!(mood_tag(Mood::Level5), "mood/5");
    assert_eq!(entry_tags(Mood::Level3), vec!["mood/3", "from-notion"]);
}

#[test]
fn codes_read_back_as_their_moods() {
    for mood in [
        Mood::Unrated,
        Mood::Level1,
        Mood::Level2,
        Mood::Level3,
        Mood::Level4,
        Mood::Level5,
    ] {
        assert_eq!(Mood::from_str(mood.code()), Ok(mood));
    }
    assert_eq!(Mood::Unrated.code(), "-1");
    assert_eq!(Mood::Level4.code(), "4");
}
