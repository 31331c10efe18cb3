use websocket_producer::records::split_records;

fn owned(pieces: &[&str]) -> Vec<String> {
    pieces.iter().map(|piece| piece.to_string()).collect()
}

#[test]
fn splits_at_line_feeds() {
    assert_eq!(split_records("a\nb"), owned(&["a", "b"]));
    assert_eq!(
        split_records("first line\nsecond line\nthird"),
        owned(&["first line", "second line", "third"])
    );
}

#[test]
fn trailing_line_feed_gives_trailing_empty_record() {
    assert_eq!(split_records("a\nb\n"), owned(&["a", "b", ""]));
}

#[test]
fn empty_text_is_one_empty_record() {
    assert_eq!(split_records(""), owned(&[""]));
}

#[test]
fn text_without_line_feed_is_one_record() {
    assert_eq!(split_records("only"), owned(&["only"]));
}

#[test]
fn empty_records_are_kept_where_they_stand() {
    assert_eq!(split_records("\n"), owned(&["", ""]));
    assert_eq!(split_records("\n\n"), owned(&["", "", ""]));
    assert_eq!(split_records("a\n\nb"), owned(&["a", "", "b"]));
    assert_eq!(split_records("\na"), owned(&["", "a"]));
}

#[test]
fn carriage_returns_and_blanks_are_not_trimmed() {
    assert_eq!(split_records("a\r\nb \n c"), owned(&["a\r", "b ", " c"]));
}

#[test]
fn characters_of_several_bytes_stay_whole() {
    assert_eq!(split_records("é\nüß\n∑"), owned(&["é", "üß", "∑"]));
}

#[test]
fn record_count_is_line_feeds_plus_one() {
    for text in ["", "x", "\n", "a\nb\nc\nd", "\n\n\n\n", "tail\n"] {
        let feeds = text.chars().filter(|c| *c == '\n').count();
        assert_eq!(split_records(text).len(), feeds + 1);
    }
}

#[test]
fn no_record_holds_a_line_feed() {
    for record in split_records("one\ntwo\n\nthree\n") {
        assert!(!record.contains('\n'));
    }
}

#[test]
fn joining_the_records_gives_the_text_back() {
    for text in ["", "x", "\n", "a\nb", "a\nb\n", "\n\na\n\n", "{\"k\": 1}\n{\"k\": 2}\n"] {
        assert_eq!(split_records(text).join("\n"), text);
    }
}

#[test]
fn agrees_with_splitting_by_the_standard_library() {
    for text in ["", "x", "\n", "a\nb", "a\nb\n", "\n\na\n\n", "α\nβ\r\nγ"] {
        let expected: Vec<String> = text.split("\n").map(String::from).collect();
        assert_eq!(split_records(text), expected);
    }
}
