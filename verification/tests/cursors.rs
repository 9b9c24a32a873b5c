use subnet_lease::cursor::{get_next_index, Cursor, WatchCursor};
use subnet_lease::error::ManagerError;
use subnet_lease::text::parse_i64;

fn next(text: &str) -> Result<i64, ManagerError> {
    get_next_index(&Cursor::Str(text.to_string()))
}

#[test]
fn next_index_of_a_revision() {
    assert_eq!(get_next_index(&Cursor::Cursor(WatchCursor { index: 41 })), Ok(42));
    assert_eq!(get_next_index(&Cursor::Cursor(WatchCursor { index: -1 })), Ok(0));
}

#[test]
fn next_index_of_a_text() {
    assert_eq!(next("41"), Ok(42));
    assert_eq!(next("-7"), Ok(-6));
    assert_eq!(next("+0041"), Ok(42));
    assert_eq!(next("9223372036854775806"), Ok(i64::MAX));
}

#[test]
fn default_cursor_is_before_all_history() {
    assert_eq!(Cursor::default(), Cursor::Str("0".to_string()));
    assert_eq!(get_next_index(&Cursor::default()), Ok(1));
    assert_eq!(WatchCursor::default(), WatchCursor { index: 0 });
}

#[test]
fn text_that_is_no_number_is_refused() {
    let err = next("12a").unwrap_err();
    assert_eq!(err, ManagerError::BadCursor("12a".to_string()));
    assert_eq!(err.message(), "failed to parse cursor string: 12a");
}

#[test]
fn integers_are_read_as_the_standard_library_reads_them() {
    let texts = [
        "", "+", "-", "0", "-0", "+0", "007", "12", " 12", "12 ", "1_2", "--1", "+-1", "1-", "12x",
        "\u{663}", "9223372036854775807", "9223372036854775808", "-9223372036854775808",
        "-9223372036854775809", "+9223372036854775807", "99999999999999999999999999999999999999999",
        "-99999999999999999999999999999999999999999", "000000000000000000000000000000000000000001",
    ];
    for text in texts {
        assert_eq!(parse_i64(text), text.parse::<i64>().ok(), "{:?}", text);
    }
}

#[test]
fn cursors_of_one_revision_agree() {
    for index in [0i64, 1, 9, 10, 4711, i64::MAX - 1] {
        assert_eq!(
            get_next_index(&Cursor::Cursor(WatchCursor { index })),
            next(&index.to_string())
        );
    }
}
