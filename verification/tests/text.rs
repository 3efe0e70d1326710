use mfinance::order::text_less_or_equal;
use mfinance::starts_with;
use mfinance::text::{i32_text, pad_left, push_decimal, push_repeated, push_str};
use mfinance::tui::input::{apply_edit, Edit};
use mfinance::tui::screen::{compose_line, error_line, make_line, make_title, mark_of, Field};
use mfinance::tui::{command, next_index_cycled, previous_index_cycled, Command, Focus, Key, PopupFocus, PopupMode};

#[test]
fn pad_left_fills_with_blanks() {
    assert_eq!(pad_left("abc", 5), "  abc");
    assert_eq!(pad_left("abc", 3), "abc");
    assert_eq!(pad_left("abc", 2), "abc");
    assert_eq!(pad_left("", 2), "  ");
    assert_eq!(pad_left("", 0), "");
    // The width counts characters, not bytes.
    assert_eq!(pad_left("€1", 4), "  €1");
}

#[test]
fn numbers_in_digits() {
    assert_eq!(i32_text(0), "0");
    assert_eq!(i32_text(7), "7");
    assert_eq!(i32_text(2024), "2024");
    assert_eq!(i32_text(-1), "-1");
    assert_eq!(i32_text(i32::MAX), "2147483647");
    assert_eq!(i32_text(i32::MIN), "-2147483648");
    let mut out = String::from("n=");
    push_decimal(&mut out, 0);
    push_decimal(&mut out, 10);
    push_decimal(&mut out, u64::MAX);
    assert_eq!(out, "n=01018446744073709551615");
    push_repeated(&mut out, '!', 3);
    push_repeated(&mut out, '?', 0);
    push_str(&mut out, " ok");
    assert_eq!(out, "n=01018446744073709551615!!! ok");
}

#[test]
fn texts_in_order() {
    assert!(text_less_or_equal("", ""));
    assert!(text_less_or_equal("", "a"));
    assert!(!text_less_or_equal("a", ""));
    assert!(text_less_or_equal("2024-09-11", "2024-10-01"));
    assert!(!text_less_or_equal("2024-10-01", "2024-09-11"));
    assert!(text_less_or_equal("2024-10-01", "2024-10-01"));
    assert!(text_less_or_equal("2024", "2024-10-01"));
    assert!(!text_less_or_equal("2024-10-01", "2024"));
    assert!(text_less_or_equal("Z", "a"));
    assert!(text_less_or_equal("z", "é"));
    assert!(text_less_or_equal("é", "€"));
    assert!(!text_less_or_equal("😀", "€"));
    for (a, b) in [("a", "b"), ("ab", "a"), ("é", "z"), ("", "x"), ("10", "9")] {
        assert_eq!(text_less_or_equal(a, b), a <= b);
        assert_eq!(text_less_or_equal(b, a), b <= a);
    }
}

#[test]
fn prefixes() {
    assert!(starts_with("2024-10-01", "2024"));
    assert!(starts_with("2024-10-01", ""));
    assert!(starts_with("2024-10-01", "2024-10-01"));
    assert!(!starts_with("2024-10-01", "2024-10-011"));
    assert!(!starts_with("2024-10-01", "024"));
    assert!(!starts_with("", "2"));
    assert!(starts_with("", ""));
    assert!(starts_with("é€", "é"));
    assert!(!starts_with("é€", "e"));
}

#[test]
fn edits_at_the_end_of_a_line() {
    assert_eq!(apply_edit("", Edit::Insert('a')), "a");
    assert_eq!(apply_edit("2024-09-1", Edit::Insert('2')), "2024-09-12");
    assert_eq!(apply_edit("é", Edit::Insert('€')), "é€");
    assert_eq!(apply_edit("", Edit::DeletePrevious), "");
    assert_eq!(apply_edit("a", Edit::DeletePrevious), "");
    assert_eq!(apply_edit("2024-09-12", Edit::DeletePrevious), "2024-09-1");
    assert_eq!(apply_edit("é€", Edit::DeletePrevious), "é");
    // What the user sees as one character goes at once.
    assert_eq!(apply_edit("ae\u{301}", Edit::DeletePrevious), "a");
    assert_eq!(apply_edit("a\r\n", Edit::DeletePrevious), "a");
    assert_eq!(apply_edit("a🤦🏼\u{200d}♂\u{fe0f}", Edit::DeletePrevious), "a");
}

#[test]
fn lines_of_the_screen() {
    assert_eq!(make_line("savings.csv", "1\u{a0}500.00", true, true, 27), "▌savings.csv      1\u{a0}500.00 ");
    assert_eq!(make_line("savings.csv", "", false, true, 27), " savings.csv               ");
    assert_eq!(make_line("2024", "-175.75", true, false, 26), "▎2024             -175.75 ");
    assert_eq!(make_line("2024", "-175.75", false, false, 26), " 2024             -175.75 ");
    // Too narrow: nothing between the label and the value.
    assert_eq!(make_line("January 15", "-50.25", true, true, 5), "▌January 15-50.25 ");
    assert_eq!(make_line("", "", false, false, 0), "  ");
    assert_eq!(make_line("", "", false, false, 4), "    ");
    // A character two columns wide takes two of the width.
    assert_eq!(make_line("日本", "1", false, false, 10), " 日本   1 ");
    assert_eq!(make_line("ab", "1", false, false, 10), " ab     1 ");
    assert_eq!(make_title("Files"), " Files ");
    assert_eq!(make_title(""), "  ");
    assert_eq!(error_line("Invalid date format. Use YYYY-MM-DD"), " Error: Invalid date format. Use YYYY-MM-DD");
    let field = Field { label: "Date  ".to_string(), value: "2024-09-12".to_string(), focused: true };
    assert_eq!(field.line(), "▌Date    2024-09-12");
    let field = Field { label: "Amount".to_string(), value: String::new(), focused: false };
    assert_eq!(field.line(), " Amount  ");
}

#[test]
fn cycled_indices() {
    assert_eq!(next_index_cycled(0, 3), 1);
    assert_eq!(next_index_cycled(1, 3), 2);
    assert_eq!(next_index_cycled(2, 3), 0);
    assert_eq!(previous_index_cycled(0, 3), 2);
    assert_eq!(previous_index_cycled(2, 3), 1);
    assert_eq!(previous_index_cycled(1, 3), 0);
    assert_eq!(next_index_cycled(0, 1), 0);
    assert_eq!(previous_index_cycled(0, 1), 0);
    assert_eq!(next_index_cycled(0, 0), 0);
    assert_eq!(previous_index_cycled(0, 0), 0);
    assert_eq!(next_index_cycled(5, 0), 5);
    assert_eq!(previous_index_cycled(5, 0), 5);
    assert_eq!(next_index_cycled(7, 3), 0);
    assert_eq!(previous_index_cycled(7, 3), 2);
    assert_eq!(previous_index_cycled(usize::MAX, 3), 2);
    assert_eq!(previous_index_cycled(3, 3), 2);
    assert_eq!(next_index_cycled(usize::MAX, usize::MAX), 0);
    assert_eq!(next_index_cycled(usize::MAX, 3), 0);
    for count in 2..6usize {
        for index in 0..count {
            assert_eq!(previous_index_cycled(next_index_cycled(index, count), count), index);
            assert_eq!(next_index_cycled(previous_index_cycled(index, count), count), index);
        }
    }
}

#[test]
fn focus_goes_round() {
    assert_eq!(Focus::Files.next(), Focus::Years);
    assert_eq!(Focus::Years.next(), Focus::YearDetails);
    assert_eq!(Focus::YearDetails.next(), Focus::Files);
    for focus in [Focus::Files, Focus::Years, Focus::YearDetails] {
        assert_eq!(focus.next().next().next(), focus);
    }
    assert_eq!(PopupFocus::Date.other(), PopupFocus::Amount);
    assert_eq!(PopupFocus::Amount.other(), PopupFocus::Date);
}

#[test]
fn keys_and_commands() {
    let closed = PopupMode::Inactive;
    assert_eq!(command(closed, Key::Char('q')), Command::Quit);
    assert_eq!(command(closed, Key::Char('a')), Command::OpenAdd);
    assert_eq!(command(closed, Key::Char('n')), Command::OpenAdd);
    assert_eq!(command(closed, Key::Char('e')), Command::OpenEdit);
    assert_eq!(command(closed, Key::Char('j')), Command::Next);
    assert_eq!(command(closed, Key::Down), Command::Next);
    assert_eq!(command(closed, Key::Char('k')), Command::Previous);
    assert_eq!(command(closed, Key::Up), Command::Previous);
    assert_eq!(command(closed, Key::Tab), Command::CycleFocus);
    assert_eq!(command(closed, Key::Enter), Command::Ignore);
    assert_eq!(command(closed, Key::Backspace), Command::Ignore);
    assert_eq!(command(closed, Key::Char('x')), Command::Ignore);
    assert_eq!(command(closed, Key::Other), Command::Ignore);
    for open in [PopupMode::AddEntry, PopupMode::EditEntry] {
        assert_eq!(command(open, Key::Char('q')), Command::ClosePopup);
        assert_eq!(command(open, Key::Tab), Command::CycleField);
        assert_eq!(command(open, Key::Enter), Command::Confirm);
        assert_eq!(command(open, Key::Backspace), Command::Type);
        assert_eq!(command(open, Key::Char('a')), Command::Type);
        assert_eq!(command(open, Key::Char('5')), Command::Type);
        assert_eq!(command(open, Key::Up), Command::Ignore);
        assert_eq!(command(open, Key::Down), Command::Ignore);
        assert_eq!(command(open, Key::Other), Command::Ignore);
    }
}

#[test]
fn lines_of_given_widths() {
    // 20 columns, of which 5 + 3 + 1 + 1 are taken: ten blanks between.
    assert_eq!(compose_line("label", "1.0", false, false, 20, 5, 3, 1, 1), " label          1.0 ");
    assert_eq!(compose_line("label", "1.0", true, true, 20, 5, 3, 1, 1), "▌label          1.0 ");
    assert_eq!(compose_line("label", "1.0", true, false, 20, 5, 3, 1, 1), "▎label          1.0 ");
    // A label said to be twice as wide leaves five blanks fewer.
    assert_eq!(compose_line("label", "1.0", false, false, 20, 10, 3, 1, 1), " label     1.0 ");
    // Nothing is left, or less than nothing: no blanks.
    assert_eq!(compose_line("label", "1.0", false, false, 10, 5, 3, 1, 1), " label1.0 ");
    assert_eq!(compose_line("label", "1.0", false, false, 9, 5, 3, 1, 1), " label1.0 ");
    assert_eq!(compose_line("label", "1.0", false, false, 0, 5, 3, 1, 1), " label1.0 ");
    assert_eq!(
        compose_line("a", "b", false, false, 3, usize::MAX, usize::MAX, usize::MAX, usize::MAX),
        " ab "
    );
    assert_eq!(compose_line("", "", false, false, 5, 0, 0, 0, 0), "       ");
    assert_eq!(mark_of(true, true), "▌");
    assert_eq!(mark_of(true, false), "▎");
    assert_eq!(mark_of(false, true), " ");
    assert_eq!(mark_of(false, false), " ");
}
