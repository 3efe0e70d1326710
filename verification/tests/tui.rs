use mfinance::amount::Amount;
use mfinance::date::Date;
use mfinance::number_formatter::FormatOptions;
use mfinance::replace_first_match;
use mfinance::tui::screen::{make_line, make_title, Panel, Screen};
use mfinance::tui::{Action, App, File, Key};
use mfinance::Entry;

/// The three ledgers of the fixture, held in memory, and the keys run on them.
struct TuiTestFixture {
    names: Vec<String>,
    ledgers: Vec<Vec<Entry>>,
}

/// The entries of a ledger file's text, read as the ledger reader reads them.
fn ledger(text: &str) -> Vec<Entry> {
    let mut reader = csv::ReaderBuilder::new().delimiter(b';').from_reader(text.as_bytes());
    reader
        .deserialize::<(String, rust_decimal::Decimal)>()
        .map(|record| {
            let (date, amount) = record.expect("a record");
            Entry {
                date,
                amount: Amount::new(amount.mantissa(), amount.scale()).expect("an amount"),
            }
        })
        .collect()
}

fn today() -> Date {
    Date::new(2024, 9, 12).expect("a date")
}

impl TuiTestFixture {
    fn new() -> Self {
        TuiTestFixture {
            names: vec![
                "expenses.csv".to_string(),
                "income.csv".to_string(),
                "savings.csv".to_string(),
            ],
            ledgers: vec![
                ledger(
                    "date;amount\n2024-01-15;-50.25\n2024-02-20;-100.00\n2024-03-10;-25.50\n2025-01-05;-75.75\n",
                ),
                ledger(
                    "date;amount\n2024-01-01;2000.00\n2024-02-01;2000.00\n2024-03-01;2000.00\n2025-01-01;2000.00\n",
                ),
                ledger("date;amount\n2024-06-15;500.00\n2024-12-31;1000.00\n"),
            ],
        }
    }

    /// Runs the keys and returns the state they lead to.
    fn run_with_events(&mut self, events: Vec<Vec<Key>>) -> App {
        let files = self.names.iter().map(|name| File { name: name.clone() }).collect();
        let (mut app, refused) =
            App::new(files, FormatOptions::default(), self.ledgers.first().cloned());
        assert!(refused.is_none());
        for key in events.into_iter().flatten() {
            match app.handle_key(key, &today()) {
                Action::Redraw => {}
                Action::Quit => break,
                Action::LoadFile { file } => {
                    assert!(app.file_loaded(Some(self.ledgers[file].clone())).is_none());
                }
                Action::AppendEntry { file, entry } => {
                    self.ledgers[file].push(entry);
                    assert!(app.save_finished(Ok(Some(self.ledgers[file].clone()))).is_none());
                }
                Action::ReplaceEntry { file, target, replacement } => {
                    replace_first_match(&mut self.ledgers[file], &target, replacement);
                    assert!(app.save_finished(Ok(Some(self.ledgers[file].clone()))).is_none());
                }
            }
        }
        app
    }
}

fn press_down() -> Vec<Key> {
    vec![Key::Down]
}

fn press_up() -> Vec<Key> {
    vec![Key::Up]
}

fn press_tab() -> Vec<Key> {
    vec![Key::Tab]
}

fn press_backspace() -> Vec<Key> {
    vec![Key::Backspace]
}

fn press_enter() -> Vec<Key> {
    vec![Key::Enter]
}

fn press_add_entry() -> Vec<Key> {
    vec![Key::Char('a')]
}

fn press_edit_entry() -> Vec<Key> {
    vec![Key::Char('e')]
}

fn press_close_popup() -> Vec<Key> {
    vec![Key::Char('q')]
}

fn type_text(s: &str) -> Vec<Key> {
    s.chars().map(Key::Char).collect()
}

fn repeat(events: Vec<Key>, n_times: usize) -> Vec<Key> {
    let mut result: Vec<Key> = Vec::with_capacity(events.len() * n_times);
    for _ in 0..n_times {
        result.extend(events.iter().cloned());
    }
    result
}

/// The title of a panel and the text of its rows, in a panel `width` columns
/// wide inside its border. A panel in focus is marked by `=`.
fn drawn(panel: &Panel, width: usize) -> Vec<String> {
    let mut lines = vec![format!(
        "{}{}",
        if panel.focused { "=" } else { "-" },
        make_title(&panel.title)
    )];
    for row in &panel.rows {
        lines.push(make_line(&row.left, &row.right, row.selected, panel.focused, width));
    }
    lines
}

/// The three panels as an 86 column terminal lays them out.
fn panels(screen: &Screen) -> (Vec<String>, Vec<String>, Vec<String>) {
    (drawn(&screen.files, 27), drawn(&screen.years, 26), drawn(&screen.entries, 27))
}

/// The lines of the popup: its title, its fields, and the error line.
fn popup(screen: &Screen) -> Vec<String> {
    let overlay = screen.overlay.as_ref().expect("the popup is open");
    let mut lines = vec![overlay.title.clone()];
    for field in &overlay.fields {
        lines.push(field.line());
    }
    if let Some(message) = &overlay.error {
        lines.push(mfinance::tui::screen::error_line(message));
    }
    lines
}

/// The three panels as they stand at the start, behind an open popup: none
/// has the focus.
fn assert_first_ledger_behind_popup(screen: &Screen) {
    let (files, years, entries) = panels(screen);
    assert_eq!(
        files,
        vec![
            "- Files ",
            "▎expenses.csv      -251.50 ",
            " income.csv                ",
            " savings.csv               ",
        ]
    );
    assert_eq!(
        years,
        vec!["- expenses.csv ", " 2024             -175.75 ", "▎2025              -75.75 "]
    );
    assert_eq!(entries, vec!["- 2025 ", "▎January 5          -75.75 "]);
}

const NAVIGATION: &str = "↓(j)/↑(k): Navigate | Tab: Focus | a/e: Add/Edit Entry | q: Quit";
const POPUP: &str = "Tab: Switch Field | Enter: Save | q: Cancel";

#[test]
fn test_initial_display() {
    let mut fixture = TuiTestFixture::new();

    // Test initial state with no events
    let output = fixture.run_with_events(vec![]).screen();

    let (files, years, entries) = panels(&output);
    assert_eq!(
        files,
        vec![
            "= Files ",
            "▌expenses.csv      -251.50 ",
            " income.csv                ",
            " savings.csv               ",
        ]
    );
    assert_eq!(
        years,
        vec!["- expenses.csv ", " 2024             -175.75 ", "▎2025              -75.75 "]
    );
    assert_eq!(entries, vec!["- 2025 ", "▎January 5          -75.75 "]);
    assert_eq!(output.footer, NAVIGATION);
    assert!(output.overlay.is_none());
}

#[test]
fn test_down_or_j() {
    let mut fixture = TuiTestFixture::new();

    let output = fixture.run_with_events(vec![type_text("j"), press_down()]).screen();

    let (files, years, entries) = panels(&output);
    assert_eq!(
        files,
        vec![
            "= Files ",
            " expenses.csv              ",
            " income.csv                ",
            "▌savings.csv      1\u{a0}500.00 ",
        ]
    );
    assert_eq!(years, vec!["- savings.csv ", "▎2024            1\u{a0}500.00 "]);
    // A change of ledger puts the cursor on the last entry of the last year.
    assert_eq!(
        entries,
        vec!["- 2024 ", " June 15            500.00 ", "▎December 31      1\u{a0}000.00 "]
    );
    assert_eq!(output.footer, NAVIGATION);
}

#[test]
fn test_up_or_k() {
    let mut fixture = TuiTestFixture::new();

    let output = fixture.run_with_events(vec![type_text("k"), press_up()]).screen();

    let (files, years, entries) = panels(&output);
    assert_eq!(
        files,
        vec![
            "= Files ",
            " expenses.csv              ",
            "▌income.csv       8\u{a0}000.00 ",
            " savings.csv               ",
        ]
    );
    assert_eq!(
        years,
        vec![
            "- income.csv ",
            " 2024            6\u{a0}000.00 ",
            "▎2025            2\u{a0}000.00 ",
        ]
    );
    assert_eq!(entries, vec!["- 2025 ", "▎January 1        2\u{a0}000.00 "]);
    assert_eq!(output.footer, NAVIGATION);
}

#[test]
fn test_focus_on_years() {
    let mut fixture = TuiTestFixture::new();

    let output = fixture.run_with_events(vec![press_tab()]).screen();

    let (files, years, entries) = panels(&output);
    assert_eq!(
        files,
        vec![
            "- Files ",
            "▎expenses.csv      -251.50 ",
            " income.csv                ",
            " savings.csv               ",
        ]
    );
    assert_eq!(
        years,
        vec!["= expenses.csv ", " 2024             -175.75 ", "▌2025              -75.75 "]
    );
    assert_eq!(entries, vec!["- 2025 ", "▎January 5          -75.75 "]);
    assert_eq!(output.footer, NAVIGATION);
}

#[test]
fn test_focus_on_entries() {
    let mut fixture = TuiTestFixture::new();

    let output = fixture.run_with_events(vec![repeat(press_tab(), 2)]).screen();

    let (files, years, entries) = panels(&output);
    assert_eq!(
        files,
        vec![
            "- Files ",
            "▎expenses.csv      -251.50 ",
            " income.csv                ",
            " savings.csv               ",
        ]
    );
    assert_eq!(
        years,
        vec!["- expenses.csv ", " 2024             -175.75 ", "▎2025              -75.75 "]
    );
    assert_eq!(entries, vec!["= 2025 ", "▌January 5          -75.75 "]);
    assert_eq!(output.footer, NAVIGATION);
}

#[test]
fn test_cycle_back_focus_on_files() {
    let mut fixture = TuiTestFixture::new();

    let output = fixture.run_with_events(vec![repeat(press_tab(), 3)]).screen();

    let (files, years, entries) = panels(&output);
    assert_eq!(
        files,
        vec![
            "= Files ",
            "▌expenses.csv      -251.50 ",
            " income.csv                ",
            " savings.csv               ",
        ]
    );
    assert_eq!(
        years,
        vec!["- expenses.csv ", " 2024             -175.75 ", "▎2025              -75.75 "]
    );
    assert_eq!(entries, vec!["- 2025 ", "▎January 5          -75.75 "]);
    assert_eq!(output.footer, NAVIGATION);
}

#[test]
fn test_years_navigation() {
    let mut fixture = TuiTestFixture::new();

    let to_years = press_tab();
    let to_first_year = press_up();
    let output = fixture.run_with_events(vec![to_years, to_first_year]).screen();

    let (files, years, entries) = panels(&output);
    assert_eq!(
        files,
        vec![
            "- Files ",
            "▎expenses.csv      -251.50 ",
            " income.csv                ",
            " savings.csv               ",
        ]
    );
    assert_eq!(
        years,
        vec!["= expenses.csv ", "▌2024             -175.75 ", " 2025              -75.75 "]
    );
    // A change of year puts the cursor on the last entry of that year.
    assert_eq!(
        entries,
        vec![
            "- 2024 ",
            " January 15         -50.25 ",
            " February 20       -100.00 ",
            "▎March 10           -25.50 ",
        ]
    );
    assert_eq!(output.footer, NAVIGATION);
}

#[test]
fn test_entries_navigation() {
    let mut fixture = TuiTestFixture::new();

    let to_years = press_tab();
    let to_entries = press_tab();
    let cycle_to_first_year = press_down();
    let to_last_line = repeat(press_down(), 2);
    let output = fixture
        .run_with_events(vec![to_years, cycle_to_first_year, to_entries, to_last_line])
        .screen();

    let (files, years, entries) = panels(&output);
    assert_eq!(
        files,
        vec![
            "- Files ",
            "▎expenses.csv      -251.50 ",
            " income.csv                ",
            " savings.csv               ",
        ]
    );
    assert_eq!(
        years,
        vec!["- expenses.csv ", "▎2024             -175.75 ", " 2025              -75.75 "]
    );
    // The cursor comes to the year on its last entry; two steps on, past the
    // end and round, it lies on the second.
    assert_eq!(
        entries,
        vec![
            "= 2024 ",
            " January 15         -50.25 ",
            "▌February 20       -100.00 ",
            " March 10           -25.50 ",
        ]
    );
    assert_eq!(output.footer, NAVIGATION);
}

#[test]
fn test_add_entry_popup_open() {
    let mut fixture = TuiTestFixture::new();

    let output = fixture.run_with_events(vec![press_add_entry()]).screen();

    let current_date = today().to_iso();
    let lines: Vec<String> =
        popup(&output).iter().map(|line| line.replace(&current_date, "0000-00-00")).collect();
    // The popup opens with the amount field in focus.
    assert_eq!(
        lines,
        vec![" Add New Entry ", " File    expenses.csv", " Date    0000-00-00", "▌Amount  "]
    );
    assert_first_ledger_behind_popup(&output);
    assert_eq!(output.footer, POPUP);
}

#[test]
fn test_edit_entry_popup_open() {
    let mut fixture = TuiTestFixture::new();

    let to_second_file = press_down();
    let to_entries = repeat(press_tab(), 2);
    let output =
        fixture.run_with_events(vec![to_second_file, to_entries, press_edit_entry()]).screen();

    assert_eq!(
        popup(&output),
        vec![" Edit Entry ", " File    income.csv", "▌Date    2025-01-01", " Amount  2000"]
    );
    let (files, years, entries) = panels(&output);
    assert_eq!(
        files,
        vec![
            "- Files ",
            " expenses.csv              ",
            "▎income.csv       8\u{a0}000.00 ",
            " savings.csv               ",
        ]
    );
    assert_eq!(
        years,
        vec![
            "- income.csv ",
            " 2024            6\u{a0}000.00 ",
            "▎2025            2\u{a0}000.00 ",
        ]
    );
    assert_eq!(entries, vec!["- 2025 ", "▎January 1        2\u{a0}000.00 "]);
    assert_eq!(output.footer, POPUP);
}

#[test]
fn test_popup_input_and_focus() {
    let mut fixture = TuiTestFixture::new();

    let delete_day_date = repeat(press_backspace(), 2);
    let change_day_date = type_text("10");
    let switch_to_amount_field = press_tab();
    let delete_old_amount = repeat(press_backspace(), 10);
    let enter_new_amount = type_text("100");
    let output = fixture
        .run_with_events(vec![
            press_edit_entry(),
            delete_day_date,
            change_day_date,
            switch_to_amount_field,
            delete_old_amount,
            enter_new_amount,
        ])
        .screen();

    assert_eq!(
        popup(&output),
        vec![" Edit Entry ", " File    expenses.csv", " Date    2025-01-10", "▌Amount  100"]
    );
    assert_first_ledger_behind_popup(&output);
    assert_eq!(output.footer, POPUP);
}

#[test]
fn test_popup_close() {
    let mut fixture = TuiTestFixture::new();

    let output = fixture.run_with_events(vec![press_add_entry(), press_close_popup()]).screen();

    let (files, years, entries) = panels(&output);
    assert_eq!(
        files,
        vec![
            "= Files ",
            "▌expenses.csv      -251.50 ",
            " income.csv                ",
            " savings.csv               ",
        ]
    );
    assert_eq!(
        years,
        vec!["- expenses.csv ", " 2024             -175.75 ", "▎2025              -75.75 "]
    );
    assert_eq!(entries, vec!["- 2025 ", "▎January 5          -75.75 "]);
    assert_eq!(output.footer, NAVIGATION);
    assert!(output.overlay.is_none());
}

#[test]
fn test_add_entry_save_functionality() {
    let mut fixture = TuiTestFixture::new();

    // Get the ledger before adding entry
    let initial_content = fixture.ledgers[0].clone();

    let delete_old_date = repeat(press_backspace(), 10);
    let enter_new_date = type_text("2024-12-15");
    let switch_to_amount_field = press_tab();
    let enter_amount = type_text("500");
    let save_and_close_popup = press_enter();
    let output = fixture.run_with_events(vec![
        press_add_entry(),
        delete_old_date,
        enter_new_date,
        switch_to_amount_field,
        enter_amount,
        save_and_close_popup,
    ]);

    // Check that the ledger was updated
    let final_content = &fixture.ledgers[0];
    assert_ne!(initial_content.len(), final_content.len(), "CSV file should have been modified");
    assert_eq!(final_content.len(), 5);
    // The popup opens on the amount field: the keys meant for the date go to
    // the amount, which takes only their digits, and those meant for the
    // amount go to the date, which is full and keeps the day it held.
    let added = &final_content[4];
    assert_eq!(added.date, today().to_iso());
    assert_eq!(added.amount.to_text(), "20241215");
    assert!(output.screen().overlay.is_none());
}

#[test]
fn test_popup_error_handling() {
    let mut fixture = TuiTestFixture::new();

    let delete_old_date = repeat(press_backspace(), 10);
    let enter_invalid_date = type_text("invalid");
    let switch_to_amount_field = press_tab();
    let enter_valid_amount = type_text("500");
    let try_to_save = press_enter();
    let output = fixture
        .run_with_events(vec![
            press_add_entry(),
            delete_old_date,
            enter_invalid_date,
            switch_to_amount_field,
            enter_valid_amount,
            try_to_save,
        ])
        .screen();

    // The popup opens on the amount field, which takes none of the letters:
    // it is the amount that is found wanting.
    assert_eq!(
        popup(&output),
        vec![
            " Add New Entry ",
            " File    expenses.csv",
            "▌Date    2024-09-12",
            " Amount  ",
            " Error: Invalid amount format. Use decimal number",
        ]
    );
    assert_first_ledger_behind_popup(&output);
    assert_eq!(output.footer, POPUP);
    assert_eq!(fixture.ledgers[0].len(), 4);
}

#[test]
fn test_popup_error_clearing() {
    let mut fixture = TuiTestFixture::new();

    let delete_old_date = repeat(press_backspace(), 10);
    let enter_invalid_date = type_text("bad");
    let switch_to_amount_field = press_tab();
    let enter_valid_amount = type_text("10");
    let try_to_save = press_enter();
    let start_typing_to_clear_error = type_text("2");
    let output = fixture
        .run_with_events(vec![
            press_add_entry(),
            delete_old_date,
            enter_invalid_date,
            switch_to_amount_field,
            enter_valid_amount,
            try_to_save,
            start_typing_to_clear_error,
        ])
        .screen();

    assert_eq!(
        popup(&output),
        vec![" Add New Entry ", " File    expenses.csv", "▌Date    2024-09-12", " Amount  "]
    );
    assert_first_ledger_behind_popup(&output);
    assert_eq!(output.footer, POPUP);
}

#[test]
fn popup_shows_invalid_date() {
    let mut fixture = TuiTestFixture::new();

    let output = fixture
        .run_with_events(vec![
            press_add_entry(),
            type_text("500"),
            press_tab(),
            repeat(press_backspace(), 10),
            type_text("invalid"),
            press_enter(),
        ])
        .screen();

    assert_eq!(
        popup(&output),
        vec![
            " Add New Entry ",
            " File    expenses.csv",
            "▌Date    invalid",
            " Amount  500",
            " Error: Invalid date format. Use YYYY-MM-DD",
        ]
    );
    assert_eq!(fixture.ledgers[0].len(), 4);
}

#[test]
fn popup_error_goes_with_the_next_key() {
    let mut fixture = TuiTestFixture::new();
    let mut keys = vec![
        press_add_entry(),
        press_tab(),
        repeat(press_backspace(), 10),
        type_text("bad"),
        press_enter(),
    ];
    let shown = fixture.run_with_events(keys.clone());
    assert_eq!(
        shown.popup.error_message.as_deref(),
        Some("Invalid date format. Use YYYY-MM-DD")
    );
    assert_eq!(shown.popup.mode, mfinance::tui::PopupMode::AddEntry);

    // A key that the field does not take clears the message as well.
    keys.push(press_tab());
    keys.push(type_text("x"));
    let cleared = TuiTestFixture::new().run_with_events(keys);
    assert_eq!(cleared.popup.error_message, None);
    assert_eq!(cleared.popup.amount_input, "");
    assert_eq!(cleared.popup.date_input, "bad");
    assert_eq!(cleared.popup.mode, mfinance::tui::PopupMode::AddEntry);
}

#[test]
fn add_entry_through_the_popup() {
    let mut fixture = TuiTestFixture::new();
    fixture.ledgers[0] = ledger("date;amount\n2024-09-11;700\n");

    let app = fixture.run_with_events(vec![
        type_text("n"),
        type_text("42.42"),
        press_tab(),
        repeat(press_backspace(), 10),
        type_text("2024-09-12"),
        press_enter(),
    ]);

    let written: Vec<(String, String)> =
        fixture.ledgers[0].iter().map(|e| (e.date.clone(), e.amount.to_text())).collect();
    assert_eq!(
        written,
        vec![
            ("2024-09-11".to_string(), "700".to_string()),
            ("2024-09-12".to_string(), "42.42".to_string()),
        ]
    );
    assert_eq!(app.report.total, "742.42");
    assert_eq!(app.popup.mode, mfinance::tui::PopupMode::Inactive);
    assert_eq!(app.popup.date_input, "");
    assert_eq!(app.popup.amount_input, "");
}

#[test]
fn initial_state_selects_latest() {
    let mut fixture = TuiTestFixture::new();
    fixture.ledgers[0] =
        ledger("date;amount\n2025-03-01;1\n2024-01-01;2\n2025-01-01;3\n2024-02-02;4\n2025-02-01;5\n");
    let app = fixture.run_with_events(vec![]);
    assert_eq!(app.report.year_reports.len(), 2);
    assert_eq!(app.selection.year, 1);
    assert_eq!(app.report.year_reports[1].title, "2025");
    assert_eq!(app.selection.entry, 2);
    // Within a year the rows stand in the order of the ledger, not of the dates.
    let days: Vec<&str> =
        app.report.year_reports[1].lines.iter().map(|line| line.0.as_str()).collect();
    assert_eq!(days, vec!["March 1", "January 1", "February 1"]);
}

#[test]
fn amount_field_takes_one_leading_minus() {
    let mut fixture = TuiTestFixture::new();
    let app = fixture.run_with_events(vec![press_add_entry(), type_text("-5")]);
    assert_eq!(app.popup.amount_input, "-5");
    let app = TuiTestFixture::new().run_with_events(vec![press_add_entry(), type_text("-5-")]);
    assert_eq!(app.popup.amount_input, "-5");
    let app =
        TuiTestFixture::new().run_with_events(vec![press_add_entry(), type_text("1x2 3,4.5e6")]);
    assert_eq!(app.popup.amount_input, "1234.56");
}

#[test]
fn date_field_keeps_ten_characters() {
    let mut fixture = TuiTestFixture::new();
    let app = fixture.run_with_events(vec![
        press_add_entry(),
        press_tab(),
        repeat(press_backspace(), 4),
        type_text("1é-234567"),
    ]);
    assert_eq!(app.popup.date_input, "2024-01é-2");
}

#[test]
fn edit_entry_through_the_popup() {
    let mut fixture = TuiTestFixture::new();
    let app = fixture.run_with_events(vec![
        press_edit_entry(),
        repeat(press_backspace(), 5),
        type_text("02-03"),
        press_tab(),
        repeat(press_backspace(), 6),
        type_text("-80"),
        press_enter(),
    ]);
    let written: Vec<(String, String)> =
        fixture.ledgers[0].iter().map(|e| (e.date.clone(), e.amount.to_text())).collect();
    assert_eq!(written[3], ("2025-02-03".to_string(), "-80".to_string()));
    assert_eq!(written.len(), 4);
    assert_eq!(app.report.total, "-255.75");
    assert_eq!(app.popup.mode, mfinance::tui::PopupMode::Inactive);
    assert_eq!(app.report.year_reports[1].lines[0].0, "February 3");
}

#[test]
fn failed_save_keeps_the_popup_open() {
    let mut fixture = TuiTestFixture::new();
    let mut app = fixture.run_with_events(vec![press_add_entry(), type_text("5")]);
    let action = app.handle_key(Key::Enter, &today());
    assert!(matches!(action, Action::AppendEntry { file: 0, .. }));
    assert!(app.save_finished(Err("disk full".to_string())).is_none());
    assert_eq!(app.popup.error_message.as_deref(), Some("Failed to save: disk full"));
    assert_eq!(app.popup.mode, mfinance::tui::PopupMode::AddEntry);
    assert_eq!(app.popup.amount_input, "5");
    assert_eq!(app.report.total, "-251.50");
}

#[test]
fn empty_ledger_list_and_empty_ledger() {
    let (mut app, refused) = App::new(Vec::new(), FormatOptions::default(), None);
    assert!(refused.is_none());
    for key in [Key::Down, Key::Up, Key::Tab, Key::Down, Key::Tab, Key::Up, Key::Char('a'), Key::Char('e')]
    {
        assert!(matches!(app.handle_key(key, &today()), Action::Redraw));
    }
    assert_eq!((app.selection.file, app.selection.year, app.selection.entry), (0, 0, 0));
    let screen = app.screen();
    assert!(screen.files.rows.is_empty());
    assert!(screen.years.rows.is_empty());
    assert!(screen.entries.rows.is_empty());
    assert!(screen.overlay.is_none());

    let files = vec![File { name: "empty.csv".to_string() }];
    let (mut app, refused) = App::new(files, FormatOptions::default(), Some(Vec::new()));
    assert!(refused.is_none());
    assert_eq!(app.report.total, "0.00");
    assert!(matches!(app.handle_key(Key::Char('e'), &today()), Action::Redraw));
    assert_eq!(app.popup.mode, mfinance::tui::PopupMode::Inactive);
    // A step over the only ledger leads nowhere: nothing is to be read.
    assert!(matches!(app.handle_key(Key::Down, &today()), Action::Redraw));
    assert!(matches!(app.handle_key(Key::Up, &today()), Action::Redraw));
    let screen = app.screen();
    assert_eq!(screen.files.rows.len(), 1);
    assert!(screen.entries.rows.is_empty());
}

#[test]
fn quit_and_keys_without_a_meaning() {
    let mut fixture = TuiTestFixture::new();
    let mut app = fixture.run_with_events(vec![]);
    assert!(matches!(app.handle_key(Key::Char('x'), &today()), Action::Redraw));
    assert!(matches!(app.handle_key(Key::Enter, &today()), Action::Redraw));
    assert!(matches!(app.handle_key(Key::Other, &today()), Action::Redraw));
    assert_eq!(app.focus, mfinance::tui::Focus::Files);
    assert!(matches!(app.handle_key(Key::Char('q'), &today()), Action::Quit));
}

#[test]
fn malformed_ledger_leaves_the_report() {
    let mut fixture = TuiTestFixture::new();
    let mut app = fixture.run_with_events(vec![]);
    assert!(matches!(app.handle_key(Key::Down, &today()), Action::LoadFile { file: 1 }));
    let broken = vec![Entry { date: "yesterday".to_string(), amount: Amount::zero() }];
    let refused = app.file_loaded(Some(broken));
    assert!(matches!(refused, Some(mfinance::AppError::DateParse { input }) if input == "yesterday"));
    assert_eq!(app.report.title, "expenses.csv");
    assert_eq!(app.selection.file, 1);
    assert_eq!((app.selection.year, app.selection.entry), (1, 0));
}

#[test]
fn step_over_a_single_row_changes_nothing() {
    // One ledger, one year, three entries: the cursor is moved to the first
    // entry, then the years and the ledgers are stepped over.
    let mut fixture = TuiTestFixture::new();
    fixture.names.truncate(1);
    fixture.ledgers.truncate(1);
    fixture.ledgers[0].truncate(3);
    let mut app = fixture.run_with_events(vec![repeat(press_tab(), 2), press_down()]);
    assert_eq!((app.selection.file, app.selection.year, app.selection.entry), (0, 0, 0));
    for key in [Key::Tab, Key::Down, Key::Up, Key::Char('j'), Key::Char('k')] {
        assert!(matches!(app.handle_key(key, &today()), Action::Redraw));
        assert_eq!((app.selection.file, app.selection.year, app.selection.entry), (0, 0, 0));
    }
    assert_eq!(app.focus, mfinance::tui::Focus::Files);
    assert!(matches!(app.handle_key(Key::Tab, &today()), Action::Redraw));
    for key in [Key::Down, Key::Up] {
        assert!(matches!(app.handle_key(key, &today()), Action::Redraw));
        assert_eq!((app.selection.file, app.selection.year, app.selection.entry), (0, 0, 0));
    }
    assert_eq!(app.report.total, "-175.75");
}

#[test]
fn step_to_another_year_selects_its_last_entry() {
    let mut fixture = TuiTestFixture::new();
    let app = fixture.run_with_events(vec![press_tab(), press_down(), press_down()]);
    assert_eq!((app.selection.year, app.selection.entry), (1, 0));
    let app = TuiTestFixture::new().run_with_events(vec![press_tab(), press_down()]);
    assert_eq!((app.selection.year, app.selection.entry), (0, 2));
}
