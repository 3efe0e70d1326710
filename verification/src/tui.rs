//! The terminal interface: what it shows of a ledger and how it answers the
//! keyboard.
//!
//! The interface is a state machine. [`App`] is its state; a key goes in
//! through [`App::handle_key`], which changes the state and says what is to be
//! done outside: nothing, leave, read a ledger, or write one. What was read or
//! written comes back through [`App::file_loaded`] and [`App::save_finished`].
//! [`App::screen`] describes what is to be drawn.

pub mod input;
pub mod screen;
pub mod view_model;

use vstd::arithmetic::div_mod::lemma_mod_add_multiples_vanish;
use vstd::arithmetic::div_mod::lemma_small_mod;
use vstd::prelude::*;
use crate::amount::decimal_from_str;
use crate::amount::Amount;
use crate::amount::AmountView;
use crate::date::naive_date_parse_ymd;
use crate::date::Date;
use crate::date::DateView;
use crate::number_formatter::FormatOptions;
use crate::tui::input::apply_edit;
use crate::tui::input::edited;
use crate::tui::input::Edit;
use crate::tui::view_model::sums_in_range;
use crate::tui::view_model::view_refused;
use crate::tui::view_model::ReportViewModel;
use crate::all_dated;
use crate::amount_view;
use crate::date::naive_date_from_str;
use crate::AppError;
use crate::Entry;

verus! {

/// The panel that the cursor keys act on.
#[derive(Debug, Copy, Clone, PartialEq, Eq, Structural)]
pub enum Focus {
    Files,
    Years,
    YearDetails,
}

/// Whether the popup is open, and for what.
#[derive(Debug, Copy, Clone, PartialEq, Eq, Structural)]
pub enum PopupMode {
    Inactive,
    AddEntry,
    EditEntry,
}

/// The field of the popup that the keyboard writes to.
#[derive(Debug, Copy, Clone, PartialEq, Eq, Structural)]
pub enum PopupFocus {
    Date,
    Amount,
}

impl Focus {
    /// The panel after this one: files, years, entries, and files again.
    pub open spec fn next_spec(self) -> Focus {
        match self {
            Focus::Files => Focus::Years,
            Focus::Years => Focus::YearDetails,
            Focus::YearDetails => Focus::Files,
        }
    }

    /// The panel after this one.
    pub fn next(self) -> (r: Focus)
        ensures
            r == self.next_spec(),
    {
        match self {
            Focus::Files => Focus::Years,
            Focus::Years => Focus::YearDetails,
            Focus::YearDetails => Focus::Files,
        }
    }
}

impl PopupFocus {
    /// The other field.
    pub open spec fn other_spec(self) -> PopupFocus {
        match self {
            PopupFocus::Date => PopupFocus::Amount,
            PopupFocus::Amount => PopupFocus::Date,
        }
    }

    /// The other field.
    pub fn other(self) -> (r: PopupFocus)
        ensures
            r == self.other_spec(),
    {
        match self {
            PopupFocus::Date => PopupFocus::Amount,
            PopupFocus::Amount => PopupFocus::Date,
        }
    }
}

/// Moving the focus on three times brings it back to where it was.
pub proof fn lemma_focus_cycle(focus: Focus)
    ensures
        focus.next_spec().next_spec().next_spec() == focus,
{
}

/// The index after `current` among `count` rows, the first following the
/// last. With no rows the index stays; an index beyond the rows goes to the
/// first.
pub open spec fn next_index(current: int, count: int) -> int {
    if count <= 0 {
        current
    } else if 0 <= current < count {
        (current + 1) % count
    } else {
        0
    }
}

/// The index before `current` among `count` rows, the last preceding the
/// first. With no rows the index stays; an index beyond the rows goes to the
/// last.
pub open spec fn previous_index(current: int, count: int) -> int {
    if count <= 0 {
        current
    } else if 0 <= current < count {
        (current + count - 1) % count
    } else {
        count - 1
    }
}

/// Below twice the modulus, a remainder is the number itself or the number
/// less the modulus.
proof fn lemma_wrap(x: int, n: int)
    requires
        0 < n,
        0 <= x < 2 * n,
    ensures
        x % n == (if x < n { x } else { x - n }),
{
    if x < n {
        lemma_small_mod(x as nat, n as nat);
    } else {
        lemma_small_mod((x - n) as nat, n as nat);
        lemma_mod_add_multiples_vanish(x - n, n);
    }
}

/// The index after `current` among `count` rows.
pub fn next_index_cycled(current: usize, count: usize) -> (r: usize)
    ensures
        r == next_index(current as int, count as int),
        count > 0 ==> r < count,
{
    proof {
        if 0 < count && current < count {
            lemma_wrap(current + 1, count as int);
        }
    }
    if count == 0 {
        current
    } else if current >= count - 1 {
        0
    } else {
        current + 1
    }
}

/// The index before `current` among `count` rows.
pub fn previous_index_cycled(current: usize, count: usize) -> (r: usize)
    ensures
        r == previous_index(current as int, count as int),
        count > 0 ==> r < count,
{
    proof {
        if 0 < count && current < count {
            lemma_wrap(current + count - 1, count as int);
        }
    }
    if count == 0 {
        current
    } else if current == 0 || current >= count {
        count - 1
    } else {
        current - 1
    }
}

/// Among more than one row, a step forward and a step back, or a step back and
/// a step forward, lead to the row one started from. With a single row neither
/// step moves.
pub proof fn lemma_step_and_back(current: int, count: int)
    requires
        0 <= current < count,
    ensures
        previous_index(next_index(current, count), count) == current,
        next_index(previous_index(current, count), count) == current,
        count == 1 ==> next_index(current, count) == current && previous_index(current, count)
            == current,
{
    lemma_wrap(current + 1, count);
    lemma_wrap(current + count - 1, count);
    let ahead = next_index(current, count);
    let behind = previous_index(current, count);
    lemma_wrap(ahead + count - 1, count);
    lemma_wrap(behind + 1, count);
}

/// A ledger as the interface knows it: by its name.
#[derive(Debug)]
pub struct File {
    pub name: String,
}

/// The three cursors: which ledger, which of its years, which entry of that
/// year.
#[derive(Debug)]
pub struct Selection {
    pub file: usize,
    pub year: usize,
    pub entry: usize,
}

/// The popup in which an entry is added or edited.
#[derive(Debug)]
pub struct Popup {
    pub mode: PopupMode,
    pub focus: PopupFocus,
    pub date_input: String,
    pub amount_input: String,
    pub error_message: Option<String>,
    /// The entry as it was when the popup was opened to edit it.
    pub snapshot: Option<Entry>,
}

/// The state of the interface.
#[derive(Debug)]
pub struct App {
    pub files: Vec<File>,
    pub format_options: FormatOptions,
    pub report: ReportViewModel,
    pub selection: Selection,
    pub focus: Focus,
    pub popup: Popup,
}

/// What is to be done outside after a key.
#[derive(Debug)]
pub enum Action {
    /// Nothing but to draw the screen again.
    Redraw,
    /// Leave.
    Quit,
    /// Read the ledger `file` and hand what was read to [`App::file_loaded`].
    LoadFile { file: usize },
    /// Append `entry` to the ledger `file`, read the ledger again, and report
    /// through [`App::save_finished`].
    AppendEntry { file: usize, entry: Entry },
    /// In the ledger `file`, put `replacement` in the place of the first entry
    /// that equals `target`, if there is one; read the ledger again, and
    /// report through [`App::save_finished`].
    ReplaceEntry { file: usize, target: Entry, replacement: Entry },
}

/// Whether `index` is a cursor over `count` rows: one of the rows, or 0 where
/// there are none.
pub open spec fn cursor_valid(index: int, count: int) -> bool {
    0 <= index < count || (count == 0 && index == 0)
}

/// The last of `count` rows, or 0 where there are none.
pub open spec fn last_index(count: int) -> int {
    if count <= 0 {
        0
    } else {
        count - 1
    }
}

impl Popup {
    /// Whether the popup is closed and holds nothing.
    pub open spec fn is_fresh(&self) -> bool {
        &&& self.mode == PopupMode::Inactive
        &&& self.focus == PopupFocus::Date
        &&& self.date_input@.len() == 0
        &&& self.amount_input@.len() == 0
        &&& self.error_message is None
        &&& self.snapshot is None
    }

    /// Whether the popup holds what its mode asks for: nothing while it is
    /// closed, and the entry being edited while it edits.
    pub open spec fn well_formed(&self) -> bool {
        &&& self.mode == PopupMode::Inactive ==> self.is_fresh()
        &&& self.mode == PopupMode::EditEntry ==> self.snapshot is Some
    }

    /// Whether the popup holds what its mode asks for.
    pub fn is_well_formed(&self) -> (r: bool)
        ensures
            r == self.well_formed(),
    {
        match self.mode {
            PopupMode::Inactive => self.focus == PopupFocus::Date
                && self.date_input.as_str().unicode_len() == 0
                && self.amount_input.as_str().unicode_len() == 0 && self.error_message.is_none()
                && self.snapshot.is_none(),
            PopupMode::EditEntry => self.snapshot.is_some(),
            PopupMode::AddEntry => true,
        }
    }

    /// A closed popup that holds nothing.
    pub fn new() -> (r: Popup)
        ensures
            r.is_fresh(),
    {
        Popup {
            mode: PopupMode::Inactive,
            focus: PopupFocus::Date,
            date_input: String::new(),
            amount_input: String::new(),
            error_message: None,
            snapshot: None,
        }
    }
}

impl App {
    /// The number of rows of the year under the cursor; 0 where there is no
    /// such year.
    pub open spec fn entry_count(&self) -> int {
        if self.selection.year < self.report.year_reports.len() {
            self.report.year_reports[self.selection.year as int].lines.len() as int
        } else {
            0
        }
    }

    /// Whether the state is consistent: each cursor lies on a row of its
    /// panel, or at 0 where the panel is empty; the popup holds what its mode
    /// asks for, and is open only over a ledger.
    pub open spec fn well_formed(&self) -> bool {
        &&& self.report.well_formed()
        &&& cursor_valid(self.selection.file as int, self.files.len() as int)
        &&& cursor_valid(self.selection.year as int, self.report.year_reports.len() as int)
        &&& cursor_valid(self.selection.entry as int, self.entry_count())
        &&& self.popup.well_formed()
        &&& self.popup.mode != PopupMode::Inactive ==> self.selection.file < self.files.len()
    }

    /// Whether the state is consistent.
    pub fn is_well_formed(&self) -> (r: bool)
        ensures
            r == self.well_formed(),
    {
        let files = self.files.len();
        let years = self.report.year_reports.len();
        let entries = self.year_entries_count();
        self.report.is_well_formed() && (self.selection.file < files || (files == 0
            && self.selection.file == 0)) && (self.selection.year < years || (years == 0
            && self.selection.year == 0)) && (self.selection.entry < entries || (entries == 0
            && self.selection.entry == 0)) && self.popup.is_well_formed() && (self.popup.mode
            == PopupMode::Inactive || self.selection.file < files)
    }

    /// Whether everything but the report and the cursors over it is as in
    /// `before`.
    pub open spec fn same_frame(&self, before: &App) -> bool {
        &&& self.files == before.files
        &&& self.format_options == before.format_options
        &&& self.focus == before.focus
        &&& self.popup == before.popup
        &&& self.selection.file == before.selection.file
    }

    /// Whether the cursors over the report stand on its last year and on that
    /// year's last entry.
    pub open spec fn at_latest(&self) -> bool {
        &&& self.selection.year == last_index(self.report.year_reports.len() as int)
        &&& self.selection.entry == last_index(self.entry_count())
    }

    /// Whether the report is what `loaded` makes it, coming from `before`:
    /// the view of the entries read for the ledger under the cursor, or the
    /// report as it was where nothing was read, there is no ledger, or no view
    /// can be made; `refused` says why none could.
    pub open spec fn report_follows(
        &self,
        before: &App,
        loaded: Option<Vec<Entry>>,
        refused: Option<AppError>,
    ) -> bool {
        match loaded {
            Some(entries) if before.selection.file < before.files.len() => match refused {
                None => {
                    &&& all_dated(entries@)
                    &&& sums_in_range(entries@)
                    &&& self.report.describes(
                        before.files[before.selection.file as int].name@,
                        entries@,
                        before.format_options,
                    )
                },
                Some(error) => self.report == before.report && view_refused(entries@, error),
            },
            _ => self.report == before.report && refused is None,
        }
    }

    /// Puts the year cursor on the last year.
    pub fn select_last_year(&mut self)
        ensures
            final(self).selection.year == last_index(old(self).report.year_reports.len() as int),
            final(self).selection.file == old(self).selection.file,
            final(self).selection.entry == old(self).selection.entry,
            final(self).files == old(self).files,
            final(self).format_options == old(self).format_options,
            final(self).report == old(self).report,
            final(self).focus == old(self).focus,
            final(self).popup == old(self).popup,
    {
        let count = self.report.year_reports.len();
        self.selection.year = if count == 0 { 0 } else { count - 1 };
    }

    /// The number of rows of the year under the cursor.
    pub fn year_entries_count(&self) -> (r: usize)
        ensures
            r == self.entry_count(),
    {
        if self.selection.year < self.report.year_reports.len() {
            self.report.year_reports[self.selection.year].lines.len()
        } else {
            0
        }
    }

    /// Puts the entry cursor on the last entry of the year under the cursor.
    pub fn select_last_entry(&mut self)
        ensures
            final(self).selection.entry == last_index(old(self).entry_count()),
            final(self).selection.file == old(self).selection.file,
            final(self).selection.year == old(self).selection.year,
            final(self).files == old(self).files,
            final(self).format_options == old(self).format_options,
            final(self).report == old(self).report,
            final(self).focus == old(self).focus,
            final(self).popup == old(self).popup,
    {
        let count = self.year_entries_count();
        self.selection.entry = if count == 0 { 0 } else { count - 1 };
    }

    /// Takes the view of `loaded`, the entries read for the ledger under the
    /// cursor, as the report. Where nothing was read, there is no ledger, or no
    /// view can be made, the report stays; the result says why no view could
    /// be made.
    pub fn reload_file(&mut self, loaded: Option<Vec<Entry>>) -> (refused: Option<AppError>)
        ensures
            final(self).same_frame(old(self)),
            final(self).selection == old(self).selection,
            final(self).report_follows(old(self), loaded, refused),
            old(self).report.well_formed() ==> final(self).report.well_formed(),
    {
        if self.selection.file < self.files.len() {
            match &loaded {
                Some(entries) => {
                    match ReportViewModel::new(
                        self.files[self.selection.file].name.as_str(),
                        entries,
                        &self.format_options,
                    ) {
                        Ok(report) => {
                            self.report = report;
                            None
                        },
                        Err(error) => Some(error),
                    }
                },
                None => None,
            }
        } else {
            None
        }
    }

    /// The state at the start: the cursor on the first ledger, whose entries
    /// as read are `loaded`, on its last year and that year's last entry; the
    /// focus on the ledgers; the popup closed. The second result says why no
    /// view of the ledger could be made, if none could.
    pub fn new(files: Vec<File>, format_options: FormatOptions, loaded: Option<Vec<Entry>>) -> (r: (
        App,
        Option<AppError>,
    ))
        ensures
            r.0.well_formed(),
            r.0.files == files,
            r.0.format_options == format_options,
            r.0.focus == Focus::Files,
            r.0.popup.is_fresh(),
            r.0.selection.file == 0,
            r.0.at_latest(),
            match loaded {
                Some(entries) if files.len() > 0 => match r.1 {
                    None => r.0.report.describes(files[0].name@, entries@, format_options),
                    Some(error) => r.0.report.year_reports.len() == 0 && view_refused(
                        entries@,
                        error,
                    ),
                },
                _ => r.0.report.year_reports.len() == 0 && r.1 is None,
            },
    {
        let mut app = App {
            files,
            format_options,
            focus: Focus::Files,
            report: ReportViewModel::default(),
            selection: Selection { file: 0, year: 0, entry: 0 },
            popup: Popup::new(),
        };
        let refused = app.reload_file(loaded);
        app.select_last_year();
        app.select_last_entry();
        (app, refused)
    }

    /// Moves the focus to the next panel.
    pub fn cycle_focus(&mut self)
        ensures
            final(self).focus == old(self).focus.next_spec(),
            final(self).files == old(self).files,
            final(self).format_options == old(self).format_options,
            final(self).report == old(self).report,
            final(self).selection == old(self).selection,
            final(self).popup == old(self).popup,
    {
        self.focus = self.focus.next();
    }

    /// Takes in what was read after the ledger cursor moved: the view of
    /// `loaded` becomes the report, as [`App::reload_file`] has it, and the
    /// cursors go to the last year and its last entry.
    pub fn file_loaded(&mut self, loaded: Option<Vec<Entry>>) -> (refused: Option<AppError>)
        requires
            old(self).well_formed(),
        ensures
            final(self).well_formed(),
            final(self).same_frame(old(self)),
            final(self).report_follows(old(self), loaded, refused),
            final(self).at_latest(),
    {
        let refused = self.reload_file(loaded);
        self.select_last_year();
        self.select_last_entry();
        refused
    }
}

/// A key of the keyboard, as far as the interface tells keys apart.
#[derive(Debug, Copy, Clone, PartialEq, Eq, Structural)]
pub enum Key {
    Char(char),
    Up,
    Down,
    Tab,
    Enter,
    Backspace,
    Other,
}

/// What a key asks for.
#[derive(Debug, Copy, Clone, PartialEq, Eq, Structural)]
pub enum Command {
    Quit,
    OpenAdd,
    OpenEdit,
    Next,
    Previous,
    CycleFocus,
    ClosePopup,
    CycleField,
    Confirm,
    Type,
    Ignore,
}

/// What `key` asks for while the popup is in `mode`.
///
/// While the popup is closed: `q` leaves, `a` or `n` opens the popup to add
/// an entry, `e` to edit one, the down key or `j` steps forward, the up key or
/// `k` steps back, the tab key moves the focus. While it is open: `q` closes
/// it, the tab key changes the field, the enter key saves, and every other
/// character and the backspace key go to the field.
pub open spec fn command_for(mode: PopupMode, key: Key) -> Command {
    match mode {
        PopupMode::Inactive => match key {
            Key::Char(c) => if c == 'q' {
                Command::Quit
            } else if c == 'a' || c == 'n' {
                Command::OpenAdd
            } else if c == 'e' {
                Command::OpenEdit
            } else if c == 'j' {
                Command::Next
            } else if c == 'k' {
                Command::Previous
            } else {
                Command::Ignore
            },
            Key::Down => Command::Next,
            Key::Up => Command::Previous,
            Key::Tab => Command::CycleFocus,
            _ => Command::Ignore,
        },
        _ => match key {
            Key::Char(c) => if c == 'q' {
                Command::ClosePopup
            } else {
                Command::Type
            },
            Key::Tab => Command::CycleField,
            Key::Enter => Command::Confirm,
            Key::Backspace => Command::Type,
            _ => Command::Ignore,
        },
    }
}

/// What `key` asks for while the popup is in `mode`.
pub fn command(mode: PopupMode, key: Key) -> (r: Command)
    ensures
        r == command_for(mode, key),
{
    match mode {
        PopupMode::Inactive => match key {
            Key::Char(c) => if c == 'q' {
                Command::Quit
            } else if c == 'a' || c == 'n' {
                Command::OpenAdd
            } else if c == 'e' {
                Command::OpenEdit
            } else if c == 'j' {
                Command::Next
            } else if c == 'k' {
                Command::Previous
            } else {
                Command::Ignore
            },
            Key::Down => Command::Next,
            Key::Up => Command::Previous,
            Key::Tab => Command::CycleFocus,
            _ => Command::Ignore,
        },
        _ => match key {
            Key::Char(c) => if c == 'q' {
                Command::ClosePopup
            } else {
                Command::Type
            },
            Key::Tab => Command::CycleField,
            Key::Enter => Command::Confirm,
            Key::Backspace => Command::Type,
            _ => Command::Ignore,
        },
    }
}

/// The edit that a key makes in a field, if it makes one.
pub open spec fn key_edit(key: Key) -> Option<Edit> {
    match key {
        Key::Char(c) => Some(Edit::Insert(c)),
        Key::Backspace => Some(Edit::DeletePrevious),
        _ => None,
    }
}

/// The most characters the date field holds: those of `YYYY-MM-DD`.
pub const DATE_WIDTH: usize = 10;

/// The date field after an edit: the edited text, cut to its first ten
/// characters.
pub open spec fn date_after(text: Seq<char>, edit: Edit) -> Seq<char> {
    let next = edited(text, edit);
    if next.len() > DATE_WIDTH {
        next.take(DATE_WIDTH as int)
    } else {
        next
    }
}

/// Whether the amount field that holds `text` takes the character `c`: a
/// digit, a point, or a minus sign where the field is empty.
pub open spec fn amount_accepts(text: Seq<char>, c: char) -> bool {
    ('0' <= c && c <= '9') || c == '.' || (c == '-' && text.len() == 0)
}

/// The amount field after an edit: a character it does not take leaves it as
/// it is.
pub open spec fn amount_after(text: Seq<char>, edit: Edit) -> Seq<char> {
    match edit {
        Edit::Insert(c) => if amount_accepts(text, c) {
            edited(text, edit)
        } else {
            text
        },
        Edit::DeletePrevious => edited(text, edit),
    }
}

/// The date that a text written as `YYYY-MM-DD` holds, if it holds one.
pub open spec fn read_date(text: Seq<char>) -> Option<DateView> {
    match naive_date_parse_ymd(text) {
        Some((year, month, day)) => Some(DateView { year, month, day }),
        None => None,
    }
}

/// The number that a text holds, if it holds one.
pub open spec fn read_amount(text: Seq<char>) -> Option<AmountView> {
    match decimal_from_str(text) {
        Some((mantissa, scale)) => Some(AmountView { mantissa, scale }),
        None => None,
    }
}

/// The view of a date that may be absent.
pub open spec fn date_view(date: Option<Date>) -> Option<DateView> {
    match date {
        Some(day) => Some(day@),
        None => None,
    }
}

/// The message for a date field that holds no date.
pub open spec fn invalid_date_message() -> Seq<char> {
    "Invalid date format. Use YYYY-MM-DD"@
}

/// The message for an amount field that holds no number.
pub open spec fn invalid_amount_message() -> Seq<char> {
    "Invalid amount format. Use decimal number"@
}

/// The message for a ledger that could not be written, with the reason.
pub open spec fn save_failed_message(reason: Seq<char>) -> Seq<char> {
    "Failed to save: "@ + reason
}

/// A cursor that stood at `index`, over what are now `count` rows: where it
/// stood if that is still a row, else the last row.
pub open spec fn clamped(index: int, count: int) -> int {
    if index < count {
        index
    } else {
        last_index(count)
    }
}

/// `forward` one row from `index`, or back one row.
pub open spec fn stepped(forward: bool, index: int, count: int) -> int {
    if forward {
        next_index(index, count)
    } else {
        previous_index(index, count)
    }
}

fn clamp(index: usize, count: usize) -> (r: usize)
    ensures
        r == clamped(index as int, count as int),
        cursor_valid(r as int, count as int),
{
    if index < count {
        index
    } else if count == 0 {
        0
    } else {
        count - 1
    }
}

impl App {
    /// Whether everything but the popup is as in `before`.
    pub open spec fn same_but_popup(&self, before: &App) -> bool {
        &&& self.files == before.files
        &&& self.format_options == before.format_options
        &&& self.report == before.report
        &&& self.selection == before.selection
        &&& self.focus == before.focus
    }

    /// The entry under the cursor, if the cursor lies on one.
    pub open spec fn selected_entry(&self) -> Option<Entry> {
        if self.selection.year < self.report.year_reports.len() && self.selection.entry
            < self.report.year_reports[self.selection.year as int].entries.len() {
            Some(
                self.report.year_reports[self.selection.year as int].entries[self.selection.entry as int],
            )
        } else {
            None
        }
    }

    /// The index of the cursor that has the focus.
    pub open spec fn focused_cursor(&self) -> int {
        match self.focus {
            Focus::Files => self.selection.file as int,
            Focus::Years => self.selection.year as int,
            Focus::YearDetails => self.selection.entry as int,
        }
    }

    /// The number of rows of the panel that has the focus.
    pub open spec fn focused_count(&self) -> int {
        match self.focus {
            Focus::Files => self.files.len() as int,
            Focus::Years => self.report.year_reports.len() as int,
            Focus::YearDetails => self.entry_count(),
        }
    }

    /// Whether this state comes from `before` by a step of the cursor that has
    /// the focus, and `action` is what the step asks for.
    ///
    /// Where the step leads to the row the cursor lies on, as it does in a
    /// panel of one row or of none, nothing changes. Where it leads to another
    /// ledger, that ledger is to be read, and the other cursors go to the last
    /// year and its last entry. Where it leads to another year, the entry
    /// cursor goes to that year's last entry.
    pub open spec fn navigated(&self, before: &App, forward: bool, action: Action) -> bool {
        let reached = stepped(forward, before.focused_cursor(), before.focused_count());
        if reached == before.focused_cursor() {
            *self == *before && action is Redraw
        } else {
            &&& self.files == before.files
            &&& self.format_options == before.format_options
            &&& self.report == before.report
            &&& self.focus == before.focus
            &&& self.popup == before.popup
            &&& match before.focus {
                Focus::Files => {
                    &&& self.selection.file == reached
                    &&& self.at_latest()
                    &&& action == (Action::LoadFile { file: self.selection.file })
                },
                Focus::Years => {
                    &&& self.selection.file == before.selection.file
                    &&& self.selection.year == reached
                    &&& self.selection.entry == last_index(self.entry_count())
                    &&& action is Redraw
                },
                Focus::YearDetails => {
                    &&& self.selection.file == before.selection.file
                    &&& self.selection.year == before.selection.year
                    &&& self.selection.entry == reached
                    &&& action is Redraw
                },
            }
        }
    }

    fn step(&mut self, forward: bool) -> (action: Action)
        requires
            old(self).well_formed(),
        ensures
            final(self).well_formed(),
            final(self).navigated(old(self), forward, action),
    {
        let (current, count) = match self.focus {
            Focus::Files => (self.selection.file, self.files.len()),
            Focus::Years => (self.selection.year, self.report.year_reports.len()),
            Focus::YearDetails => (self.selection.entry, self.year_entries_count()),
        };
        let reached = if forward {
            next_index_cycled(current, count)
        } else {
            previous_index_cycled(current, count)
        };
        if reached == current {
            return Action::Redraw;
        }
        match self.focus {
            Focus::Files => {
                self.selection.file = reached;
                self.select_last_year();
                self.select_last_entry();
                Action::LoadFile { file: reached }
            },
            Focus::Years => {
                self.selection.year = reached;
                self.select_last_entry();
                Action::Redraw
            },
            Focus::YearDetails => {
                self.selection.entry = reached;
                Action::Redraw
            },
        }
    }

    /// Steps the cursor that has the focus forward.
    pub fn next(&mut self) -> (action: Action)
        requires
            old(self).well_formed(),
        ensures
            final(self).well_formed(),
            final(self).navigated(old(self), true, action),
    {
        self.step(true)
    }

    /// Steps the cursor that has the focus back.
    pub fn previous(&mut self) -> (action: Action)
        requires
            old(self).well_formed(),
        ensures
            final(self).well_formed(),
            final(self).navigated(old(self), false, action),
    {
        self.step(false)
    }

    /// The entry under the cursor, if the cursor lies on one.
    pub fn get_selected_entry(&self) -> (r: Option<&Entry>)
        ensures
            match r {
                Some(entry) => Some(*entry) == self.selected_entry(),
                None => self.selected_entry() is None,
            },
    {
        if self.selection.year < self.report.year_reports.len() {
            let year = &self.report.year_reports[self.selection.year];
            if self.selection.entry < year.entries.len() {
                Some(&year.entries[self.selection.entry])
            } else {
                None
            }
        } else {
            None
        }
    }

    /// Whether this state comes from `before` by opening the popup to add an
    /// entry on the day `today`: the amount field empty and in focus, the date
    /// field holding `today`. Without a ledger nothing opens.
    pub open spec fn add_opened(&self, before: &App, today: DateView) -> bool {
        &&& self.same_but_popup(before)
        &&& if before.selection.file < before.files.len() {
            &&& self.popup.mode == PopupMode::AddEntry
            &&& self.popup.focus == PopupFocus::Amount
            &&& self.popup.date_input@ == today.iso_text()
            &&& self.popup.amount_input@.len() == 0
            &&& self.popup.error_message is None
            &&& self.popup.snapshot is None
        } else {
            self.popup == before.popup
        }
    }

    /// Opens the popup to add an entry, the date field holding `today`.
    pub fn open_add_entry_popup(&mut self, today: &Date)
        requires
            old(self).well_formed(),
        ensures
            final(self).well_formed(),
            final(self).add_opened(old(self), today@),
    {
        if self.selection.file < self.files.len() {
            self.popup =
            Popup {
                mode: PopupMode::AddEntry,
                focus: PopupFocus::Amount,
                date_input: today.to_iso(),
                amount_input: String::new(),
                error_message: None,
                snapshot: None,
            };
        }
    }

    /// Whether this state comes from `before` by opening the popup to edit
    /// the entry under the cursor: the fields holding the entry's date and
    /// amount as they are written, the date field in focus, and the entry kept
    /// as the one to replace. Without an entry under the cursor nothing opens.
    pub open spec fn edit_opened(&self, before: &App) -> bool {
        &&& self.same_but_popup(before)
        &&& match before.selected_entry() {
            Some(entry) if before.selection.file < before.files.len() => {
                &&& self.popup.mode == PopupMode::EditEntry
                &&& self.popup.focus == PopupFocus::Date
                &&& self.popup.date_input@ == entry.date@
                &&& self.popup.amount_input@ == entry.amount@.plain_text()
                &&& self.popup.error_message is None
                &&& self.popup.snapshot == Some(entry)
            },
            _ => self.popup == before.popup,
        }
    }

    /// Opens the popup to edit the entry under the cursor.
    pub fn open_edit_entry_popup(&mut self)
        requires
            old(self).well_formed(),
        ensures
            final(self).well_formed(),
            final(self).edit_opened(old(self)),
    {
        if self.selection.file < self.files.len() {
            let opened = match self.get_selected_entry() {
                Some(entry) => Some(
                    Popup {
                        mode: PopupMode::EditEntry,
                        focus: PopupFocus::Date,
                        date_input: entry.date.clone(),
                        amount_input: entry.amount.to_text(),
                        error_message: None,
                        snapshot: Some(entry.clone()),
                    },
                ),
                None => None,
            };
            match opened {
                Some(popup) => {
                    self.popup = popup;
                },
                None => {},
            }
        }
    }

    /// Closes the popup and forgets what it held.
    pub fn close_popup(&mut self)
        ensures
            final(self).same_but_popup(old(self)),
            final(self).popup.is_fresh(),
            old(self).well_formed() ==> final(self).well_formed(),
    {
        self.popup = Popup::new();
    }

    /// Whether this state comes from `before` by moving the focus of the
    /// popup to its other field; the fields keep what they hold.
    pub open spec fn field_cycled(&self, before: &App) -> bool {
        &&& self.same_but_popup(before)
        &&& self.popup.mode == before.popup.mode
        &&& self.popup.date_input == before.popup.date_input
        &&& self.popup.amount_input == before.popup.amount_input
        &&& self.popup.error_message == before.popup.error_message
        &&& self.popup.snapshot == before.popup.snapshot
        &&& self.popup.focus == if before.popup.mode == PopupMode::Inactive {
            before.popup.focus
        } else {
            before.popup.focus.other_spec()
        }
    }

    /// Moves the focus of the open popup to its other field.
    pub fn cycle_popup_focus(&mut self)
        requires
            old(self).well_formed(),
        ensures
            final(self).well_formed(),
            final(self).field_cycled(old(self)),
    {
        if self.popup.mode != PopupMode::Inactive {
            self.popup.focus = self.popup.focus.other();
        }
    }

    /// Whether this state comes from `before` by the key `key` going to the
    /// field of the open popup that has the focus.
    ///
    /// A character or the backspace key edits that field and takes away the
    /// error message, whether or not the field takes the character. Any other
    /// key, and any key while the popup is closed, changes nothing. The
    /// backspace key takes from the end of the field in focus, and takes
    /// something unless the field is empty.
    pub open spec fn typed(&self, before: &App, key: Key) -> bool {
        &&& self.same_but_popup(before)
        &&& self.popup.mode == before.popup.mode
        &&& self.popup.focus == before.popup.focus
        &&& self.popup.snapshot == before.popup.snapshot
        &&& key == Key::Backspace ==> {
            &&& self.popup.date_input@.is_prefix_of(before.popup.date_input@)
            &&& self.popup.amount_input@.is_prefix_of(before.popup.amount_input@)
            &&& before.popup.mode != PopupMode::Inactive ==> match before.popup.focus {
                PopupFocus::Date => before.popup.date_input@.len() > 0
                    ==> self.popup.date_input@.len() < before.popup.date_input@.len(),
                PopupFocus::Amount => before.popup.amount_input@.len() > 0
                    ==> self.popup.amount_input@.len() < before.popup.amount_input@.len(),
            }
        }
        &&& match key_edit(key) {
            Some(edit) if before.popup.mode != PopupMode::Inactive => {
                &&& self.popup.error_message is None
                &&& match before.popup.focus {
                    PopupFocus::Date => {
                        &&& self.popup.date_input@ == date_after(before.popup.date_input@, edit)
                        &&& self.popup.amount_input == before.popup.amount_input
                    },
                    PopupFocus::Amount => {
                        &&& self.popup.amount_input@ == amount_after(
                            before.popup.amount_input@,
                            edit,
                        )
                        &&& self.popup.date_input == before.popup.date_input
                    },
                }
            },
            _ => self.popup == before.popup,
        }
    }

    /// Hands a key to the field of the open popup that has the focus.
    pub fn handle_popup_input(&mut self, key: Key)
        requires
            old(self).well_formed(),
        ensures
            final(self).well_formed(),
            final(self).typed(old(self), key),
    {
        if self.popup.mode == PopupMode::Inactive {
            return ;
        }
        let edit = match key {
            Key::Char(c) => Edit::Insert(c),
            Key::Backspace => Edit::DeletePrevious,
            _ => {
                return ;
            },
        };
        self.popup.error_message = None;
        match self.popup.focus {
            PopupFocus::Date => {
                let next = apply_edit(self.popup.date_input.as_str(), edit);
                if next.as_str().unicode_len() > DATE_WIDTH {
                    self.popup.date_input = String::from_str(
                        next.as_str().substring_char(0, DATE_WIDTH),
                    );
                } else {
                    self.popup.date_input = next;
                }
            },
            PopupFocus::Amount => {
                let accepted = match edit {
                    Edit::Insert(c) => ('0' <= c && c <= '9') || c == '.' || (c == '-'
                        && self.popup.amount_input.as_str().unicode_len() == 0),
                    Edit::DeletePrevious => true,
                };
                if accepted {
                    self.popup.amount_input = apply_edit(self.popup.amount_input.as_str(), edit);
                }
            },
        }
    }

    /// Whether this state comes from `before` by the attempt to save an open
    /// popup whose date field was read as `date` and whose amount field as
    /// `amount`, and `action` is what the attempt asks for.
    ///
    /// Where no date was read, or else no amount, the popup shows the message
    /// for that field and nothing is asked for. Otherwise the message is gone,
    /// and the entry made of the two is to be appended, or to be put in the
    /// place of the entry that the popup was opened on; its date is written so
    /// that it reads back as `date`. The popup stays as it is until the
    /// outcome is known. A closed popup has nothing to save.
    pub open spec fn confirmed_with(
        &self,
        before: &App,
        date: Option<DateView>,
        amount: Option<AmountView>,
        action: Action,
    ) -> bool {
        &&& self.same_but_popup(before)
        &&& self.popup.mode == before.popup.mode
        &&& self.popup.focus == before.popup.focus
        &&& self.popup.date_input == before.popup.date_input
        &&& self.popup.amount_input == before.popup.amount_input
        &&& self.popup.snapshot == before.popup.snapshot
        &&& if before.popup.mode == PopupMode::Inactive {
            self.popup == before.popup && action is Redraw
        } else {
            match date {
                None => {
                    &&& self.popup.error_message is Some
                    &&& self.popup.error_message->0@ == invalid_date_message()
                    &&& action is Redraw
                },
                Some(day) => match amount {
                    None => {
                        &&& self.popup.error_message is Some
                        &&& self.popup.error_message->0@ == invalid_amount_message()
                        &&& action is Redraw
                    },
                    Some(number) => {
                        &&& self.popup.error_message is None
                        &&& match action {
                            Action::AppendEntry { file, entry } => {
                                &&& before.popup.mode == PopupMode::AddEntry
                                &&& file == before.selection.file
                                &&& entry.date@ == day.iso_text()
                                &&& naive_date_from_str(entry.date@) == Some(
                                    (day.year, day.month, day.day),
                                )
                                &&& entry.amount@ == number
                            },
                            Action::ReplaceEntry { file, target, replacement } => {
                                &&& before.popup.mode == PopupMode::EditEntry
                                &&& file == before.selection.file
                                &&& Some(target) == before.popup.snapshot
                                &&& replacement.date@ == day.iso_text()
                                &&& naive_date_from_str(replacement.date@) == Some(
                                    (day.year, day.month, day.day),
                                )
                                &&& replacement.amount@ == number
                            },
                            _ => false,
                        }
                    },
                },
            }
        }
    }

    /// Whether this state comes from `before` by the attempt to save what the
    /// open popup holds, and `action` is what the attempt asks for: the date
    /// field is read as a date written as `YYYY-MM-DD`, the amount field as a
    /// number, and the rest is as [`App::confirmed_with`] has it.
    pub open spec fn confirmed(&self, before: &App, action: Action) -> bool {
        self.confirmed_with(
            before,
            read_date(before.popup.date_input@),
            read_amount(before.popup.amount_input@),
            action,
        )
    }

    /// Tries to save an open popup whose date field was read as `date` and
    /// whose amount field as `amount`; `None` stands for a field that could
    /// not be read.
    pub fn confirm_parsed(&mut self, date: Option<Date>, amount: Option<Amount>) -> (action: Action)
        requires
            old(self).well_formed(),
        ensures
            final(self).well_formed(),
            final(self).confirmed_with(old(self), date_view(date), amount_view(amount), action),
    {
        if self.popup.mode == PopupMode::Inactive {
            return Action::Redraw;
        }
        self.popup.error_message = None;
        let date = match date {
            Some(date) => date,
            None => {
                self.popup.error_message = Some(
                    String::from_str("Invalid date format. Use YYYY-MM-DD"),
                );
                return Action::Redraw;
            },
        };
        let amount = match amount {
            Some(amount) => amount,
            None => {
                self.popup.error_message = Some(
                    String::from_str("Invalid amount format. Use decimal number"),
                );
                return Action::Redraw;
            },
        };
        let entry = Entry { date: date.to_iso(), amount };
        let file = self.selection.file;
        match self.popup.mode {
            PopupMode::EditEntry => match &self.popup.snapshot {
                Some(target) => Action::ReplaceEntry {
                    file,
                    target: target.clone(),
                    replacement: entry,
                },
                None => Action::Redraw,
            },
            _ => Action::AppendEntry { file, entry },
        }
    }

    /// Tries to save what the open popup holds.
    pub fn handle_saving_popup_entry(&mut self) -> (action: Action)
        requires
            old(self).well_formed(),
        ensures
            final(self).well_formed(),
            final(self).confirmed(old(self), action),
    {
        let date = Date::parse_ymd(self.popup.date_input.as_str());
        let amount = Amount::parse(self.popup.amount_input.as_str());
        self.confirm_parsed(date, amount)
    }

    /// Whether this state comes from `before` by the outcome of a save.
    ///
    /// Where the ledger could not be written, the open popup shows why and
    /// everything else stays. Where it was written, `outcome` holds what was
    /// read of it afterwards: its view becomes the report, as
    /// [`App::reload_file`] has it, the popup is closed, and a cursor that no
    /// longer lies on a row goes to the last one.
    pub open spec fn saved(
        &self,
        before: &App,
        outcome: Result<Option<Vec<Entry>>, String>,
        refused: Option<AppError>,
    ) -> bool {
        &&& self.files == before.files
        &&& self.format_options == before.format_options
        &&& self.focus == before.focus
        &&& self.selection.file == before.selection.file
        &&& match outcome {
            Err(reason) => {
                &&& self.report == before.report
                &&& self.selection == before.selection
                &&& refused is None
                &&& self.popup.mode == before.popup.mode
                &&& self.popup.focus == before.popup.focus
                &&& self.popup.date_input == before.popup.date_input
                &&& self.popup.amount_input == before.popup.amount_input
                &&& self.popup.snapshot == before.popup.snapshot
                &&& if before.popup.mode == PopupMode::Inactive {
                    self.popup == before.popup
                } else {
                    &&& self.popup.error_message is Some
                    &&& self.popup.error_message->0@ == save_failed_message(reason@)
                }
            },
            Ok(loaded) => {
                &&& self.popup.is_fresh()
                &&& self.report_follows(before, loaded, refused)
                &&& self.selection.year == clamped(
                    before.selection.year as int,
                    self.report.year_reports.len() as int,
                )
                &&& self.selection.entry == clamped(
                    before.selection.entry as int,
                    self.entry_count(),
                )
            },
        }
    }

    /// Takes in the outcome of a save: the reason why the ledger could not be
    /// written, or what was read of it after it was. The result says why no
    /// view of what was read could be made, if none could.
    pub fn save_finished(&mut self, outcome: Result<Option<Vec<Entry>>, String>) -> (refused: Option<
        AppError,
    >)
        requires
            old(self).well_formed(),
        ensures
            final(self).well_formed(),
            final(self).saved(old(self), outcome, refused),
    {
        match outcome {
            Err(reason) => {
                if self.popup.mode != PopupMode::Inactive {
                    let mut message = String::from_str("Failed to save: ");
                    message.append(reason.as_str());
                    self.popup.error_message = Some(message);
                }
                None
            },
            Ok(loaded) => {
                let refused = self.reload_file(loaded);
                self.selection.year = clamp(self.selection.year, self.report.year_reports.len());
                let count = self.year_entries_count();
                self.selection.entry = clamp(self.selection.entry, count);
                self.close_popup();
                refused
            },
        }
    }

    /// Whether this state comes from `before` by the key `key`, pressed on the
    /// day `today`, and `action` is what the key asks for outside.
    pub open spec fn answered(&self, before: &App, key: Key, today: DateView, action: Action) -> bool {
        match command_for(before.popup.mode, key) {
            Command::Quit => *self == *before && action is Quit,
            Command::OpenAdd => self.add_opened(before, today) && action is Redraw,
            Command::OpenEdit => self.edit_opened(before) && action is Redraw,
            Command::Next => self.navigated(before, true, action),
            Command::Previous => self.navigated(before, false, action),
            Command::CycleFocus => {
                &&& self.focus == before.focus.next_spec()
                &&& self.files == before.files
                &&& self.format_options == before.format_options
                &&& self.report == before.report
                &&& self.selection == before.selection
                &&& self.popup == before.popup
                &&& action is Redraw
            },
            Command::ClosePopup => {
                &&& self.same_but_popup(before)
                &&& self.popup.is_fresh()
                &&& action is Redraw
            },
            Command::CycleField => self.field_cycled(before) && action is Redraw,
            Command::Confirm => self.confirmed(before, action),
            Command::Type => self.typed(before, key) && action is Redraw,
            Command::Ignore => *self == *before && action is Redraw,
        }
    }

    /// Answers a key pressed on the day `today`: changes the state and says
    /// what is to be done outside.
    pub fn handle_key(&mut self, key: Key, today: &Date) -> (action: Action)
        requires
            old(self).well_formed(),
        ensures
            final(self).well_formed(),
            final(self).answered(old(self), key, today@, action),
    {
        match command(self.popup.mode, key) {
            Command::Quit => Action::Quit,
            Command::OpenAdd => {
                self.open_add_entry_popup(today);
                Action::Redraw
            },
            Command::OpenEdit => {
                self.open_edit_entry_popup();
                Action::Redraw
            },
            Command::Next => self.next(),
            Command::Previous => self.previous(),
            Command::CycleFocus => {
                self.cycle_focus();
                Action::Redraw
            },
            Command::ClosePopup => {
                self.close_popup();
                Action::Redraw
            },
            Command::CycleField => {
                self.cycle_popup_focus();
                Action::Redraw
            },
            Command::Confirm => self.handle_saving_popup_entry(),
            Command::Type => {
                self.handle_popup_input(key);
                Action::Redraw
            },
            Command::Ignore => Action::Redraw,
        }
    }
}

/// A change of ledger puts the cursors on the last year of the ledger that is
/// then shown, and on the last entry of that year; where the ledger has no
/// entries, on 0.
///
/// `moved` is the state after a step of the ledger cursor from `before` that
/// led to another ledger, `shown` the state after what was read for that
/// ledger came in.
pub proof fn lemma_ledger_change_selects_latest(
    before: App,
    moved: App,
    shown: App,
    forward: bool,
    action: Action,
    loaded: Option<Vec<Entry>>,
    refused: Option<AppError>,
)
    requires
        before.focus == Focus::Files,
        moved.navigated(&before, forward, action),
        moved.selection.file != before.selection.file,
        shown.same_frame(&moved),
        shown.report_follows(&moved, loaded, refused),
        shown.at_latest(),
    ensures
        action == (Action::LoadFile { file: moved.selection.file }),
        shown.selection.file == stepped(forward, before.selection.file as int, before.files.len() as int),
        shown.selection.year == last_index(shown.report.year_reports.len() as int),
        shown.selection.year < shown.report.year_reports.len() ==> shown.selection.entry
            == last_index(
            shown.report.year_reports[shown.selection.year as int].lines.len() as int,
        ),
        shown.report.year_reports.len() == 0 ==> shown.selection.year == 0 && shown.selection.entry
            == 0,
{
}

/// In a panel of a single row a step, forward or back, changes nothing: no
/// cursor moves and nothing is to be read.
pub proof fn lemma_single_row_step(before: App, after: App, forward: bool, action: Action)
    requires
        before.focused_count() == 1,
        before.focused_cursor() == 0,
        after.navigated(&before, forward, action),
    ensures
        after == before,
        action is Redraw,
{
    lemma_wrap(1, 1);
}

/// Among the entries of a year, a step and a step the other way lead back to
/// the entry one started from, and leave everything else as it was.
///
/// `moved` is the state after the first step from `before`, `back` the state
/// after the second.
pub proof fn lemma_entry_step_and_back(
    before: App,
    moved: App,
    back: App,
    forward: bool,
    first: Action,
    second: Action,
)
    requires
        before.focus == Focus::YearDetails,
        0 <= before.selection.entry < before.entry_count(),
        moved.navigated(&before, forward, first),
        back.navigated(&moved, !forward, second),
    ensures
        back.selection == before.selection,
        back.report == before.report,
        back.focus == before.focus,
        back.files == before.files,
        first is Redraw,
        second is Redraw,
{
    lemma_step_and_back(before.selection.entry as int, before.entry_count());
    lemma_wrap(before.selection.entry + 1, before.entry_count());
    lemma_wrap(before.selection.entry + before.entry_count() - 1, before.entry_count());
}

/// A character that is no digit, no point, and no minus sign at the start
/// leaves the amount field as it is.
pub proof fn lemma_amount_rejects(text: Seq<char>, c: char)
    requires
        !('0' <= c && c <= '9'),
        c != '.',
        !(c == '-' && text.len() == 0),
    ensures
        amount_after(text, Edit::Insert(c)) == text,
{
}

/// A character that the amount field takes goes to its end.
pub proof fn lemma_amount_accepts(text: Seq<char>, c: char)
    requires
        ('0' <= c && c <= '9') || c == '.' || (c == '-' && text.len() == 0),
    ensures
        amount_after(text, Edit::Insert(c)) == text.push(c),
{
}

/// An attempt to save while the date field holds no date leaves the popup in
/// its mode and shows a message; the next character or backspace takes the
/// message away.
///
/// `tried` is the state after the attempt on `before`, `next` the state after
/// the key `key` went to the popup.
pub proof fn lemma_error_shown_then_cleared(
    before: App,
    tried: App,
    next: App,
    action: Action,
    key: Key,
)
    requires
        before.popup.mode != PopupMode::Inactive,
        naive_date_parse_ymd(before.popup.date_input@) is None,
        tried.confirmed(&before, action),
        key_edit(key) is Some,
        next.typed(&tried, key),
    ensures
        tried.popup.mode == before.popup.mode,
        tried.popup.error_message is Some,
        tried.popup.error_message->0@ == invalid_date_message(),
        action is Redraw,
        next.popup.mode == before.popup.mode,
        next.popup.error_message is None,
{
}

} // verus!
