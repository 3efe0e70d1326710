//! What the interface shows: three panels of rows, a footer, and the popup
//! when it is open. This is a description for a renderer, free of colours
//! and borders, together with the text of each line.

use ratatui::text::Span;
use vstd::prelude::*;
use crate::text::push_repeated;
use crate::text::repeated;
use crate::tui::App;
use crate::tui::Focus;
use crate::tui::PopupFocus;
use crate::tui::PopupMode;

verus! {

/// One row of a panel: a label on the left, a value on the right, and whether
/// the panel's cursor lies on it.
#[derive(Debug)]
pub struct Row {
    pub left: String,
    pub right: String,
    pub selected: bool,
}

/// A panel: its title, its rows, and whether it has the focus.
#[derive(Debug)]
pub struct Panel {
    pub title: String,
    pub rows: Vec<Row>,
    pub focused: bool,
}

/// A field of the popup: its label, what it holds, and whether the keyboard
/// writes to it.
#[derive(Debug)]
pub struct Field {
    pub label: String,
    pub value: String,
    pub focused: bool,
}

/// The open popup: its title, the ledger's name and the two fields, and the
/// error message if there is one.
#[derive(Debug)]
pub struct Overlay {
    pub title: String,
    pub fields: Vec<Field>,
    pub error: Option<String>,
}

/// Everything that is to be drawn.
#[derive(Debug)]
pub struct Screen {
    pub files: Panel,
    pub years: Panel,
    pub entries: Panel,
    pub footer: String,
    pub overlay: Option<Overlay>,
}

/// The width of a text on the terminal, in columns, as `ratatui` measures it.
pub uninterp spec fn span_width(text: Seq<char>) -> nat;

/// `Span::width` of the span that holds `text`: the result is the crate's own
/// measure of the text, which this library names and does not restate.
#[verifier::external_body]
fn display_width(text: &str) -> (r: usize)
    ensures
        r == span_width(text@),
{
    Span::raw(text).width()
}

/// The mark at the head of a row: a bar where the cursor lies on the row, a
/// thick one where the panel has the focus, and a blank elsewhere.
pub open spec fn row_mark(selected: bool, focused: bool) -> Seq<char> {
    if selected {
        if focused {
            "▌"@
        } else {
            "▎"@
        }
    } else {
        " "@
    }
}

/// The number of blanks between the label and the value of a row that is
/// `width` columns wide, where the label, the value, the mark and the blank at
/// the end take the given numbers of columns: what they leave of the width.
pub open spec fn spacer_for(width: nat, left: nat, right: nat, mark: nat, blank: nat) -> nat {
    let used = left + right + mark + blank;
    if used >= width {
        0
    } else {
        (width - used) as nat
    }
}

/// The number of blanks between the label and the value of a row that is
/// `width` columns wide: what the mark, the label, the value and one blank at
/// the end leave of the width, each measured in columns of the terminal.
pub open spec fn spacer_width(left: Seq<char>, right: Seq<char>, mark: Seq<char>, width: nat) -> nat {
    spacer_for(width, span_width(left), span_width(right), span_width(mark), span_width(" "@))
}

/// The text of a row with `spacer` blanks between the label and the value:
/// the mark, the label, the blanks, the value, and one blank.
pub open spec fn spaced_line(
    left: Seq<char>,
    right: Seq<char>,
    selected: bool,
    focused: bool,
    spacer: nat,
) -> Seq<char> {
    row_mark(selected, focused) + left + repeated(' ', spacer) + right + " "@
}

/// The text of a row that is `width` columns wide: the mark, the label, the
/// blanks that push the value to the right, the value, and one blank.
pub open spec fn line_text(
    left: Seq<char>,
    right: Seq<char>,
    selected: bool,
    focused: bool,
    width: nat,
) -> Seq<char> {
    spaced_line(
        left,
        right,
        selected,
        focused,
        spacer_width(left, right, row_mark(selected, focused), width),
    )
}

/// The mark at the head of a row.
pub fn mark_of(is_selected: bool, is_focused: bool) -> (r: &'static str)
    ensures
        r@ == row_mark(is_selected, is_focused),
{
    if is_selected {
        if is_focused {
            "▌"
        } else {
            "▎"
        }
    } else {
        " "
    }
}

/// The text of a row that is `width` columns wide, where the label, the
/// value, the mark and the blank at the end take `left_width`, `right_width`,
/// `mark_width` and `blank_width` columns.
pub fn compose_line(
    left: &str,
    right: &str,
    is_selected: bool,
    is_focused: bool,
    width: usize,
    left_width: usize,
    right_width: usize,
    mark_width: usize,
    blank_width: usize,
) -> (r: String)
    ensures
        r@ == spaced_line(
            left@,
            right@,
            is_selected,
            is_focused,
            spacer_for(
                width as nat,
                left_width as nat,
                right_width as nat,
                mark_width as nat,
                blank_width as nat,
            ),
        ),
{
    let used = left_width.saturating_add(right_width).saturating_add(mark_width).saturating_add(
        blank_width,
    );
    let spacer = width.saturating_sub(used);
    let mut line = String::from_str(mark_of(is_selected, is_focused));
    line.append(left);
    push_repeated(&mut line, ' ', spacer);
    line.append(right);
    line.append(" ");
    line
}

/// The text of a row that is `width` columns wide, each part measured in
/// columns of the terminal.
pub fn make_line(left: &str, right: &str, is_selected: bool, is_focused: bool, width: usize) -> (r:
    String)
    ensures
        r@ == line_text(left@, right@, is_selected, is_focused, width as nat),
{
    compose_line(
        left,
        right,
        is_selected,
        is_focused,
        width,
        display_width(left),
        display_width(right),
        display_width(mark_of(is_selected, is_focused)),
        display_width(" "),
    )
}

/// The mark at the head of a field: a bar where the keyboard writes to the
/// field, a blank elsewhere.
pub open spec fn field_mark(focused: bool) -> Seq<char> {
    if focused {
        "▌"@
    } else {
        " "@
    }
}

/// The text of a field: the mark, the label, two blanks, and what the field
/// holds.
pub open spec fn field_text(label: Seq<char>, value: Seq<char>, focused: bool) -> Seq<char> {
    field_mark(focused) + label + "  "@ + value
}

/// The text of the line that shows an error message.
pub open spec fn error_text(message: Seq<char>) -> Seq<char> {
    " "@ + "Error: "@ + message
}

/// A title as it stands in a border: between two blanks.
pub open spec fn title_text(title: Seq<char>) -> Seq<char> {
    " "@ + title + " "@
}

impl Field {
    /// The text of the field's line.
    pub fn line(&self) -> (r: String)
        ensures
            r@ == field_text(self.label@, self.value@, self.focused),
    {
        let mut line = String::from_str(if self.focused { "▌" } else { " " });
        line.append(self.label.as_str());
        line.append("  ");
        line.append(self.value.as_str());
        line
    }
}

/// The text of the line that shows an error message.
pub fn error_line(message: &str) -> (r: String)
    ensures
        r@ == error_text(message@),
{
    let mut line = String::from_str(" ");
    line.append("Error: ");
    line.append(message);
    line
}

/// A title as it stands in a border.
pub fn make_title(title: &str) -> (r: String)
    ensures
        r@ == title_text(title@),
{
    let mut line = String::from_str(" ");
    line.append(title);
    line.append(" ");
    line
}

/// The footer while the popup is closed.
pub open spec fn navigation_hint() -> Seq<char> {
    "↓(j)/↑(k): Navigate | Tab: Focus | a/e: Add/Edit Entry | q: Quit"@
}

/// The footer while the popup is open.
pub open spec fn popup_hint() -> Seq<char> {
    "Tab: Switch Field | Enter: Save | q: Cancel"@
}

impl App {
    /// Whether the panel `focus` has the focus: it is the one in focus, and
    /// the popup is closed.
    pub open spec fn panel_focused(&self, focus: Focus) -> bool {
        self.focus == focus && self.popup.mode == PopupMode::Inactive
    }

    /// Whether `panel` shows the ledgers: a row for each, with its name, and
    /// the total beside the one under the cursor.
    pub open spec fn shows_files(&self, panel: Panel) -> bool {
        &&& panel.title@ == "Files"@
        &&& panel.focused == self.panel_focused(Focus::Files)
        &&& panel.rows.len() == self.files.len()
        &&& forall|i: int|
            0 <= i < panel.rows.len() ==> {
                &&& (#[trigger] panel.rows[i]).left@ == self.files[i].name@
                &&& panel.rows[i].right@ == if i == self.selection.file {
                    self.report.total@
                } else {
                    Seq::<char>::empty()
                }
                &&& panel.rows[i].selected == (i == self.selection.file)
            }
    }

    /// Whether `panel` shows the years of the report: a row for each, with
    /// the year and its subtotal, under the report's title.
    pub open spec fn shows_years(&self, panel: Panel) -> bool {
        &&& panel.title@ == self.report.title@
        &&& panel.focused == self.panel_focused(Focus::Years)
        &&& panel.rows.len() == self.report.year_reports.len()
        &&& forall|i: int|
            0 <= i < panel.rows.len() ==> {
                &&& (#[trigger] panel.rows[i]).left@ == self.report.year_reports[i].title@
                &&& panel.rows[i].right@ == self.report.year_reports[i].subtotal_amount@
                &&& panel.rows[i].selected == (i == self.selection.year)
            }
    }

    /// Whether `panel` shows the entries of the year under the cursor: a row
    /// for each, with its day and its amount, under the year as title. Where
    /// the cursor lies on no year the panel is empty and has no title.
    pub open spec fn shows_entries(&self, panel: Panel) -> bool {
        &&& panel.focused == self.panel_focused(Focus::YearDetails)
        &&& if self.selection.year < self.report.year_reports.len() {
            let year = self.report.year_reports[self.selection.year as int];
            &&& panel.title@ == year.title@
            &&& panel.rows.len() == year.lines.len()
            &&& forall|i: int|
                0 <= i < panel.rows.len() ==> {
                    &&& (#[trigger] panel.rows[i]).left@ == year.lines[i].0@
                    &&& panel.rows[i].right@ == year.lines[i].1@
                    &&& panel.rows[i].selected == (i == self.selection.entry)
                }
        } else {
            &&& panel.title@.len() == 0
            &&& panel.rows.len() == 0
        }
    }

    /// The name of the ledger under the cursor; empty where there is none.
    pub open spec fn file_name(&self) -> Seq<char> {
        if self.selection.file < self.files.len() {
            self.files[self.selection.file as int].name@
        } else {
            Seq::<char>::empty()
        }
    }

    /// Whether `overlay` shows the popup: nothing while it is closed; while it
    /// is open its title, the ledger's name, the two fields with the mark on
    /// the one in focus, and the error message.
    pub open spec fn shows_popup(&self, overlay: Option<Overlay>) -> bool {
        match overlay {
            None => self.popup.mode == PopupMode::Inactive,
            Some(shown) => {
                &&& self.popup.mode != PopupMode::Inactive
                &&& shown.title@ == if self.popup.mode == PopupMode::AddEntry {
                    " Add New Entry "@
                } else {
                    " Edit Entry "@
                }
                &&& shown.fields.len() == 3
                &&& shown.fields[0].label@ == "File  "@
                &&& shown.fields[0].value@ == self.file_name()
                &&& !shown.fields[0].focused
                &&& shown.fields[1].label@ == "Date  "@
                &&& shown.fields[1].value@ == self.popup.date_input@
                &&& shown.fields[1].focused == (self.popup.focus == PopupFocus::Date)
                &&& shown.fields[2].label@ == "Amount"@
                &&& shown.fields[2].value@ == self.popup.amount_input@
                &&& shown.fields[2].focused == (self.popup.focus == PopupFocus::Amount)
                &&& shown.error == self.popup.error_message
            },
        }
    }

    /// The footer: the keys of the popup while it is open, else those of the
    /// panels.
    pub open spec fn footer_text(&self) -> Seq<char> {
        if self.popup.mode == PopupMode::Inactive {
            navigation_hint()
        } else {
            popup_hint()
        }
    }

    /// Whether `screen` shows this state.
    pub open spec fn shown_as(&self, screen: Screen) -> bool {
        &&& self.shows_files(screen.files)
        &&& self.shows_years(screen.years)
        &&& self.shows_entries(screen.entries)
        &&& screen.footer@ == self.footer_text()
        &&& self.shows_popup(screen.overlay)
    }

    fn files_panel(&self) -> (panel: Panel)
        ensures
            self.shows_files(panel),
    {
        let mut rows: Vec<Row> = Vec::new();
        let mut i: usize = 0;
        while i < self.files.len()
            invariant
                i <= self.files.len(),
                rows.len() == i,
                forall|k: int|
                    0 <= k < i ==> {
                        &&& (#[trigger] rows[k]).left@ == self.files[k].name@
                        &&& rows[k].right@ == if k == self.selection.file {
                            self.report.total@
                        } else {
                            Seq::<char>::empty()
                        }
                        &&& rows[k].selected == (k == self.selection.file)
                    },
            decreases self.files.len() - i,
        {
            let selected = i == self.selection.file;
            rows.push(
                Row {
                    left: self.files[i].name.clone(),
                    right: if selected { self.report.total.clone() } else { String::new() },
                    selected,
                },
            );
            i = i + 1;
        }
        Panel {
            title: String::from_str("Files"),
            rows,
            focused: self.focus == Focus::Files && self.popup.mode == PopupMode::Inactive,
        }
    }

    fn years_panel(&self) -> (panel: Panel)
        ensures
            self.shows_years(panel),
    {
        let mut rows: Vec<Row> = Vec::new();
        let mut i: usize = 0;
        while i < self.report.year_reports.len()
            invariant
                i <= self.report.year_reports.len(),
                rows.len() == i,
                forall|k: int|
                    0 <= k < i ==> {
                        &&& (#[trigger] rows[k]).left@ == self.report.year_reports[k].title@
                        &&& rows[k].right@ == self.report.year_reports[k].subtotal_amount@
                        &&& rows[k].selected == (k == self.selection.year)
                    },
            decreases self.report.year_reports.len() - i,
        {
            let year = &self.report.year_reports[i];
            rows.push(
                Row {
                    left: year.title.clone(),
                    right: year.subtotal_amount.clone(),
                    selected: i == self.selection.year,
                },
            );
            i = i + 1;
        }
        Panel {
            title: self.report.title.clone(),
            rows,
            focused: self.focus == Focus::Years && self.popup.mode == PopupMode::Inactive,
        }
    }

    fn entries_panel(&self) -> (panel: Panel)
        ensures
            self.shows_entries(panel),
    {
        let focused = self.focus == Focus::YearDetails && self.popup.mode == PopupMode::Inactive;
        if self.selection.year >= self.report.year_reports.len() {
            return Panel { title: String::new(), rows: Vec::new(), focused };
        }
        let year = &self.report.year_reports[self.selection.year];
        let mut rows: Vec<Row> = Vec::new();
        let mut i: usize = 0;
        while i < year.lines.len()
            invariant
                i <= year.lines.len(),
                rows.len() == i,
                forall|k: int|
                    0 <= k < i ==> {
                        &&& (#[trigger] rows[k]).left@ == year.lines[k].0@
                        &&& rows[k].right@ == year.lines[k].1@
                        &&& rows[k].selected == (k == self.selection.entry)
                    },
            decreases year.lines.len() - i,
        {
            rows.push(
                Row {
                    left: year.lines[i].0.clone(),
                    right: year.lines[i].1.clone(),
                    selected: i == self.selection.entry,
                },
            );
            i = i + 1;
        }
        Panel { title: year.title.clone(), rows, focused }
    }

    fn overlay(&self) -> (overlay: Option<Overlay>)
        ensures
            self.shows_popup(overlay),
    {
        if self.popup.mode == PopupMode::Inactive {
            return None;
        }
        let name = if self.selection.file < self.files.len() {
            self.files[self.selection.file].name.clone()
        } else {
            String::new()
        };
        let mut fields: Vec<Field> = Vec::new();
        fields.push(Field { label: String::from_str("File  "), value: name, focused: false });
        fields.push(
            Field {
                label: String::from_str("Date  "),
                value: self.popup.date_input.clone(),
                focused: self.popup.focus == PopupFocus::Date,
            },
        );
        fields.push(
            Field {
                label: String::from_str("Amount"),
                value: self.popup.amount_input.clone(),
                focused: self.popup.focus == PopupFocus::Amount,
            },
        );
        let title = if self.popup.mode == PopupMode::AddEntry {
            String::from_str(" Add New Entry ")
        } else {
            String::from_str(" Edit Entry ")
        };
        let error = match &self.popup.error_message {
            Some(message) => Some(message.clone()),
            None => None,
        };
        Some(Overlay { title, fields, error })
    }

    /// What is to be drawn of this state.
    pub fn screen(&self) -> (screen: Screen)
        ensures
            self.shown_as(screen),
    {
        let footer = if self.popup.mode == PopupMode::Inactive {
            String::from_str("↓(j)/↑(k): Navigate | Tab: Focus | a/e: Add/Edit Entry | q: Quit")
        } else {
            String::from_str("Tab: Switch Field | Enter: Save | q: Cancel")
        };
        Screen {
            files: self.files_panel(),
            years: self.years_panel(),
            entries: self.entries_panel(),
            footer,
            overlay: self.overlay(),
        }
    }
}

} // verus!
