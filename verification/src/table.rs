//! What the listing tables show: header buttons, cell highlighting and
//! cell texts, and the rows of the demonstration table.
use vstd::prelude::*;
use std::collections::HashSet;
use crate::files::{FileColumn, FileRecord, SortDirection, SortingOptions};
use crate::text::{decimal, decimal_string};

verus! {

/// What a column header's sort button shows and asks for when pressed.
#[derive(Debug, Clone, Copy, PartialEq, Eq, Structural)]
pub struct HeaderButton {
    /// The direction shown, when the listing is ordered by this column.
    pub shown_direction: Option<SortDirection>,
    /// The ordering that pressing the button asks for.
    pub on_press: SortingOptions,
}

/// The header button of column `file_col` when the pane is ordered by
/// `options`: the ordering column shows its direction and flips it; any
/// other column orders by itself, ascending.
pub fn header_button(options: &SortingOptions, file_col: FileColumn) -> (b: HeaderButton)
    ensures
        options.sort_by == file_col.spec_sort_by() ==> b == (HeaderButton {
            shown_direction: Some(options.direction),
            on_press: SortingOptions { sort_by: options.sort_by, direction: options.direction.toggled() },
        }),
        options.sort_by != file_col.spec_sort_by() ==> b == (HeaderButton {
            shown_direction: None,
            on_press: SortingOptions { sort_by: file_col.spec_sort_by(), direction: SortDirection::Ascending },
        }),
{
    let sort_by = file_col.sort_by();
    if options.sort_by == sort_by {
        HeaderButton {
            shown_direction: Some(options.direction),
            on_press: SortingOptions { sort_by, direction: options.direction.toggle() },
        }
    } else {
        HeaderButton {
            shown_direction: None,
            on_press: SortingOptions { sort_by, direction: SortDirection::Ascending },
        }
    }
}

/// The arrow a sort button shows: up for ascending, down for descending.
pub fn sort_icon(direction: SortDirection) -> (s: &'static str)
    ensures
        direction == SortDirection::Ascending ==> s@ == "\u{25B2}"@,
        direction == SortDirection::Descending ==> s@ == "\u{25BC}"@,
{
    match direction {
        SortDirection::Ascending => "\u{25B2}",
        SortDirection::Descending => "\u{25BC}",
    }
}

/// How a table cell is highlighted.
#[derive(Debug, Clone, Copy, PartialEq, Eq, Structural)]
pub enum CellBackground {
    Selected,
    Hovered,
    Plain,
}

/// A selected row stands out; otherwise a row under the pointer does.
pub fn cell_background(is_selected: bool, hover: bool) -> (c: CellBackground)
    ensures
        is_selected ==> c == CellBackground::Selected,
        !is_selected && hover ==> c == CellBackground::Hovered,
        !is_selected && !hover ==> c == CellBackground::Plain,
{
    if is_selected {
        CellBackground::Selected
    } else if hover {
        CellBackground::Hovered
    } else {
        CellBackground::Plain
    }
}

/// What `humansize::format_size` returns for `size` bytes with the `DECIMAL`
/// options and `places` decimal places.
pub uninterp spec fn decimal_size_text(size: u64, places: usize) -> Seq<char>;

/// Calls `humansize::format_size` with `DECIMAL` units and `places` decimal
/// places. Its result depends on the arguments alone, and is named. Below
/// 1000 bytes no division happens and the value has no fraction, so the
/// crate writes the number, a space and "B". `places` becomes a format
/// precision, which std keeps in 16 bits, so it is held to that range.
#[verifier::external_body]
fn format_size_decimal(size: u64, places: usize) -> (s: String)
    requires
        places <= 65535,
    ensures
        s@ == decimal_size_text(size, places),
        size < 1000 ==> s@ == decimal(size as nat) + " B"@,
{
    humansize::format_size(size, humansize::DECIMAL.decimal_places(places))
}

/// The `chrono` pattern of the modified column: day, short month name,
/// year, then "at" and the time of day.
pub open spec fn modified_time_pattern() -> Seq<char> {
    "%d %b %Y at %H:%M"@
}

/// What `chrono` writes for the instant `nanos` nanoseconds after the Unix
/// epoch, seen at a UTC offset of `offset_secs` seconds, formatted with
/// `pattern` (`DateTime::from_timestamp_nanos`, `with_timezone` to that
/// `FixedOffset`, `format`, `to_string`).
pub uninterp spec fn formatted_time(nanos: i64, offset_secs: i32, pattern: Seq<char>) -> Seq<char>;

/// The machine's UTC offset, in seconds, at the instant `nanos` nanoseconds
/// after the Unix epoch (`DateTime::from_timestamp_nanos`,
/// `with_timezone(&Local)`, `offset().local_minus_utc()`). It depends on the
/// machine's time zone, so only the range that a `FixedOffset` always keeps
/// is stated.
#[verifier::external_body]
fn local_utc_offset(nanos: i64) -> (secs: i32)
    ensures
        -86_400 < secs < 86_400,
{
    chrono::DateTime::from_timestamp_nanos(nanos).with_timezone(&chrono::Local).offset().local_minus_utc()
}

/// Formats the instant `nanos` nanoseconds after the Unix epoch at the UTC
/// offset `offset_secs` with the modified column's pattern. The result
/// depends on the arguments alone (the pattern holds no time-zone field),
/// and is named.
#[verifier::external_body]
fn format_time_at_offset(nanos: i64, offset_secs: i32, pattern: &str) -> (s: String)
    requires
        -86_400 < offset_secs < 86_400,
        pattern@ == modified_time_pattern(),
    ensures
        s@ == formatted_time(nanos, offset_secs, pattern@),
{
    let offset = chrono::FixedOffset::east_opt(offset_secs).unwrap();
    chrono::DateTime::from_timestamp_nanos(nanos).with_timezone(&offset).format(pattern).to_string()
}

/// The size column's text: empty for the go-back record, the size in
/// decimal units with one decimal place for a file, "--" for a folder.
pub fn size_text(record: &FileRecord) -> (s: String)
    ensures
        record.is_go_back_record ==> s@ == Seq::<char>::empty(),
        !record.is_go_back_record && record.is_file ==> s@ == decimal_size_text(record.size, 1),
        !record.is_go_back_record && !record.is_file ==> s@ == "--"@,
{
    if record.is_go_back_record {
        String::new()
    } else {
        let size = record.size;
        let is_file = record.is_file;

        if is_file {
            format_size_decimal(size, 1)
        } else {
            "--".to_owned()
        }
    }
}

/// The modified column's text at the UTC offset `offset_secs`: empty for
/// the go-back record, otherwise the modification time formatted with
/// `modified_time_pattern` at that offset.
pub fn modified_text_at(record: &FileRecord, offset_secs: i32) -> (s: String)
    requires
        -86_400 < offset_secs < 86_400,
    ensures
        record.is_go_back_record ==> s@ == Seq::<char>::empty(),
        !record.is_go_back_record ==> s@ == formatted_time(record.modified, offset_secs, modified_time_pattern()),
{
    if record.is_go_back_record {
        String::new()
    } else {
        format_time_at_offset(record.modified, offset_secs, "%d %b %Y at %H:%M")
    }
}

/// The modified column's text: empty for the go-back record, otherwise the
/// modification time formatted with `modified_time_pattern` at the
/// machine's UTC offset for that instant.
pub fn modified_text(record: &FileRecord) -> (s: String)
    ensures
        record.is_go_back_record ==> s@ == Seq::<char>::empty(),
        !record.is_go_back_record ==> exists|offset_secs: i32|
            -86_400 < offset_secs < 86_400 && s@ == formatted_time(
                record.modified,
                offset_secs,
                modified_time_pattern(),
            ),
{
    if record.is_go_back_record {
        String::new()
    } else {
        let offset_secs = local_utc_offset(record.modified);
        let s = modified_text_at(record, offset_secs);
        assert(-86_400 < offset_secs < 86_400 && s@ == formatted_time(
            record.modified,
            offset_secs,
            modified_time_pattern(),
        ));
        s
    }
}

/// The number of rows of the demonstration table.
pub const NUM_MANUAL_ROWS: usize = 20;

/// The row shown at position `row_index`, counting from the bottom when the
/// table is reversed.
pub fn displayed_row(reversed: bool, row_index: usize) -> (r: usize)
    requires
        row_index < NUM_MANUAL_ROWS,
    ensures
        r == if reversed { NUM_MANUAL_ROWS - 1 - row_index } else { row_index as int },
{
    if reversed {
        NUM_MANUAL_ROWS - 1 - row_index
    } else {
        row_index
    }
}

/// Every sixth row, starting with the first, is drawn taller.
pub fn thick_row(row_index: usize) -> (b: bool)
    ensures
        b == (row_index % 6 == 0),
{
    row_index % 6 == 0
}

/// The long text of a demonstration row.
pub fn long_text(row_index: usize) -> (s: String)
    ensures
        s@ == "Row "@ + decimal(row_index as nat)
            + " has some long text that you may want to clip, or it will take up too much horizontal space!"@,
{
    let mut s = "Row ".to_owned();
    let number = decimal_string(row_index as u64);
    s.append(number.as_str());
    s.append(" has some long text that you may want to clip, or it will take up too much horizontal space!");
    s
}

/// A click on a row adds it to the selection, or removes it if it was
/// selected.
pub fn toggle_row_selection(selection: &mut HashSet<usize>, row_index: usize, clicked: bool)
    ensures
        !clicked ==> final(selection)@ == old(selection)@,
        clicked && old(selection)@.contains(row_index) ==> final(selection)@ == old(selection)@.remove(row_index),
        clicked && !old(selection)@.contains(row_index) ==> final(selection)@ == old(selection)@.insert(row_index),
{
    broadcast use vstd::std_specs::hash::group_hash_axioms;
    if clicked {
        if selection.contains(&row_index) {
            selection.remove(&row_index);
        } else {
            selection.insert(row_index);
        }
    }
}


/// What happened in a table's rows during one frame: the row last clicked,
/// the row double-clicked, and whether any row was clicked.
#[derive(Debug, Clone, Copy, PartialEq, Eq, Structural)]
pub struct TableClicks {
    pub selected_idx: Option<usize>,
    pub double_clicked_idx: Option<usize>,
    pub any_row_clicked: bool,
}

impl TableClicks {
    /// No clicks yet, with `selected_idx` selected.
    pub fn new(selected_idx: Option<usize>) -> (c: TableClicks)
        ensures
            c == (TableClicks { selected_idx, double_clicked_idx: None, any_row_clicked: false }),
    {
        TableClicks { selected_idx, double_clicked_idx: None, any_row_clicked: false }
    }

    /// Whether row `idx` shows as selected.
    pub fn is_selected(&self, idx: usize) -> (b: bool)
        ensures
            b == (self.selected_idx == Some(idx)),
    {
        match self.selected_idx {
            Some(selected_idx) => idx == selected_idx,
            None => false,
        }
    }

    /// Row `idx` was clicked, twice in a row when `double` says so: it
    /// becomes the selection, and the double-clicked row when doubled.
    pub fn row_clicked(&mut self, idx: usize, double: bool)
        ensures
            final(self).selected_idx == Some(idx),
            final(self).any_row_clicked,
            final(self).double_clicked_idx == if double { Some(idx) } else { old(self).double_clicked_idx },
    {
        if double {
            self.double_clicked_idx = Some(idx);
        }

        self.selected_idx = Some(idx);
        self.any_row_clicked = true;
    }
}

} // verus!
