use std::collections::HashSet;
use dear_file_manager::files::{FileColumn, FileRecord, SortBy, SortDirection, SortingOptions};
use dear_file_manager::frames::FrameRateMeter;
use dear_file_manager::table::{
    cell_background, displayed_row, header_button, long_text, modified_text, modified_text_at, size_text, sort_icon,
    thick_row, toggle_row_selection, CellBackground, HeaderButton, TableClicks, NUM_MANUAL_ROWS,
};

#[test]
fn header_of_ordering_column_flips_direction() {
    let o = SortingOptions { sort_by: SortBy::Size, direction: SortDirection::Ascending };
    assert_eq!(
        header_button(&o, FileColumn::Size),
        HeaderButton {
            shown_direction: Some(SortDirection::Ascending),
            on_press: SortingOptions { sort_by: SortBy::Size, direction: SortDirection::Descending },
        }
    );
    let pressed = header_button(&o, FileColumn::Size).on_press;
    assert_eq!(header_button(&pressed, FileColumn::Size).on_press, o);
}

#[test]
fn header_of_other_column_orders_ascending() {
    let o = SortingOptions { sort_by: SortBy::Name, direction: SortDirection::Descending };
    assert_eq!(
        header_button(&o, FileColumn::Modified),
        HeaderButton {
            shown_direction: None,
            on_press: SortingOptions { sort_by: SortBy::Modified, direction: SortDirection::Ascending },
        }
    );
}

#[test]
fn sort_icons() {
    assert_eq!(sort_icon(SortDirection::Ascending), "▲");
    assert_eq!(sort_icon(SortDirection::Descending), "▼");
}

#[test]
fn cell_backgrounds() {
    assert_eq!(cell_background(true, true), CellBackground::Selected);
    assert_eq!(cell_background(true, false), CellBackground::Selected);
    assert_eq!(cell_background(false, true), CellBackground::Hovered);
    assert_eq!(cell_background(false, false), CellBackground::Plain);
}

#[test]
fn size_texts() {
    assert_eq!(size_text(&FileRecord::new_go_back_record()), "");
    assert_eq!(size_text(&FileRecord::from_entry("d".to_string(), false, 4096, 0)), "--");
    assert_eq!(size_text(&FileRecord::from_entry("f".to_string(), true, 0, 0)), "0 B");
    assert_eq!(size_text(&FileRecord::from_entry("f".to_string(), true, 999, 0)), "999 B");
    assert_eq!(size_text(&FileRecord::from_entry("f".to_string(), true, 1500, 0)), "1.5 kB");
    assert_eq!(size_text(&FileRecord::from_entry("f".to_string(), true, 2_000_000, 0)), "2 MB");
}

#[test]
fn modified_texts() {
    assert_eq!(modified_text(&FileRecord::new_go_back_record()), "");
    let text = modified_text(&FileRecord::from_entry("f".to_string(), true, 0, 1_700_000_000_000_000_000));
    assert!(text.contains(" 2023 at "), "{text}");
}

#[test]
fn modified_text_layout() {
    // 14 Nov 2023 22:13:20 UTC: every time zone sees November 2023.
    let text = modified_text(&FileRecord::from_entry("f".to_string(), true, 0, 1_700_000_000_000_000_000));
    assert_eq!(text.len(), 20, "{text}");
    assert_eq!(&text[2..15], " Nov 2023 at ", "{text}");
    assert_eq!(&text[17..18], ":", "{text}");
}

#[test]
fn demo_rows() {
    assert_eq!(NUM_MANUAL_ROWS, 20);
    assert_eq!(displayed_row(false, 3), 3);
    assert_eq!(displayed_row(true, 0), 19);
    assert_eq!(displayed_row(true, 19), 0);
    assert!(thick_row(0));
    assert!(thick_row(12));
    assert!(!thick_row(7));
    assert_eq!(
        long_text(7),
        "Row 7 has some long text that you may want to clip, or it will take up too much horizontal space!"
    );
    assert_eq!(long_text(12), format!(
        "Row {} has some long text that you may want to clip, or it will take up too much horizontal space!",
        12
    ));
}

#[test]
fn row_selection_toggles_on_click() {
    let mut selection: HashSet<usize> = HashSet::new();
    toggle_row_selection(&mut selection, 4, false);
    assert!(selection.is_empty());
    toggle_row_selection(&mut selection, 4, true);
    assert!(selection.contains(&4));
    toggle_row_selection(&mut selection, 5, true);
    toggle_row_selection(&mut selection, 4, true);
    assert!(!selection.contains(&4));
    assert!(selection.contains(&5));
}

#[test]
fn table_clicks_track_selection_and_double_clicks() {
    let mut clicks = TableClicks::new(Some(2));
    assert!(clicks.is_selected(2));
    assert!(!clicks.is_selected(1));
    assert!(!clicks.any_row_clicked);
    clicks.row_clicked(4, false);
    assert_eq!(clicks, TableClicks { selected_idx: Some(4), double_clicked_idx: None, any_row_clicked: true });
    clicks.row_clicked(1, true);
    assert_eq!(clicks, TableClicks { selected_idx: Some(1), double_clicked_idx: Some(1), any_row_clicked: true });
    clicks.row_clicked(3, false);
    assert_eq!(clicks.double_clicked_idx, Some(1));
    assert!(!TableClicks::new(None).is_selected(0));
}

#[test]
fn column_index_orders() {
    assert_eq!(SortBy::for_column_index(0), SortBy::Name);
    assert_eq!(SortBy::for_column_index(1), SortBy::Size);
    assert_eq!(SortBy::for_column_index(2), SortBy::Modified);
}

#[test]
fn frame_rate_is_measured_each_second() {
    let mut meter = FrameRateMeter::new(1_000);
    meter.frame(500_000_000, 30);
    assert_eq!(meter.frame_rate, 0);
    assert_eq!(meter.frame_count, 30);
    meter.frame(1_000_001_001, 61);
    assert_eq!(meter.frame_rate, 61);
    assert_eq!(meter.last_measure_frame_count, 61);
    assert_eq!(meter.last_frame_measure_time, 1_000_001_001);
    meter.frame(1_500_000_000, 90);
    assert_eq!(meter.frame_rate, 61);
    meter.frame(2_000_001_002, 120);
    assert_eq!(meter.frame_rate, 59);
    meter.frame(5, 121);
    assert_eq!(meter.frame_rate, 59);
    assert_eq!(meter.frame_count, 121);
}

#[test]
fn modified_text_at_a_given_offset() {
    let record = FileRecord::from_entry("f".to_string(), true, 0, 1_700_000_000_000_000_000);
    assert_eq!(modified_text_at(&record, 0), "14 Nov 2023 at 22:13");
    assert_eq!(modified_text_at(&record, 3600), "14 Nov 2023 at 23:13");
    assert_eq!(modified_text_at(&record, 7200), "15 Nov 2023 at 00:13");
    assert_eq!(modified_text_at(&record, -5 * 3600), "14 Nov 2023 at 17:13");
    assert_eq!(modified_text_at(&FileRecord::new_go_back_record(), 3600), "");
}
