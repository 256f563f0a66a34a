use dear_file_manager::files::{FileColumn, FileRecord, FilesError, SortBy, SortDirection, SortingOptions};
use dear_file_manager::message::Message;
use dear_file_manager::state::{
    AppState, LoadError, OpenRecordError, PersistedSide, PersistedState, ReadDirData, ReadDirectoryError,
    SaveError, Side,
};
use dear_file_manager::update::{
    event_message, fullscreen_toggle, open_record_outcome, Application, InputEvent, KeyPress, Task,
    WindowMode,
};

fn file(name: &str, size: u64) -> FileRecord {
    FileRecord::from_entry(name.to_string(), true, size, 0)
}

fn folder(name: &str) -> FileRecord {
    FileRecord::from_entry(name.to_string(), false, 0, 0)
}

fn names(records: &[FileRecord]) -> Vec<String> {
    records.iter().map(|r| r.file_name.clone()).collect()
}

fn listing(side: Side, path: &str, records: Vec<FileRecord>) -> ReadDirData {
    ReadDirData { side, path: path.to_string(), records }
}

fn state_with_listings() -> AppState {
    let mut state = AppState::default();
    state.save_read_directory_data(listing(Side::Left, "/home", vec![file("b", 2), folder("docs"), file("a", 1)]));
    state.save_read_directory_data(listing(Side::Right, "/", vec![folder("usr"), folder("etc")]));
    state
}

#[test]
fn side_names_and_other() {
    assert_eq!(Side::Left.as_str(), "left");
    assert_eq!(Side::Right.to_string(), "right");
    assert!(Side::Left.is_left());
    assert!(!Side::Right.is_left());
    assert_eq!(Side::Left.other(), Side::Right);
    assert_eq!(Side::Right.other(), Side::Left);
}

#[test]
fn error_messages() {
    let read = ReadDirectoryError::ReadDir(FilesError::ReadDir);
    assert_eq!(read.to_string(), "failed to read directory ReadDir");
    assert_eq!(ReadDirectoryError::Canonicalize.to_string(), "failed to canonicalize path");
    assert_eq!(read.debug_text(), format!("{:#?}", read));
    assert_eq!(ReadDirectoryError::Canonicalize.debug_text(), format!("{:#?}", ReadDirectoryError::Canonicalize));
    assert_eq!(LoadError::File.to_string(), "missing file?");
    assert_eq!(LoadError::Format.to_string(), "invalid file format");
    assert_eq!(LoadError::GoToDir(read).to_string(), format!("reading directory error {:#?}", read));
    assert_eq!(
        LoadError::GoToDir(ReadDirectoryError::Canonicalize).to_string(),
        "reading directory error Canonicalize"
    );
    assert_ne!(SaveError::Write, SaveError::Format);
    assert_eq!(OpenRecordError::Error, OpenRecordError::Error);
}

#[test]
fn default_state() {
    let state = AppState::default();
    assert_eq!(state.get_selected_side(), Side::Left);
    assert_eq!(state.get_selected_idx(Side::Left), None);
    assert_eq!(state.get_selected_idx(Side::Right), None);
    assert_eq!(state.get_path(Side::Left), "");
    assert!(state.get_records(Side::Right).is_empty());
    assert_eq!(
        *state.get_sorting_options(Side::Left),
        SortingOptions { sort_by: SortBy::Name, direction: SortDirection::Ascending }
    );
    assert!(!state.is_fullscreen());
    assert!(!state.is_maximized());
}

#[test]
fn listing_outside_root_gets_go_back_record() {
    let state = state_with_listings();
    assert_eq!(names(state.get_records(Side::Left)), vec!["..", "docs", "a", "b"]);
    assert_eq!(state.get_path(Side::Left), "/home");
    assert_eq!(state.get_selected_idx(Side::Left), Some(0));
    assert!(state.get_records(Side::Left)[0].is_go_back_record);
}

#[test]
fn listing_of_root_has_no_go_back_record() {
    let state = state_with_listings();
    assert_eq!(names(state.get_records(Side::Right)), vec!["etc", "usr"]);
    assert_eq!(state.get_selected_idx(Side::Right), Some(0));
}

#[test]
fn toggle_focus_moves_selection_to_first_entry() {
    let mut state = state_with_listings();
    state.select_record_at_idx(Side::Left, 2);
    assert_eq!(state.get_selected_idx(Side::Left), Some(2));
    assert_eq!(state.get_selected_idx(Side::Right), None);
    state.toggle_side_focus();
    assert_eq!(state.get_selected_side(), Side::Right);
    assert_eq!(state.get_selected_idx(Side::Right), Some(0));
    assert_eq!(state.get_selected_idx(Side::Left), None);
    state.toggle_side_focus();
    assert_eq!(state.get_selected_side(), Side::Left);
    assert_eq!(state.get_selected_idx(Side::Left), Some(0));
    assert_eq!(state.get_selected_idx(Side::Right), None);
}

#[test]
fn select_next_and_prev_stop_at_the_ends() {
    let mut state = state_with_listings();
    state.select_record_at_idx(Side::Left, 0);
    state.select_prev_idx(Side::Left);
    assert_eq!(state.get_selected_idx(Side::Left), Some(0));
    for _ in 0..10 {
        state.select_next_idx(Side::Left);
    }
    assert_eq!(state.get_selected_idx(Side::Left), Some(3));
    state.select_prev_idx(Side::Left);
    assert_eq!(state.get_selected_idx(Side::Left), Some(2));
    state.select_next_idx(Side::Left);
    assert_eq!(state.get_selected_idx(Side::Left), Some(3));
}

#[test]
fn select_next_from_no_selection_selects_second_entry() {
    let mut state = state_with_listings();
    state.select_record_at_idx(Side::Left, 1);
    assert_eq!(state.get_selected_idx(Side::Right), None);
    state.select_next_idx(Side::Right);
    assert_eq!(state.get_selected_idx(Side::Right), Some(1));
    let mut empty = AppState::default();
    empty.select_next_idx(Side::Left);
    assert_eq!(empty.get_selected_idx(Side::Left), None);
    empty.select_prev_idx(Side::Left);
    assert_eq!(empty.get_selected_idx(Side::Left), None);
}

#[test]
fn is_selected_idx_and_selected_name() {
    let mut state = state_with_listings();
    state.select_record_at_idx(Side::Left, 1);
    assert!(state.is_selected_idx(Side::Left, 1));
    assert!(!state.is_selected_idx(Side::Left, 0));
    assert!(!state.is_selected_idx(Side::Right, 1));
    assert_eq!(state.get_selected_file_name(Side::Left), "docs");
}

#[test]
fn hover_per_column() {
    let mut state = state_with_listings();
    assert!(!state.get_hover_for_idx(Side::Left, 1));
    state.set_hover_for_idx_and_col(Side::Left, 1, FileColumn::Size, true);
    assert!(state.get_hover_for_idx(Side::Left, 1));
    assert_eq!(state.get_records(Side::Left)[1].hover, [false, true, false]);
    assert!(!state.get_hover_for_idx(Side::Left, 2));
    state.set_hover_for_idx_and_col(Side::Left, 1, FileColumn::Name, true);
    state.set_hover_for_idx_and_col(Side::Left, 1, FileColumn::Size, false);
    assert!(state.get_hover_for_idx(Side::Left, 1));
    state.set_hover_for_idx_and_col(Side::Left, 1, FileColumn::Name, false);
    assert!(!state.get_hover_for_idx(Side::Left, 1));
    assert_eq!(names(state.get_records(Side::Left)), vec!["..", "docs", "a", "b"]);
}

#[test]
fn sorting_a_pane_keeps_its_options() {
    let mut state = state_with_listings();
    let options = SortingOptions { sort_by: SortBy::Size, direction: SortDirection::Descending };
    state.sort_records(Side::Left, options);
    assert_eq!(*state.get_sorting_options(Side::Left), options);
    assert_eq!(names(state.get_records(Side::Left)), vec!["..", "docs", "b", "a"]);
    state.save_read_directory_data(listing(Side::Left, "/tmp", vec![file("x", 1), file("y", 9)]));
    assert_eq!(names(state.get_records(Side::Left)), vec!["..", "y", "x"]);
    assert_eq!(
        *state.get_sorting_options(Side::Right),
        SortingOptions { sort_by: SortBy::Name, direction: SortDirection::Ascending }
    );
}

#[test]
fn open_record_and_parent_data() {
    let mut state = state_with_listings();
    state.select_record_at_idx(Side::Left, 1);
    let record = state.get_open_record_data();
    assert_eq!(record.side, Side::Left);
    assert_eq!(record.path, "/home");
    assert_eq!(record.file_name, "docs");
    let parent = state.get_open_parent_data().unwrap();
    assert_eq!(parent.side, Side::Left);
    assert_eq!(parent.path_to_open, "/home/..");
    state.toggle_side_focus();
    assert!(state.get_open_parent_data().is_none());
    assert_eq!(state.get_path_to_open_at(Side::Left, 2), "/home/a");
    assert_eq!(state.get_path_to_open_at(Side::Right, 0), "/etc");
}

#[test]
fn persisted_state_round_trip() {
    let mut state = state_with_listings();
    state.select_record_at_idx(Side::Right, 1);
    state.set_fullscreen(true);
    state.sort_records(Side::Right, SortingOptions { sort_by: SortBy::Modified, direction: SortDirection::Descending });
    let kept = state.to_persisted();
    assert!(!kept.focused_side_left);
    assert_eq!(kept.right.selected_idx, Some(1));
    assert_eq!(kept.left.selected_idx, None);
    assert_eq!(kept.left.path, "/home");
    assert_eq!(kept.right.path, "/");
    assert!(kept.fullscreen);
    let back = AppState::from_persisted(kept);
    assert_eq!(back.get_selected_side(), Side::Right);
    assert_eq!(back.get_selected_idx(Side::Right), Some(1));
    assert_eq!(back.get_path(Side::Left), "/home");
    assert!(back.get_records(Side::Left).is_empty());
    assert!(back.is_fullscreen());
    assert_eq!(
        *back.get_sorting_options(Side::Right),
        SortingOptions { sort_by: SortBy::Modified, direction: SortDirection::Descending }
    );
}

#[test]
fn loading_restores_selection_after_listing_both_panes() {
    let kept = PersistedState {
        focused_side_left: false,
        left: PersistedSide {
            selected_idx: None,
            sorting_options: SortingOptions { sort_by: SortBy::Name, direction: SortDirection::Ascending },
            path: "/a".to_string(),
        },
        right: PersistedSide {
            selected_idx: Some(2),
            sorting_options: SortingOptions { sort_by: SortBy::Name, direction: SortDirection::Ascending },
            path: "/b".to_string(),
        },
        fullscreen: false,
        maximized: true,
    };
    let mut state = AppState::from_persisted(kept);
    let (side, idx) = state.load_selection();
    assert_eq!((side, idx), (Side::Right, 2));
    assert!(state.apply_loaded_directory(Ok(listing(Side::Right, "/b", vec![file("x", 1), file("y", 1)]))).is_ok());
    assert!(state.apply_loaded_directory(Ok(listing(Side::Left, "/a", vec![]))).is_ok());
    state.select_record_at_idx(side, idx);
    assert_eq!(state.get_selected_idx(Side::Right), Some(2));
    assert_eq!(state.get_selected_idx(Side::Left), None);
    assert_eq!(names(state.get_records(Side::Left)), vec![".."]);
    let err = state.apply_loaded_directory(Err(ReadDirectoryError::Canonicalize));
    assert_eq!(err, Err(LoadError::GoToDir(ReadDirectoryError::Canonicalize)));
    assert_eq!(state.get_selected_idx(Side::Right), Some(2));
}

#[test]
fn table_interactions() {
    let mut state = state_with_listings();
    state.select_record_at_idx(Side::Right, 0);
    let open = state.handle_table_interactions(Side::Left, Some(2), true, Some(1));
    assert_eq!(open.as_deref(), Some("/home/docs"));
    assert_eq!(state.get_selected_side(), Side::Left);
    assert_eq!(state.get_selected_idx(Side::Left), Some(2));
    assert_eq!(state.get_selected_idx(Side::Right), Some(0));
    let none = state.handle_table_interactions(Side::Right, None, false, None);
    assert!(none.is_none());
    assert_eq!(state.get_selected_side(), Side::Left);
    state.focus_window(Side::Right);
    assert_eq!(state.get_selected_side(), Side::Right);
    assert_eq!(state.get_selected_idx(Side::Left), Some(2));
}

fn loaded_app() -> Application {
    let mut app = Application::default();
    assert!(app.loading);
    let u = app.update(Message::AppLoaded(Ok(state_with_listings())));
    assert!(matches!(u.task, Task::Nothing));
    assert!(u.save.is_some());
    assert!(!app.loading);
    app
}

#[test]
fn update_on_load_starts_a_save() {
    let app = loaded_app();
    assert!(app.saving);
    assert!(!app.dirty);
}

#[test]
fn update_on_load_restores_window_mode() {
    let mut app = Application::default();
    let mut state = state_with_listings();
    state.set_fullscreen(true);
    state.set_maximized(true);
    let u = app.update(Message::AppLoaded(Ok(state)));
    assert!(matches!(u.task, Task::EnterFullscreen));
    assert!(!app.state.is_maximized());
    let mut app = Application::default();
    let mut state = state_with_listings();
    state.set_maximized(true);
    let u = app.update(Message::AppLoaded(Ok(state)));
    assert!(matches!(u.task, Task::MaximizeWindow));
    let mut app = Application::default();
    let u = app.update(Message::AppLoaded(Err(LoadError::File)));
    assert!(matches!(u.task, Task::Exit));
    assert!(u.save.is_none());
    assert!(app.loading);
}

#[test]
fn only_one_save_at_a_time() {
    let mut app = loaded_app();
    let u = app.update(Message::ToggleSideFocus);
    assert!(u.save.is_none());
    assert!(app.dirty);
    assert!(app.saving);
    let u = app.update(Message::AppSaved(Ok(())));
    let saved = u.save.expect("pending changes are saved once the previous save ends");
    assert!(!saved.focused_side_left);
    assert!(app.saving);
    assert!(!app.dirty);
    let u = app.update(Message::AppSaved(Err(SaveError::Write)));
    assert!(u.save.is_none());
    assert!(!app.saving);
}

#[test]
fn hover_and_toggles_do_not_mark_dirty() {
    let mut app = loaded_app();
    app.update(Message::AppSaved(Ok(())));
    let u = app.update(Message::RecordHover(Side::Left, 0, FileColumn::Name, true));
    assert!(u.save.is_none());
    assert!(!app.dirty);
    assert!(app.state.get_hover_for_idx(Side::Left, 0));
    assert!(matches!(app.update(Message::WindowToggleFullscreen).task, Task::ToggleFullscreen));
    assert!(matches!(app.update(Message::WindowToggleMaximize).task, Task::ToggleMaximize));
    assert!(!app.dirty);
    let u = app.update(Message::WindowMaximized(true));
    assert!(u.save.is_some());
    assert!(app.state.is_maximized());
}

#[test]
fn keys_move_the_selection_of_the_focused_pane() {
    let mut app = loaded_app();
    app.update(Message::SelectRecord(Side::Left, 1));
    app.update(Message::KeyArrowDown);
    assert_eq!(app.state.get_selected_idx(Side::Left), Some(2));
    app.update(Message::KeyArrowUp);
    app.update(Message::KeyArrowUp);
    assert_eq!(app.state.get_selected_idx(Side::Left), Some(0));
    let u = app.update(Message::KeyEnter);
    assert!(matches!(u.task, Task::Emit(Message::RecordDoubleClick)));
}

#[test]
fn backspace_goes_up_unless_at_root() {
    let mut app = loaded_app();
    match app.update(Message::KeyBackspace).task {
        Task::ReadDirectory { side, path } => {
            assert_eq!(side, Side::Left);
            assert_eq!(path, "/home/..");
        },
        _ => panic!("expected a directory read"),
    }
    app.update(Message::ToggleSideFocus);
    assert!(matches!(app.update(Message::KeyBackspace).task, Task::Nothing));
}

#[test]
fn opening_records_and_directories() {
    let mut app = loaded_app();
    app.update(Message::SelectRecord(Side::Left, 1));
    match app.update(Message::RecordDoubleClick).task {
        Task::OpenRecord(d) => {
            assert_eq!(d.side, Side::Left);
            assert_eq!(d.path, "/home");
            assert_eq!(d.file_name, "docs");
        },
        _ => panic!("expected a record to open"),
    }
    assert!(app.loading);
    let u = app.update(Message::DirectoryOpened(Ok(listing(Side::Left, "/home/docs", vec![file("z", 1)]))));
    assert!(matches!(u.task, Task::Nothing));
    assert!(!app.loading);
    assert_eq!(names(app.state.get_records(Side::Left)), vec!["..", "z"]);
    assert_eq!(app.state.get_path(Side::Left), "/home/docs");
    match app.update(Message::PathButtonClick(Side::Right, "/usr".to_string())).task {
        Task::ReadDirectory { side, path } => {
            assert_eq!(side, Side::Right);
            assert_eq!(path, "/usr");
        },
        _ => panic!("expected a directory read"),
    }
    assert!(app.loading);
    app.update(Message::FileOpened);
    assert!(!app.loading);
    let u = app.update(Message::DirectoryOpened(Err(ReadDirectoryError::Canonicalize)));
    assert!(matches!(u.task, Task::Exit));
    assert!(matches!(app.update(Message::AppExit).task, Task::Exit));
}

#[test]
fn sort_and_fullscreen_messages() {
    let mut app = loaded_app();
    let options = SortingOptions { sort_by: SortBy::Size, direction: SortDirection::Descending };
    app.update(Message::SortRecords(Side::Left, options));
    assert_eq!(names(app.state.get_records(Side::Left)), vec!["..", "docs", "b", "a"]);
    app.update(Message::WindowFullscreen(true));
    assert!(app.state.is_fullscreen());
}

#[test]
fn accepts_message_checks_indices() {
    let app = loaded_app();
    assert!(app.accepts_message(&Message::RecordHover(Side::Left, 3, FileColumn::Name, true)));
    assert!(!app.accepts_message(&Message::RecordHover(Side::Left, 4, FileColumn::Name, true)));
    assert!(app.accepts_message(&Message::RecordDoubleClick));
    let fresh = Application::default();
    assert!(!fresh.accepts_message(&Message::RecordDoubleClick));
    assert!(fresh.accepts_message(&Message::KeyEnter));
}

#[test]
fn events_become_messages() {
    assert!(matches!(event_message(&InputEvent::CloseRequested), Some(Message::AppExit)));
    assert!(event_message(&InputEvent::OtherWindowEvent).is_none());
    assert!(matches!(event_message(&InputEvent::KeyPressed(KeyPress::Escape)), Some(Message::AppExit)));
    assert!(matches!(event_message(&InputEvent::KeyPressed(KeyPress::Tab)), Some(Message::ToggleSideFocus)));
    assert!(matches!(event_message(&InputEvent::KeyPressed(KeyPress::ArrowDown)), Some(Message::KeyArrowDown)));
    assert!(matches!(event_message(&InputEvent::KeyPressed(KeyPress::ArrowUp)), Some(Message::KeyArrowUp)));
    assert!(matches!(event_message(&InputEvent::KeyPressed(KeyPress::Enter)), Some(Message::KeyEnter)));
    assert!(matches!(event_message(&InputEvent::KeyPressed(KeyPress::Backspace)), Some(Message::KeyBackspace)));
    assert!(matches!(
        event_message(&InputEvent::KeyPressed(KeyPress::Character("f".to_string()))),
        Some(Message::WindowToggleFullscreen)
    ));
    assert!(matches!(
        event_message(&InputEvent::KeyPressed(KeyPress::Character("m".to_string()))),
        Some(Message::WindowToggleMaximize)
    ));
    assert!(event_message(&InputEvent::KeyPressed(KeyPress::Character("x".to_string()))).is_none());
    assert!(event_message(&InputEvent::KeyPressed(KeyPress::Other)).is_none());
}

#[test]
fn fullscreen_toggle_by_mode() {
    assert!(matches!(
        fullscreen_toggle(WindowMode::Fullscreen),
        Some((WindowMode::Windowed, Message::WindowFullscreen(false)))
    ));
    assert!(matches!(
        fullscreen_toggle(WindowMode::Windowed),
        Some((WindowMode::Fullscreen, Message::WindowFullscreen(true)))
    ));
    assert!(fullscreen_toggle(WindowMode::Hidden).is_none());
}

#[test]
fn open_record_outcomes() {
    match open_record_outcome(Ok(Some(listing(Side::Right, "/x", vec![])))) {
        Message::DirectoryOpened(Ok(d)) => assert_eq!(d.path, "/x"),
        _ => panic!("expected the listing"),
    }
    assert!(matches!(open_record_outcome(Ok(None)), Message::FileOpened));
    assert!(matches!(open_record_outcome(Err(OpenRecordError::Error)), Message::AppExit));
}

#[test]
fn window_title() {
    assert_eq!(Application::title("0.1.0"), "Dear File Manager 0.1.0");
}

#[test]
fn messages_clone() {
    let m = Message::PathButtonClick(Side::Left, "/p".to_string());
    match m.clone() {
        Message::PathButtonClick(side, path) => {
            assert_eq!(side, Side::Left);
            assert_eq!(path, "/p");
        },
        _ => panic!("clone changed the message"),
    }
    let state = state_with_listings();
    let copy = state.clone();
    assert_eq!(names(copy.get_records(Side::Left)), names(state.get_records(Side::Left)));
}

#[test]
fn root_is_recognised_by_components() {
    for root in ["//", "/.", "/./", "///."] {
        let mut state = AppState::default();
        state.save_read_directory_data(listing(Side::Left, root, vec![folder("usr"), file("a", 1)]));
        assert_eq!(names(state.get_records(Side::Left)), vec!["usr", "a"], "{root}");
        assert!(state.get_open_parent_data().is_none(), "{root}");
    }
    let mut state = AppState::default();
    state.save_read_directory_data(listing(Side::Left, "/..", vec![folder("usr")]));
    assert_eq!(names(state.get_records(Side::Left)), vec!["..", "usr"]);
    assert_eq!(state.get_open_parent_data().unwrap().path_to_open, "/../..");
}
