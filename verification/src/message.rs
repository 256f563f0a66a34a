//! The events the application reacts to.
use vstd::prelude::*;
use crate::files::{FileColumn, SortingOptions};
use crate::state::{AppState, LoadError, ReadDirData, ReadDirectoryError, SaveError, Side};

verus! {

/// An event: user input, a window change, or the outcome of earlier work.
#[derive(Debug)]
pub enum Message {
    AppExit,
    AppLoaded(Result<AppState, LoadError>),
    AppSaved(Result<(), SaveError>),

    WindowFullscreen(bool),
    WindowToggleFullscreen,

    WindowMaximized(bool),
    WindowToggleMaximize,

    ToggleSideFocus,
    SelectRecord(Side, usize),

    RecordHover(Side, usize, FileColumn, bool),
    SortRecords(Side, SortingOptions),

    KeyArrowDown,
    KeyArrowUp,
    KeyEnter,
    KeyBackspace,

    PathButtonClick(Side, String),
    RecordDoubleClick,
    DirectoryOpened(Result<ReadDirData, ReadDirectoryError>),
    FileOpened,
}


impl Clone for Message {
    fn clone(&self) -> (m: Self) {
        match self {
            Message::AppExit => Message::AppExit,
            Message::AppLoaded(result) => Message::AppLoaded(
                match result {
                    Ok(state) => Ok(state.clone()),
                    Err(e) => Err(*e),
                },
            ),
            Message::AppSaved(result) => Message::AppSaved(
                match result {
                    Ok(()) => Ok(()),
                    Err(e) => Err(*e),
                },
            ),
            Message::WindowFullscreen(b) => Message::WindowFullscreen(*b),
            Message::WindowToggleFullscreen => Message::WindowToggleFullscreen,
            Message::WindowMaximized(b) => Message::WindowMaximized(*b),
            Message::WindowToggleMaximize => Message::WindowToggleMaximize,
            Message::ToggleSideFocus => Message::ToggleSideFocus,
            Message::SelectRecord(side, idx) => Message::SelectRecord(*side, *idx),
            Message::RecordHover(side, idx, col, hover) => Message::RecordHover(*side, *idx, *col, *hover),
            Message::SortRecords(side, options) => Message::SortRecords(*side, *options),
            Message::KeyArrowDown => Message::KeyArrowDown,
            Message::KeyArrowUp => Message::KeyArrowUp,
            Message::KeyEnter => Message::KeyEnter,
            Message::KeyBackspace => Message::KeyBackspace,
            Message::PathButtonClick(side, path) => Message::PathButtonClick(*side, path.clone()),
            Message::RecordDoubleClick => Message::RecordDoubleClick,
            Message::DirectoryOpened(result) => Message::DirectoryOpened(
                match result {
                    Ok(data) => Ok(data.clone()),
                    Err(e) => Err(*e),
                },
            ),
            Message::FileOpened => Message::FileOpened,
        }
    }
}

} // verus!
