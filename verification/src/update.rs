//! The application's reaction to each event: how the state changes, which
//! work is handed back to be performed, and when the state is saved.
use vstd::prelude::*;
use crate::message::Message;
use crate::state::{AppState, AppStateView, OpenRecordData, PersistedState, ReadDirData, Side,
    SideView, persists, shown_listing, with_hover, with_records};
use crate::text::{is_root_path, joined_path};

verus! {

/// How the window is shown.
#[derive(Debug, Clone, Copy, PartialEq, Eq, Structural)]
pub enum WindowMode {
    Windowed,
    Fullscreen,
    Hidden,
}

/// Work that the event loop performs after an update, reporting back with
/// further messages.
#[derive(Debug)]
pub enum Task {
    /// Nothing to do.
    Nothing,
    /// Quit the application.
    Exit,
    /// Show the window fullscreen.
    EnterFullscreen,
    /// Maximize the window, then report `WindowMaximized(true)`.
    MaximizeWindow,
    /// Look up the window's mode and switch it as `fullscreen_toggle` says.
    ToggleFullscreen,
    /// Toggle maximization, then report whether the window is maximized.
    ToggleMaximize,
    /// Deliver this message.
    Emit(Message),
    /// List directory `path` for pane `side`, reporting `DirectoryOpened`.
    ReadDirectory { side: Side, path: String },
    /// Open the record: list it if it is a directory, else hand it to the
    /// system; the outcome is reported as `open_record_outcome` says.
    OpenRecord(OpenRecordData),
}

/// The application: its state, and whether a directory is being loaded,
/// the state has unsaved changes, or a save is under way.
pub struct Application {
    pub state: AppState,
    pub loading: bool,
    pub dirty: bool,
    pub saving: bool,
}

/// The application, as contracts speak of it.
pub struct ApplicationView {
    pub state: AppStateView,
    pub loading: bool,
    pub dirty: bool,
    pub saving: bool,
}

impl View for Application {
    type V = ApplicationView;

    open spec fn view(&self) -> ApplicationView {
        ApplicationView { state: self.state@, loading: self.loading, dirty: self.dirty, saving: self.saving }
    }
}

/// What one update hands back: the work to perform and, when a save is
/// due, what to save.
pub struct Update {
    pub task: Task,
    pub save: Option<PersistedState>,
}

/// Whether handling `m` changes what is saved between runs.
pub open spec fn marks_dirty(m: Message) -> bool {
    match m {
        Message::AppLoaded(Ok(_)) => true,
        Message::WindowFullscreen(_) => true,
        Message::WindowMaximized(_) => true,
        Message::ToggleSideFocus => true,
        Message::SelectRecord(_, _) => true,
        Message::SortRecords(_, _) => true,
        Message::KeyArrowDown => true,
        Message::KeyArrowUp => true,
        Message::DirectoryOpened(Ok(_)) => true,
        _ => false,
    }
}

/// The update may be applied to `m`: a hovered entry exists, and a
/// double-click finds a selected entry in the focused pane.
pub open spec fn accepts(v: AppStateView, m: Message) -> bool {
    match m {
        Message::RecordHover(side, idx, _, _) => idx < v.side(side).records.len(),
        Message::RecordDoubleClick => v.side(v.selected_side()).has_valid_selection(),
        _ => true,
    }
}

/// The state after `m` has been handled in the application `b` is `a`,
/// with `task` to perform (saving aside).
pub open spec fn message_handled(b: ApplicationView, m: Message, a: ApplicationView, task: Task) -> bool {
    let focused = b.state.selected_side();
    match m {
        Message::AppExit => a == b && task is Exit,
        Message::AppLoaded(Ok(state)) => {
            let s = state@;
            &&& a == ApplicationView {
                state: if s.fullscreen { AppStateView { maximized: false, ..s } } else { s },
                loading: false,
                ..b
            }
            &&& if s.fullscreen {
                task is EnterFullscreen
            } else if s.maximized {
                task is MaximizeWindow
            } else {
                task is Nothing
            }
        },
        Message::AppLoaded(Err(_)) => a == b && task is Exit,
        Message::AppSaved(_) => a == ApplicationView { saving: false, ..b } && task is Nothing,
        Message::WindowFullscreen(f) => a == ApplicationView {
            state: AppStateView { fullscreen: f, ..b.state },
            ..b
        } && task is Nothing,
        Message::WindowToggleFullscreen => a == b && task is ToggleFullscreen,
        Message::WindowMaximized(f) => a == ApplicationView {
            state: AppStateView { maximized: f, ..b.state },
            ..b
        } && task is Nothing,
        Message::WindowToggleMaximize => a == b && task is ToggleMaximize,
        Message::ToggleSideFocus => a == ApplicationView {
            state: b.state.focused_on(focused.spec_other()),
            ..b
        } && task is Nothing,
        Message::SelectRecord(side, idx) => a == ApplicationView {
            state: b.state.focused_on(side).with_selected(side, idx),
            ..b
        } && task is Nothing,
        Message::RecordHover(side, idx, col, hover) => {
            let before = b.state.side(side).records;
            let after = a.state.side(side).records;
            &&& a == ApplicationView { state: with_records(b.state, side, after), ..b }
            &&& after.len() == before.len()
            &&& forall|i: int| 0 <= i < before.len() && i != idx ==> #[trigger] after[i] == before[i]
            &&& with_hover(before[idx as int], after[idx as int], col.spec_index() as int, hover)
            &&& task is Nothing
        },
        Message::SortRecords(side, options) => {
            let after = a.state.side(side).records;
            &&& a == ApplicationView {
                state: b.state.with_side(side, SideView {
                    sorting_options: options,
                    records: after,
                    ..b.state.side(side)
                }),
                ..b
            }
            &&& crate::files::listing_order(after, b.state.side(side).records, options)
            &&& task is Nothing
        },
        Message::KeyArrowDown => a == ApplicationView { state: b.state.after_select_next(focused), ..b }
            && task is Nothing,
        Message::KeyArrowUp => a == ApplicationView { state: b.state.after_select_prev(focused), ..b }
            && task is Nothing,
        Message::KeyEnter => a == b && task matches Task::Emit(Message::RecordDoubleClick),
        Message::KeyBackspace => {
            let path = b.state.side(focused).path;
            &&& a == b
            &&& is_root_path(path) ==> task is Nothing
            &&& !is_root_path(path) ==> (task matches Task::ReadDirectory { side, path: p } && side == focused
                && p@ == joined_path(path, ".."@))
        },
        Message::PathButtonClick(side, path) => a == ApplicationView { loading: true, ..b } && (
        task matches Task::ReadDirectory { side: s, path: p } && s == side && p == path),
        Message::RecordDoubleClick => {
            let pane = b.state.side(focused);
            &&& a == ApplicationView { loading: true, ..b }
            &&& task matches Task::OpenRecord(d)
            &&& d.side == focused
            &&& d.path@ == pane.path
            &&& d.file_name == pane.records[pane.selected_idx.unwrap() as int].file_name
        },
        Message::DirectoryOpened(Ok(data)) => {
            let after = a.state.side(data.side).records;
            &&& a == ApplicationView {
                state: b.state.with_side(data.side, SideView {
                    selected_idx: Some(0usize),
                    path: data.path@,
                    records: after,
                    ..b.state.side(data.side)
                }),
                loading: false,
                ..b
            }
            &&& shown_listing(after, data.path@, data.records@, b.state.side(data.side).sorting_options)
            &&& task is Nothing
        },
        Message::DirectoryOpened(Err(_)) => a == ApplicationView { loading: false, ..b } && task is Exit,
        Message::FileOpened => a == ApplicationView { loading: false, ..b } && task is Nothing,
    }
}

/// Marking the state dirty when `dirty` says so, `b` becomes `a`, and a
/// save of its state starts, giving `save`, exactly when changes are
/// unsaved and no save is under way.
pub open spec fn save_scheduled(b: ApplicationView, dirty: bool, a: ApplicationView, save: Option<
    PersistedState,
>) -> bool {
    let pending = b.dirty || dirty;
    &&& a.state == b.state
    &&& a.loading == b.loading
    &&& if pending && !b.saving {
        &&& !a.dirty
        &&& a.saving
        &&& save matches Some(p) && persists(p, b.state)
    } else {
        &&& a.dirty == pending
        &&& a.saving == b.saving
        &&& save is None
    }
}


impl Default for Application {
    fn default() -> (a: Self)
        ensures
            a@ == (ApplicationView {
                state: crate::state::default_app_state_view(),
                loading: true,
                dirty: false,
                saving: false,
            }),
    {
        Application { state: AppState::default(), loading: true, dirty: false, saving: false }
    }
}

impl Application {
    /// Whether `update` may be applied to `message` (see `accepts`).
    pub fn accepts_message(&self, message: &Message) -> (b: bool)
        ensures
            b == accepts(self.state@, *message),
    {
        match message {
            Message::RecordHover(side, idx, _, _) => *idx < self.state.get_records(*side).len(),
            Message::RecordDoubleClick => {
                let side = self.state.get_selected_side();
                match self.state.get_selected_idx(side) {
                    Some(idx) => idx < self.state.get_records(side).len(),
                    None => false,
                }
            },
            _ => true,
        }
    }

    /// Changes the state as `message` asks and returns the work to perform
    /// and whether what is saved between runs has changed.
    #[verifier::rlimit(60)]
    pub fn handle_message(&mut self, message: Message) -> (r: (Task, bool))
        requires
            accepts(old(self).state@, message),
        ensures
            message_handled(old(self)@, message, final(self)@, r.0),
            r.1 == marks_dirty(message),
    {
        match message {
            Message::AppExit => (Task::Exit, false),
            Message::AppLoaded(result) => match result {
                Ok(state) => {
                    self.loading = false;
                    self.state = state;

                    let task = if self.state.is_fullscreen() {
                        self.state.set_maximized(false);
                        Task::EnterFullscreen
                    } else {
                        if self.state.is_maximized() {
                            Task::MaximizeWindow
                        } else {
                            Task::Nothing
                        }
                    };

                    (task, true)
                },
                Err(_load_error) => (Task::Exit, false),
            },
            Message::AppSaved(_result) => {
                self.saving = false;

                (Task::Nothing, false)
            },
            Message::WindowFullscreen(fullscreen) => {
                self.state.set_fullscreen(fullscreen);

                (Task::Nothing, true)
            },
            Message::WindowToggleFullscreen => (Task::ToggleFullscreen, false),
            Message::WindowMaximized(maximized) => {
                self.state.set_maximized(maximized);

                (Task::Nothing, true)
            },
            Message::WindowToggleMaximize => (Task::ToggleMaximize, false),
            Message::ToggleSideFocus => {
                self.state.toggle_side_focus();

                (Task::Nothing, true)
            },
            Message::SelectRecord(side, idx) => {
                self.state.select_record_at_idx(side, idx);

                (Task::Nothing, true)
            },
            Message::RecordHover(side, idx, file_col, hover) => {
                self.state.set_hover_for_idx_and_col(side, idx, file_col, hover);

                (Task::Nothing, false)
            },
            Message::SortRecords(side, sorting_options) => {
                self.state.sort_records(side, sorting_options);
                (Task::Nothing, true)
            },
            Message::KeyArrowDown => {
                let side = self.state.get_selected_side();
                self.state.select_next_idx(side);

                (Task::Nothing, true)
            },
            Message::KeyArrowUp => {
                let side = self.state.get_selected_side();
                self.state.select_prev_idx(side);

                (Task::Nothing, true)
            },
            Message::KeyEnter => (Task::Emit(Message::RecordDoubleClick), false),
            Message::KeyBackspace => {
                let task = match self.state.get_open_parent_data() {
                    None => Task::Nothing,
                    Some(parent) => Task::ReadDirectory { side: parent.side, path: parent.path_to_open },
                };

                (task, false)
            },
            Message::PathButtonClick(side, path_to_open) => {
                self.loading = true;

                (Task::ReadDirectory { side, path: path_to_open }, false)
            },
            Message::RecordDoubleClick => {
                self.loading = true;

                (Task::OpenRecord(self.state.get_open_record_data()), false)
            },
            Message::DirectoryOpened(result) => {
                self.loading = false;

                match result {
                    Ok(read_dir_data) => {
                        self.state.save_read_directory_data(read_dir_data);

                        (Task::Nothing, true)
                    },
                    Err(_error) => (Task::Exit, false),
                }
            },
            Message::FileOpened => {
                self.loading = false;

                (Task::Nothing, false)
            },
        }
    }

    /// Marks the state dirty when `save_state` says so, and starts a save
    /// when changes are unsaved and no save is under way.
    pub fn schedule_save(&mut self, save_state: bool) -> (save: Option<PersistedState>)
        ensures
            save_scheduled(old(self)@, save_state, final(self)@, save),
    {
        if save_state {
            self.dirty = true;
        }

        if self.dirty && !self.saving {
            self.dirty = false;
            self.saving = true;

            Some(self.state.to_persisted())
        } else {
            None
        }
    }

    /// Handles `message`, then schedules a save as `schedule_save` does.
    pub fn update(&mut self, message: Message) -> (u: Update)
        requires
            accepts(old(self).state@, message),
        ensures
            exists|mid: ApplicationView|
                message_handled(old(self)@, message, mid, u.task) && #[trigger] save_scheduled(
                    mid,
                    marks_dirty(message),
                    final(self)@,
                    u.save,
                ),
            message matches Message::DirectoryOpened(Ok(d)) ==> final(self)@.state.side(d.side).path == d.path@
                && final(self)@.state.side(d.side.spec_other()) == old(self)@.state.side(d.side.spec_other()),
    {
        let ghost m = message;
        let (task, save_state) = self.handle_message(message);
        let ghost mid = self@;
        let save = self.schedule_save(save_state);
        assert(message_handled(old(self)@, m, mid, task) && save_scheduled(mid, marks_dirty(m), self@, save));
        proof {
            if let Message::DirectoryOpened(Ok(d)) = m {
                crate::laws::lemma_directory_opened_fills_its_pane(old(self)@, d, mid, task);
            }
        }
        Update { task, save }
    }

    /// The window title, for an application of version `version`.
    pub fn title(version: &str) -> (t: String)
        ensures
            t@ == "Dear File Manager "@ + version@,
    {
        let mut t = "Dear File Manager ".to_owned();
        t.append(version);
        t
    }
}


/// Switching fullscreen from window mode `mode`: a fullscreen window goes
/// back to a normal one, a normal window goes fullscreen, and either change
/// is reported; a hidden window is left alone.
pub fn fullscreen_toggle(mode: WindowMode) -> (r: Option<(WindowMode, Message)>)
    ensures
        mode == WindowMode::Fullscreen ==> (r matches Some((m, msg)) && m == WindowMode::Windowed
            && msg matches Message::WindowFullscreen(false)),
        mode == WindowMode::Windowed ==> (r matches Some((m, msg)) && m == WindowMode::Fullscreen
            && msg matches Message::WindowFullscreen(true)),
        mode == WindowMode::Hidden ==> r is None,
{
    match mode {
        WindowMode::Fullscreen => Some((WindowMode::Windowed, Message::WindowFullscreen(false))),
        WindowMode::Windowed => Some((WindowMode::Fullscreen, Message::WindowFullscreen(true))),
        WindowMode::Hidden => None,
    }
}

/// The message that reports opening a record: the directory listing when
/// a directory was read, `FileOpened` when a file was handed to the
/// system, and `AppExit` when opening failed.
pub fn open_record_outcome(result: Result<Option<ReadDirData>, crate::state::OpenRecordError>) -> (m: Message)
    ensures
        match result {
            Ok(Some(data)) => m matches Message::DirectoryOpened(Ok(d)) && d == data,
            Ok(None) => m is FileOpened,
            Err(_) => m is AppExit,
        },
{
    match result {
        Ok(option) => match option {
            Some(result) => Message::DirectoryOpened(Ok(result)),
            None => Message::FileOpened,
        },
        Err(_e) => Message::AppExit,
    }
}

/// A key as the event loop reports it.
#[derive(Debug, PartialEq, Eq)]
pub enum KeyPress {
    Escape,
    Tab,
    ArrowDown,
    ArrowUp,
    Enter,
    Backspace,
    Character(String),
    Other,
}

/// An input event the application listens to.
#[derive(Debug, PartialEq, Eq)]
pub enum InputEvent {
    KeyPressed(KeyPress),
    CloseRequested,
    OtherWindowEvent,
}

/// The message an input event stands for: closing the window or Escape
/// quits, "f" toggles fullscreen, "m" toggles maximization, Tab switches
/// panes, the arrows move the selection, Enter opens and Backspace goes up.
pub open spec fn input_message(e: InputEvent) -> Option<Message> {
    match e {
        InputEvent::CloseRequested => Some(Message::AppExit),
        InputEvent::OtherWindowEvent => None,
        InputEvent::KeyPressed(key) => match key {
            KeyPress::Escape => Some(Message::AppExit),
            KeyPress::Tab => Some(Message::ToggleSideFocus),
            KeyPress::ArrowDown => Some(Message::KeyArrowDown),
            KeyPress::ArrowUp => Some(Message::KeyArrowUp),
            KeyPress::Enter => Some(Message::KeyEnter),
            KeyPress::Backspace => Some(Message::KeyBackspace),
            KeyPress::Character(c) => if c@ == "f"@ {
                Some(Message::WindowToggleFullscreen)
            } else if c@ == "m"@ {
                Some(Message::WindowToggleMaximize)
            } else {
                None
            },
            KeyPress::Other => None,
        },
    }
}

/// The message an input event stands for, as `input_message` says.
pub fn event_message(event: &InputEvent) -> (m: Option<Message>)
    ensures
        m == input_message(*event),
{
    match event {
        InputEvent::CloseRequested => Some(Message::AppExit),
        InputEvent::OtherWindowEvent => None,
        InputEvent::KeyPressed(key) => match key {
            KeyPress::Escape => Some(Message::AppExit),
            KeyPress::Tab => Some(Message::ToggleSideFocus),
            KeyPress::ArrowDown => Some(Message::KeyArrowDown),
            KeyPress::ArrowUp => Some(Message::KeyArrowUp),
            KeyPress::Enter => Some(Message::KeyEnter),
            KeyPress::Backspace => Some(Message::KeyBackspace),
            KeyPress::Character(c) => {
                if *c == "f".to_owned() {
                    Some(Message::WindowToggleFullscreen)
                } else if *c == "m".to_owned() {
                    Some(Message::WindowToggleMaximize)
                } else {
                    None
                }
            },
            KeyPress::Other => None,
        },
    }
}

} // verus!
