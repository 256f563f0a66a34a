//! The state of the two panes: what each lists, how it is ordered, which
//! entry is selected, and which pane has the focus.
use vstd::prelude::*;
use crate::files::{FileColumn, FileRecord, FilesError, SortBy, SortDirection, SortingOptions,
    listing_order, sort_records};
use crate::text::{is_root_path, joined_path, join_path, path_is_root};

verus! {

/// One of the two panes.
#[derive(Debug, Clone, Copy, PartialEq, Eq, Structural)]
pub enum Side {
    Left,
    Right,
}

impl Side {
    /// The pane's name.
    pub open spec fn name(self) -> Seq<char> {
        match self {
            Side::Left => "left"@,
            Side::Right => "right"@,
        }
    }

    /// The pane's name.
    pub fn as_str(&self) -> (s: &'static str)
        ensures
            s@ == self.name(),
    {
        match self {
            Side::Left => "left",
            Side::Right => "right",
        }
    }

    /// Whether this is the left pane.
    pub open spec fn spec_is_left(self) -> bool {
        self == Side::Left
    }

    /// Whether this is the left pane.
    pub fn is_left(&self) -> (b: bool)
        ensures
            b == self.spec_is_left(),
    {
        match self {
            Side::Left => true,
            Side::Right => false,
        }
    }

    /// The other pane.
    pub open spec fn spec_other(self) -> Side {
        match self {
            Side::Left => Side::Right,
            Side::Right => Side::Left,
        }
    }

    /// The other pane.
    pub fn other(&self) -> (s: Side)
        ensures
            s == self.spec_other(),
    {
        match self {
            Side::Left => Side::Right,
            Side::Right => Side::Left,
        }
    }

    /// The pane's name, as its `Display` prints it.
    pub fn to_string(&self) -> (s: String)
        ensures
            s@ == self.name(),
    {
        self.as_str().to_owned()
    }
}

/// Why a directory could not be opened.
#[derive(Debug, Clone, Copy, PartialEq, Eq, Structural)]
pub enum ReadDirectoryError {
    ReadDir(FilesError),
    Canonicalize,
}

/// How `{:#?}` prints a `ReadDirectoryError`.
pub open spec fn read_directory_error_debug(e: ReadDirectoryError) -> Seq<char> {
    match e {
        ReadDirectoryError::ReadDir(_) => "ReadDir(\n    ReadDir,\n)"@,
        ReadDirectoryError::Canonicalize => "Canonicalize"@,
    }
}

/// What a `ReadDirectoryError` says to the user.
pub open spec fn read_directory_error_message(e: ReadDirectoryError) -> Seq<char> {
    match e {
        ReadDirectoryError::ReadDir(_) => "failed to read directory ReadDir"@,
        ReadDirectoryError::Canonicalize => "failed to canonicalize path"@,
    }
}

impl ReadDirectoryError {
    /// The error as `{:#?}` prints it.
    pub fn debug_text(&self) -> (s: String)
        ensures
            s@ == read_directory_error_debug(*self),
    {
        match self {
            ReadDirectoryError::ReadDir(_) => "ReadDir(\n    ReadDir,\n)".to_owned(),
            ReadDirectoryError::Canonicalize => "Canonicalize".to_owned(),
        }
    }

    /// The error's message, as its `Display` prints it.
    pub fn to_string(&self) -> (s: String)
        ensures
            s@ == read_directory_error_message(*self),
    {
        match self {
            ReadDirectoryError::ReadDir(err) => {
                proof {
                    reveal_strlit("failed to read directory ");
                    reveal_strlit("failed to read directory ReadDir");
                }
                let mut s = "failed to read directory ".to_owned();
                s.append(err.debug_text());
                s
            },
            ReadDirectoryError::Canonicalize => "failed to canonicalize path".to_owned(),
        }
    }
}

/// Why the saved state could not be loaded.
#[derive(Debug, Clone, Copy, PartialEq, Eq, Structural)]
pub enum LoadError {
    File,
    Format,
    GoToDir(ReadDirectoryError),
}

/// What a `LoadError` says to the user.
pub open spec fn load_error_message(e: LoadError) -> Seq<char> {
    match e {
        LoadError::File => "missing file?"@,
        LoadError::Format => "invalid file format"@,
        LoadError::GoToDir(err) => "reading directory error "@ + read_directory_error_debug(err),
    }
}

impl LoadError {
    /// The error's message, as its `Display` prints it.
    pub fn to_string(&self) -> (s: String)
        ensures
            s@ == load_error_message(*self),
    {
        match self {
            LoadError::File => "missing file?".to_owned(),
            LoadError::Format => "invalid file format".to_owned(),
            LoadError::GoToDir(err) => {
                let mut s = "reading directory error ".to_owned();
                let d = err.debug_text();
                s.append(d.as_str());
                s
            },
        }
    }
}

/// Why the state could not be saved.
#[derive(Debug, Clone, Copy, PartialEq, Eq, Structural)]
pub enum SaveError {
    Write,
    Format,
}

/// Why a record could not be opened.
#[derive(Debug, Clone, Copy, PartialEq, Eq, Structural)]
pub enum OpenRecordError {
    Error,
}


/// What one pane holds, as contracts speak of it.
#[verifier::ext_equal]
pub struct SideView {
    pub selected_idx: Option<usize>,
    pub sorting_options: SortingOptions,
    pub path: Seq<char>,
    pub records: Seq<FileRecord>,
}

impl SideView {
    /// The pane with `idx` as its selection.
    pub open spec fn with_selected(self, idx: Option<usize>) -> SideView {
        SideView { selected_idx: idx, ..self }
    }

    /// The selected position, or the first one when nothing is selected.
    pub open spec fn current_idx(self) -> int {
        match self.selected_idx {
            Some(i) => i as int,
            None => 0,
        }
    }

    /// The selection names one of the pane's records.
    pub open spec fn has_valid_selection(self) -> bool {
        self.selected_idx matches Some(i) && i < self.records.len()
    }
}

/// The default ordering: by name, ascending.
pub open spec fn default_sorting_options() -> SortingOptions {
    SortingOptions { sort_by: SortBy::Name, direction: SortDirection::Ascending }
}

/// The whole application state, as contracts speak of it.
#[verifier::ext_equal]
pub struct AppStateView {
    pub focused_side_left: bool,
    pub left: SideView,
    pub right: SideView,
    pub fullscreen: bool,
    pub maximized: bool,
}

impl AppStateView {
    /// The pane `s`.
    pub open spec fn side(self, s: Side) -> SideView {
        match s {
            Side::Left => self.left,
            Side::Right => self.right,
        }
    }

    /// The state with pane `s` replaced by `v`.
    pub open spec fn with_side(self, s: Side, v: SideView) -> AppStateView {
        match s {
            Side::Left => AppStateView { left: v, ..self },
            Side::Right => AppStateView { right: v, ..self },
        }
    }

    /// The pane that has the focus.
    pub open spec fn selected_side(self) -> Side {
        if self.focused_side_left {
            Side::Left
        } else {
            Side::Right
        }
    }

    /// The state with `idx` selected in pane `s`.
    pub open spec fn with_selected(self, s: Side, idx: usize) -> AppStateView {
        self.with_side(s, self.side(s).with_selected(Some(idx)))
    }

    /// The state after pane `s` takes the focus: its first entry is
    /// selected and the other pane's selection is cleared.
    pub open spec fn focused_on(self, s: Side) -> AppStateView {
        AppStateView {
            focused_side_left: s.spec_is_left(),
            left: self.left.with_selected(if s.spec_is_left() { Some(0usize) } else { None }),
            right: self.right.with_selected(if s.spec_is_left() { None } else { Some(0usize) }),
            ..self
        }
    }

    /// The state after moving the selection of pane `s` one entry down,
    /// where there is an entry below.
    pub open spec fn after_select_next(self, s: Side) -> AppStateView {
        let cur = self.side(s).current_idx();
        if cur + 1 < self.side(s).records.len() {
            self.with_selected(s, (cur + 1) as usize)
        } else {
            self
        }
    }

    /// The state after moving the selection of pane `s` one entry up,
    /// where there is an entry above.
    pub open spec fn after_select_prev(self, s: Side) -> AppStateView {
        let cur = self.side(s).current_idx();
        if cur > 0 {
            self.with_selected(s, (cur - 1) as usize)
        } else {
            self
        }
    }
}

/// What one pane holds.
#[derive(Debug)]
struct SideData {
    selected_idx: Option<usize>,
    sorting_options: SortingOptions,
    path: String,
    records: Vec<FileRecord>,
}

impl SideData {
    pub closed spec fn view(&self) -> SideView {
        SideView {
            selected_idx: self.selected_idx,
            sorting_options: self.sorting_options,
            path: self.path@,
            records: self.records@,
        }
    }

    fn new() -> (d: SideData)
        ensures
            d.view() == (SideView {
                selected_idx: None,
                sorting_options: default_sorting_options(),
                path: Seq::empty(),
                records: Seq::empty(),
            }),
    {
        SideData {
            selected_idx: None,
            sorting_options: SortingOptions { sort_by: SortBy::Name, direction: SortDirection::Ascending },
            path: String::new(),
            records: Vec::new(),
        }
    }
}

/// The state of both panes and of the window.
#[derive(Debug)]
pub struct AppState {
    focused_side_left: bool,
    left: SideData,
    right: SideData,
    pub fullscreen: bool,
    pub maximized: bool,
}

impl View for AppState {
    type V = AppStateView;

    closed spec fn view(&self) -> AppStateView {
        AppStateView {
            focused_side_left: self.focused_side_left,
            left: self.left.view(),
            right: self.right.view(),
            fullscreen: self.fullscreen,
            maximized: self.maximized,
        }
    }
}

/// The state of a freshly started application: the left pane focused,
/// nothing listed, nothing selected, both panes ordered by name.
pub open spec fn default_app_state_view() -> AppStateView {
    let side = SideView {
        selected_idx: None,
        sorting_options: default_sorting_options(),
        path: Seq::empty(),
        records: Seq::empty(),
    };
    AppStateView { focused_side_left: true, left: side, right: side, fullscreen: false, maximized: false }
}

impl Default for AppState {
    fn default() -> (s: Self)
        ensures
            s@ == default_app_state_view(),
    {
        AppState {
            focused_side_left: true,
            left: SideData::new(),
            right: SideData::new(),
            fullscreen: false,
            maximized: false,
        }
    }
}

impl AppState {
    fn side_data(&self, side: Side) -> (d: &SideData)
        ensures
            d.view() == self@.side(side),
    {
        match side {
            Side::Left => &self.left,
            Side::Right => &self.right,
        }
    }

    /// The pane that has the focus.
    pub fn get_selected_side(&self) -> (s: Side)
        ensures
            s == self@.selected_side(),
    {
        match self.focused_side_left {
            true => Side::Left,
            false => Side::Right,
        }
    }

    /// The directory that pane `side` lists.
    pub fn get_path(&self, side: Side) -> (p: &String)
        ensures
            p@ == self@.side(side).path,
    {
        &self.side_data(side).path
    }

    /// The records that pane `side` lists.
    pub fn get_records(&self, side: Side) -> (r: &Vec<FileRecord>)
        ensures
            r@ == self@.side(side).records,
    {
        &self.side_data(side).records
    }

    /// How pane `side` is ordered.
    pub fn get_sorting_options(&self, side: Side) -> (o: &SortingOptions)
        ensures
            *o == self@.side(side).sorting_options,
    {
        &self.side_data(side).sorting_options
    }

    /// The selected position in pane `side`.
    pub fn get_selected_idx(&self, side: Side) -> (i: Option<usize>)
        ensures
            i == self@.side(side).selected_idx,
    {
        self.side_data(side).selected_idx
    }

    /// Whether position `idx` is selected in pane `side`.
    pub fn is_selected_idx(&self, side: Side, idx: usize) -> (b: bool)
        ensures
            b == (self@.side(side).selected_idx == Some(idx)),
    {
        match self.get_selected_idx(side) {
            Some(i) => i == idx,
            None => false,
        }
    }

    /// Selects position `idx` in pane `side`.
    pub fn set_selected_idx(&mut self, side: Side, idx: usize)
        ensures
            final(self)@ == old(self)@.with_selected(side, idx),
    {
        let some_idx = Some(idx);

        match side {
            Side::Left => {
                self.left.selected_idx = some_idx;
            },
            Side::Right => {
                self.right.selected_idx = some_idx;
            },
        }
    }

    fn focus_side(&mut self, side: Side)
        ensures
            final(self)@ == old(self)@.focused_on(side),
    {
        match side {
            Side::Left => {
                self.left.selected_idx = Some(0);
                self.right.selected_idx = None;
            },
            Side::Right => {
                self.left.selected_idx = None;
                self.right.selected_idx = Some(0);
            },
        }

        self.focused_side_left = side.is_left();
    }

    /// Moves the focus to the other pane, selecting its first entry.
    pub fn toggle_side_focus(&mut self)
        ensures
            final(self)@ == old(self)@.focused_on(old(self)@.selected_side().spec_other()),
    {
        let new_side = match self.get_selected_side() {
            Side::Left => Side::Right,
            Side::Right => Side::Left,
        };

        self.focus_side(new_side);
    }

    /// Focuses pane `side` and selects position `idx` in it.
    pub fn select_record_at_idx(&mut self, side: Side, idx: usize)
        ensures
            final(self)@ == old(self)@.focused_on(side).with_selected(side, idx),
    {
        self.focus_side(side);
        self.set_selected_idx(side, idx);
    }

    /// Moves the selection of pane `side` one entry down, if there is one.
    pub fn select_next_idx(&mut self, side: Side)
        ensures
            final(self)@ == old(self)@.after_select_next(side),
    {
        let records_len = self.get_records(side).len();
        let current_item = match self.get_selected_idx(side) {
            Some(idx) => idx,
            None => 0,
        };

        if records_len > 0 && current_item < records_len - 1 {
            self.set_selected_idx(side, current_item + 1);
        }
    }

    /// Moves the selection of pane `side` one entry up, if there is one.
    pub fn select_prev_idx(&mut self, side: Side)
        ensures
            final(self)@ == old(self)@.after_select_prev(side),
    {
        let current_item = match self.get_selected_idx(side) {
            Some(idx) => idx,
            None => 0,
        };

        if current_item > 0 {
            self.set_selected_idx(side, current_item - 1);
        }
    }
}


/// `b` is `a` with the pointer flag of column `col` set to `hover`.
pub open spec fn with_hover(a: FileRecord, b: FileRecord, col: int, hover: bool) -> bool {
    &&& b.file_name == a.file_name
    &&& b.is_file == a.is_file
    &&& b.size == a.size
    &&& b.modified == a.modified
    &&& b.is_go_back_record == a.is_go_back_record
    &&& b.hover@ == a.hover@.update(col, hover)
}

/// The record is under the pointer in some column.
pub open spec fn is_hovered(r: FileRecord) -> bool {
    r.hover@[0] || r.hover@[1] || r.hover@[2]
}

/// The files of pane `side` listed as `records`, everything else as in `before`.
pub open spec fn with_records(before: AppStateView, side: Side, records: Seq<FileRecord>) -> AppStateView {
    before.with_side(side, SideView { records, ..before.side(side) })
}

impl AppState {
    /// Whether the pointer is over entry `idx` of pane `side`, in any column.
    pub fn get_hover_for_idx(&self, side: Side, idx: usize) -> (b: bool)
        requires
            idx < self@.side(side).records.len(),
        ensures
            b == is_hovered(self@.side(side).records[idx as int]),
    {
        let records = self.get_records(side);
        let hover = records[idx].hover;

        hover[0] || hover[1] || hover[2]
    }

    /// Records whether the pointer is over entry `idx` of pane `side` in
    /// column `file_col`.
    pub fn set_hover_for_idx_and_col(&mut self, side: Side, idx: usize, file_col: FileColumn, hover: bool)
        requires
            idx < old(self)@.side(side).records.len(),
        ensures
            final(self)@ == with_records(old(self)@, side, final(self)@.side(side).records),
            final(self)@.side(side).records.len() == old(self)@.side(side).records.len(),
            forall|i: int| 0 <= i < old(self)@.side(side).records.len() && i != idx
                ==> #[trigger] final(self)@.side(side).records[i] == old(self)@.side(side).records[i],
            with_hover(old(self)@.side(side).records[idx as int], final(self)@.side(side).records[idx as int],
                file_col.spec_index() as int, hover),
    {
        let records = match side {
            Side::Left => &mut self.left.records,
            Side::Right => &mut self.right.records,
        };

        let mut record = records[idx].clone();
        let col_idx: usize = file_col.index();
        record.hover[col_idx] = hover;
        records[idx] = record;
    }
}


/// A directory listing read for pane `side`: the directory's canonical
/// path and its records.
#[derive(Debug)]
pub struct ReadDirData {
    pub side: Side,
    pub path: String,
    pub records: Vec<FileRecord>,
}

/// A fresh go-back record, as `FileRecord::new_go_back_record` makes it.
pub open spec fn is_fresh_go_back(r: FileRecord) -> bool {
    &&& r.file_name@ == crate::files::go_back_name()
    &&& !r.is_file
    &&& r.size == 0
    &&& r.modified == 0
    &&& r.is_go_back_record
    &&& r.hover@ == seq![false, false, false]
}

/// The records pane shows for a listing of `path`: a go-back record before
/// the listing unless `path` is the root (compared by components, as
/// `is_root_path` says), laid out by `o`.
pub open spec fn shown_listing(out: Seq<FileRecord>, path: Seq<char>, records: Seq<FileRecord>, o: SortingOptions) -> bool {
    if is_root_path(path) {
        listing_order(out, records, o)
    } else {
        exists|g: FileRecord| is_fresh_go_back(g) && listing_order(out, seq![g] + records, o)
    }
}

/// What a record opens: the directory it lies in and its name.
#[derive(Debug)]
pub struct OpenRecordData {
    pub side: Side,
    pub path: String,
    pub file_name: String,
}

/// The directory to open to go up one level in pane `side`.
#[derive(Debug)]
pub struct OpenParentData {
    pub side: Side,
    pub path_to_open: String,
}

impl AppState {
    /// Orders pane `side` by `sorting_options` and keeps them for later
    /// listings.
    pub fn sort_records(&mut self, side: Side, sorting_options: SortingOptions)
        ensures
            final(self)@ == old(self)@.with_side(side, SideView {
                sorting_options,
                records: final(self)@.side(side).records,
                ..old(self)@.side(side)
            }),
            listing_order(final(self)@.side(side).records, old(self)@.side(side).records, sorting_options),
            final(self)@.side(side).records.to_multiset() == old(self)@.side(side).records.to_multiset(),
    {
        let records = match side {
            Side::Left => {
                self.left.sorting_options = sorting_options;
                &mut self.left.records
            },
            Side::Right => {
                self.right.sorting_options = sorting_options;
                &mut self.right.records
            },
        };

        sort_records(records, sorting_options.sort_by, sorting_options.direction);
    }

    /// The name of the selected entry of pane `side`.
    pub fn get_selected_file_name(&self, side: Side) -> (n: &String)
        requires
            self@.side(side).has_valid_selection(),
        ensures
            *n == self@.side(side).records[self@.side(side).selected_idx.unwrap() as int].file_name,
    {
        let idx = self.get_selected_idx(side).unwrap();
        let records = self.get_records(side);

        &records[idx].file_name
    }

    /// Shows a directory listing in its pane: adds the go-back record
    /// unless the directory is the root, orders the listing by the pane's
    /// options and selects its first entry.
    pub fn save_read_directory_data(&mut self, data: ReadDirData)
        ensures
            final(self)@ == old(self)@.with_side(data.side, SideView {
                selected_idx: Some(0usize),
                path: data.path@,
                records: final(self)@.side(data.side).records,
                ..old(self)@.side(data.side)
            }),
            shown_listing(final(self)@.side(data.side).records, data.path@, data.records@,
                old(self)@.side(data.side).sorting_options),
    {
        let ReadDirData { side, path, mut records } = data;
        let ghost listed = records@;
        let is_root = path_is_root(path.as_str());
        let ghost mut go_back_used: Option<FileRecord> = None;
        if !is_root {
            let go_back = FileRecord::new_go_back_record();
            proof {
                go_back_used = Some(go_back);
            }
            records.insert(0, go_back);
            assert(records@ =~= seq![go_back] + listed);
        }

        let side_data = match side {
            Side::Left => &mut self.left,
            Side::Right => &mut self.right,
        };

        sort_records(&mut records, side_data.sorting_options.sort_by, side_data.sorting_options.direction);

        side_data.path = path;
        side_data.records = records;

        self.set_selected_idx(side, 0);
        proof {
            if let Some(g) = go_back_used {
                assert(is_fresh_go_back(g) && listing_order(self@.side(side).records, seq![g] + listed,
                    old(self)@.side(side).sorting_options));
            }
        }
    }

    /// What the selected entry of the focused pane opens.
    pub fn get_open_record_data(&self) -> (d: OpenRecordData)
        requires
            self@.side(self@.selected_side()).has_valid_selection(),
        ensures
            d.side == self@.selected_side(),
            d.path@ == self@.side(d.side).path,
            d.file_name == self@.side(d.side).records[self@.side(d.side).selected_idx.unwrap() as int].file_name,
    {
        let side = self.get_selected_side();
        let path = self.get_path(side).clone();
        let file_name = self.get_selected_file_name(side).clone();
        OpenRecordData { side, path, file_name }
    }

    /// The directory above the one the focused pane lists, unless that is
    /// the root.
    pub fn get_open_parent_data(&self) -> (d: Option<OpenParentData>)
        ensures
            is_root_path(self@.side(self@.selected_side()).path) ==> d is None,
            !is_root_path(self@.side(self@.selected_side()).path) ==> (d matches Some(p) && p.side
                == self@.selected_side() && p.path_to_open@ == joined_path(
                self@.side(self@.selected_side()).path,
                ".."@,
            )),
    {
        let side = self.get_selected_side();
        let path = self.get_path(side);
        if path_is_root(path.as_str()) {
            None
        } else {
            Some(OpenParentData { side, path_to_open: join_path(path.as_str(), "..") })
        }
    }
}


/// What is kept of a pane between runs: everything but its listing.
#[derive(Debug)]
pub struct PersistedSide {
    pub selected_idx: Option<usize>,
    pub sorting_options: SortingOptions,
    pub path: String,
}

/// What is kept of the state between runs.
#[derive(Debug)]
pub struct PersistedState {
    pub focused_side_left: bool,
    pub left: PersistedSide,
    pub right: PersistedSide,
    pub fullscreen: bool,
    pub maximized: bool,
}

/// `p` keeps what `v` holds of a pane.
pub open spec fn persists_side(p: PersistedSide, v: SideView) -> bool {
    &&& p.selected_idx == v.selected_idx
    &&& p.sorting_options == v.sorting_options
    &&& p.path@ == v.path
}

/// `p` keeps what `v` holds.
pub open spec fn persists(p: PersistedState, v: AppStateView) -> bool {
    &&& p.focused_side_left == v.focused_side_left
    &&& persists_side(p.left, v.left)
    &&& persists_side(p.right, v.right)
    &&& p.fullscreen == v.fullscreen
    &&& p.maximized == v.maximized
}

impl PersistedSide {
    fn from_side(d: &SideData) -> (p: PersistedSide)
        ensures
            persists_side(p, d.view()),
    {
        PersistedSide { selected_idx: d.selected_idx, sorting_options: d.sorting_options, path: d.path.clone() }
    }

    fn into_side(self) -> (d: SideData)
        ensures
            persists_side(self, d.view()),
            d.view().records == Seq::<FileRecord>::empty(),
    {
        SideData {
            selected_idx: self.selected_idx,
            sorting_options: self.sorting_options,
            path: self.path,
            records: Vec::new(),
        }
    }
}

impl AppState {
    /// What is kept of this state between runs.
    pub fn to_persisted(&self) -> (p: PersistedState)
        ensures
            persists(p, self@),
    {
        PersistedState {
            focused_side_left: self.focused_side_left,
            left: PersistedSide::from_side(&self.left),
            right: PersistedSide::from_side(&self.right),
            fullscreen: self.fullscreen,
            maximized: self.maximized,
        }
    }

    /// The state kept in `p`, with nothing listed yet.
    pub fn from_persisted(p: PersistedState) -> (s: AppState)
        ensures
            persists(p, s@),
            s@.left.records == Seq::<FileRecord>::empty(),
            s@.right.records == Seq::<FileRecord>::empty(),
    {
        let PersistedState { focused_side_left, left, right, fullscreen, maximized } = p;
        AppState {
            focused_side_left,
            left: left.into_side(),
            right: right.into_side(),
            fullscreen,
            maximized,
        }
    }

    /// The pane to list first after loading, and the position to select in
    /// it once both panes are listed (the saved one, or the first).
    pub fn load_selection(&self) -> (r: (Side, usize))
        ensures
            r.0 == self@.selected_side(),
            r.1 == self@.side(r.0).current_idx(),
    {
        let side = self.get_selected_side();
        let idx = match self.get_selected_idx(side) {
            Some(i) => i,
            None => 0,
        };
        (side, idx)
    }

    /// Shows a listing read while loading; a directory that could not be
    /// read fails the load.
    pub fn apply_loaded_directory(&mut self, result: Result<ReadDirData, ReadDirectoryError>) -> (r: Result<
        (),
        LoadError,
    >)
        ensures
            match result {
                Ok(data) => {
                    &&& r is Ok
                    &&& final(self)@ == old(self)@.with_side(data.side, SideView {
                        selected_idx: Some(0usize),
                        path: data.path@,
                        records: final(self)@.side(data.side).records,
                        ..old(self)@.side(data.side)
                    })
                    &&& shown_listing(final(self)@.side(data.side).records, data.path@, data.records@,
                        old(self)@.side(data.side).sorting_options)
                },
                Err(e) => r == Err::<(), LoadError>(LoadError::GoToDir(e)) && final(self)@ == old(self)@,
            },
    {
        match result {
            Ok(data) => {
                self.save_read_directory_data(data);
                Ok(())
            },
            Err(err) => Err(LoadError::GoToDir(err)),
        }
    }

    /// Gives pane `side` the focus without touching either selection.
    pub fn focus_window(&mut self, side: Side)
        ensures
            final(self)@ == (AppStateView { focused_side_left: side.spec_is_left(), ..old(self)@ }),
    {
        self.focused_side_left = side.is_left();
    }

    /// The path of entry `idx` of pane `side`.
    pub fn get_path_to_open_at(&self, side: Side, idx: usize) -> (p: String)
        requires
            idx < self@.side(side).records.len(),
        ensures
            p@ == joined_path(self@.side(side).path, self@.side(side).records[idx as int].file_name@),
    {
        let records = self.get_records(side);
        join_path(self.get_path(side).as_str(), records[idx].file_name.as_str())
    }

    /// Applies what happened in pane `side`'s table during a frame: the row
    /// selected (if any), whether a row was clicked (which focuses the pane)
    /// and the row double-clicked (if any), whose path is returned to be
    /// opened.
    pub fn handle_table_interactions(
        &mut self,
        side: Side,
        selected_idx_option: Option<usize>,
        any_row_clicked: bool,
        double_clicked_idx_option: Option<usize>,
    ) -> (open: Option<String>)
        requires
            double_clicked_idx_option matches Some(i) ==> i < old(self)@.side(side).records.len(),
        ensures
            ({
                let selected = match selected_idx_option {
                    Some(i) => old(self)@.with_selected(side, i),
                    None => old(self)@,
                };
                let focused = if any_row_clicked {
                    AppStateView { focused_side_left: side.spec_is_left(), ..selected }
                } else {
                    selected
                };
                final(self)@ == focused
            }),
            match double_clicked_idx_option {
                Some(i) => open matches Some(p) && p@ == joined_path(
                    final(self)@.side(side).path,
                    final(self)@.side(side).records[i as int].file_name@,
                ),
                None => open is None,
            },
    {
        if let Some(selected_idx) = selected_idx_option {
            self.set_selected_idx(side, selected_idx);
        }

        if any_row_clicked {
            self.focus_window(side);
        }

        match double_clicked_idx_option {
            Some(idx) => Some(self.get_path_to_open_at(side, idx)),
            None => None,
        }
    }
}


impl Clone for SideData {
    fn clone(&self) -> (c: Self)
        ensures
            c.view() == self.view(),
    {
        let records = self.records.clone();
        assert(records@ =~= self.records@);
        SideData {
            selected_idx: self.selected_idx,
            sorting_options: self.sorting_options,
            path: self.path.clone(),
            records,
        }
    }
}

impl Clone for AppState {
    fn clone(&self) -> (c: Self)
        ensures
            c@ == self@,
    {
        AppState {
            focused_side_left: self.focused_side_left,
            left: self.left.clone(),
            right: self.right.clone(),
            fullscreen: self.fullscreen,
            maximized: self.maximized,
        }
    }
}

impl Clone for ReadDirData {
    fn clone(&self) -> (c: Self)
        ensures
            c.side == self.side,
            c.path == self.path,
            c.records@ == self.records@,
    {
        let records = self.records.clone();
        assert(records@ =~= self.records@);
        ReadDirData { side: self.side, path: self.path.clone(), records }
    }
}


impl AppState {
    /// Whether the window is fullscreen.
    pub fn is_fullscreen(&self) -> (b: bool)
        ensures
            b == self@.fullscreen,
    {
        self.fullscreen
    }

    /// Whether the window is maximized.
    pub fn is_maximized(&self) -> (b: bool)
        ensures
            b == self@.maximized,
    {
        self.maximized
    }

    /// Records whether the window is fullscreen.
    pub fn set_fullscreen(&mut self, fullscreen: bool)
        ensures
            final(self)@ == (AppStateView { fullscreen, ..old(self)@ }),
    {
        self.fullscreen = fullscreen;
    }

    /// Records whether the window is maximized.
    pub fn set_maximized(&mut self, maximized: bool)
        ensures
            final(self)@ == (AppStateView { maximized, ..old(self)@ }),
    {
        self.maximized = maximized;
    }
}

} // verus!
