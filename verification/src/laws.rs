//! Properties that hold across the library's operations.
use vstd::prelude::*;
use crate::files::{lemma_listing_order_same_records, lemma_first_go_back, lemma_first_go_back_found, FileColumn, FileRecord, SortingOptions, SortDirection, listing_order, rank_class, same_rank_classes,
    sorted_by, same_rank, goes_before, lemma_rank_le_reflexive,
    go_back_head, without_go_back, folder_records, file_records, first_go_back, stably_sorted};
use crate::state::{AppStateView, ReadDirData, Side, is_fresh_go_back, is_hovered, shown_listing,
    with_hover, persists, PersistedState};
use crate::update::{ApplicationView, Task, marks_dirty, message_handled, save_scheduled};
use crate::message::Message;
use crate::text::is_root_path;

verus! {

/// Switching panes twice gives the focus back to the pane that had it, with
/// its first entry selected and the other pane's selection cleared.
pub proof fn lemma_toggle_focus_twice(v: AppStateView)
    ensures
        ({
            let once = v.focused_on(v.selected_side().spec_other());
            once.focused_on(once.selected_side().spec_other())
        }) == v.focused_on(v.selected_side()),
{
    let once = v.focused_on(v.selected_side().spec_other());
    assert(once.selected_side() == v.selected_side().spec_other());
    assert(once.focused_on(once.selected_side().spec_other()) =~= v.focused_on(v.selected_side()));
}

/// Moving the selection down and then up returns to the same entry, when
/// there was an entry below.
pub proof fn lemma_next_then_prev(v: AppStateView, side: Side, i: usize)
    requires
        v.side(side).selected_idx == Some(i),
        i + 1 < v.side(side).records.len() <= usize::MAX,
    ensures
        v.after_select_next(side).after_select_prev(side) == v,
{
    let w = v.after_select_next(side);
    assert(w.side(side).selected_idx == Some((i + 1) as usize));
    let back = w.after_select_prev(side);
    match side {
        Side::Left => assert(back.left =~= v.left),
        Side::Right => assert(back.right =~= v.right),
    }
    assert(back =~= v);
}

/// Moving the selection up and then down returns to the same entry, when
/// there was an entry above.
pub proof fn lemma_prev_then_next(v: AppStateView, side: Side, i: usize)
    requires
        v.side(side).selected_idx == Some(i),
        0 < i < v.side(side).records.len(),
    ensures
        v.after_select_prev(side).after_select_next(side) == v,
{
    let w = v.after_select_prev(side);
    assert(w.side(side).selected_idx == Some((i - 1) as usize));
    let back = w.after_select_next(side);
    match side {
        Side::Left => assert(back.left =~= v.left),
        Side::Right => assert(back.right =~= v.right),
    }
    assert(back =~= v);
}

/// Moving the selection never leaves the listing: a selection that names
/// an entry still names one afterwards, and an empty selection in a
/// non-empty listing comes to name one once it moves.
pub proof fn lemma_moves_stay_in_listing(v: AppStateView, side: Side)
    requires
        v.side(side).has_valid_selection() || (v.side(side).selected_idx is None && v.side(side).records.len() > 1),
    ensures
        v.after_select_next(side).side(side).has_valid_selection(),
        v.side(side).has_valid_selection() ==> v.after_select_prev(side).side(side).has_valid_selection(),
        v.after_select_next(side).side(side).records == v.side(side).records,
        v.after_select_prev(side).side(side).records == v.side(side).records,
{
}

/// The selection moves only within the pane it is asked of; the other pane
/// and the focus are left alone.
pub proof fn lemma_moves_keep_other_pane(v: AppStateView, side: Side)
    ensures
        v.after_select_next(side).side(side.spec_other()) == v.side(side.spec_other()),
        v.after_select_prev(side).side(side.spec_other()) == v.side(side.spec_other()),
        v.after_select_next(side).focused_side_left == v.focused_side_left,
        v.after_select_prev(side).focused_side_left == v.focused_side_left,
{
}

/// Pointing at a record in any column marks it hovered; clearing the
/// pointer from all three of its columns unmarks it.
pub proof fn lemma_hover(a: FileRecord, b: FileRecord, c: FileRecord, d: FileRecord, col: FileColumn)
    requires
        a.hover@.len() == 3,
    ensures
        with_hover(a, b, col.spec_index() as int, true) ==> is_hovered(b),
        with_hover(a, b, FileColumn::Name.spec_index() as int, false) && with_hover(b, c,
            FileColumn::Size.spec_index() as int, false) && with_hover(c, d,
            FileColumn::Modified.spec_index() as int, false) ==> !is_hovered(d),
{
}

/// Pressing the header of the column a pane is ordered by twice restores
/// the ordering; pressing another column's header orders by it,
/// ascending, and pressing it again makes that descending.
pub proof fn lemma_header_presses(o: SortingOptions, col: FileColumn)
    ensures
        o.direction.toggled().toggled() == o.direction,
        o.sort_by != col.spec_sort_by() ==> (SortingOptions {
            sort_by: col.spec_sort_by(),
            direction: SortDirection::Ascending.toggled(),
        }).direction == SortDirection::Descending,
{
}

/// A listing shown for a directory other than the root starts with a fresh
/// go-back record and has one record more than was read; at the root it
/// has exactly the records read.
pub proof fn lemma_shown_listing_head(out: Seq<FileRecord>, path: Seq<char>, records: Seq<FileRecord>, o: SortingOptions)
    requires
        shown_listing(out, path, records, o),
    ensures
        !is_root_path(path) ==> out.len() == records.len() + 1 && is_fresh_go_back(out[0]),
        is_root_path(path) ==> out.len() == records.len(),
{
    reveal(listing_order);
    if !is_root_path(path) {
        let g = choose|g: FileRecord| is_fresh_go_back(g) && listing_order(out, seq![g] + records, o);
        let inp = seq![g] + records;
        assert(first_go_back(inp) == Some(0int));
        assert(go_back_head(inp) =~= seq![g]);
        assert(out.take(1) =~= seq![g]);
        assert(out[0] == out.take(1)[0]);
        lemma_layout_len(out, inp, o);
    } else {
        lemma_layout_len(out, records, o);
    }
}

proof fn lemma_first_go_back_in_range(s: Seq<FileRecord>)
    ensures
        first_go_back(s) matches Some(i) ==> 0 <= i < s.len(),
    decreases s.len(),
{
    if s.len() > 0 {
        lemma_first_go_back_in_range(s.drop_first());
    }
}

proof fn lemma_partition_len(s: Seq<FileRecord>)
    ensures
        folder_records(s).len() + file_records(s).len() == s.len(),
    decreases s.len(),
{
    reveal(folder_records);
    reveal(file_records);
    reveal(Seq::filter);
    if s.len() > 0 {
        lemma_partition_len(s.drop_last());
    }
}

/// A laid-out listing has as many records as it was given.
pub proof fn lemma_layout_len(out: Seq<FileRecord>, inp: Seq<FileRecord>, o: SortingOptions)
    requires
        listing_order(out, inp, o),
    ensures
        out.len() == inp.len(),
{
    reveal(listing_order);
    lemma_first_go_back_in_range(inp);
    lemma_partition_len(without_go_back(inp));
}

proof fn lemma_sorted_members(out: Seq<FileRecord>, inp: Seq<FileRecord>, o: SortingOptions, i: int)
    requires
        stably_sorted(out, inp, o),
        0 <= i < out.len(),
    ensures
        inp.contains(out[i]),
{
    out.to_multiset_ensures();
    inp.to_multiset_ensures();
    assert(out.contains(out[i]));
    assert(out.to_multiset().count(out[i]) > 0);
    assert(inp.to_multiset().count(out[i]) > 0);
}

/// In a laid-out listing no file comes before a folder: past the go-back
/// record there are folders first, then files.
pub proof fn lemma_folders_before_files(out: Seq<FileRecord>, inp: Seq<FileRecord>, o: SortingOptions, i: int, j: int)
    requires
        listing_order(out, inp, o),
        go_back_head(inp).len() <= i < j < out.len(),
        !out[j].is_file,
    ensures
        !out[i].is_file,
{
    lemma_folders_before_files_parts(out, inp, o, i);
    lemma_folders_before_files_parts(out, inp, o, j);
}

/// A listing read for pane `data.side` goes to that pane, whichever pane has
/// the focus: the pane then lists `data.path` with the records read (after
/// a go-back record unless at the root), its first entry selected and its
/// ordering kept, while the other pane, the focus and the window flags
/// stay as they were and loading ends.
pub proof fn lemma_directory_opened_fills_its_pane(b: ApplicationView, data: ReadDirData, a: ApplicationView, task: Task)
    requires
        message_handled(b, Message::DirectoryOpened(Ok(data)), a, task),
    ensures
        a.state.side(data.side).path == data.path@,
        a.state.side(data.side).selected_idx == Some(0usize),
        a.state.side(data.side).sorting_options == b.state.side(data.side).sorting_options,
        shown_listing(a.state.side(data.side).records, data.path@, data.records@, b.state.side(data.side).sorting_options),
        a.state.side(data.side.spec_other()) == b.state.side(data.side.spec_other()),
        a.state.focused_side_left == b.state.focused_side_left,
        a.state.fullscreen == b.state.fullscreen,
        a.state.maximized == b.state.maximized,
        !a.loading,
        a.dirty == b.dirty,
        a.saving == b.saving,
        task is Nothing,
{
}

/// After any update, changes are never left unsaved while no save is under
/// way, and a new save starts only when none is under way (a save under
/// way ends only with `AppSaved`).
pub proof fn lemma_update_saves(
    b: ApplicationView,
    m: Message,
    mid: ApplicationView,
    task: Task,
    a: ApplicationView,
    save: Option<PersistedState>,
)
    requires
        message_handled(b, m, mid, task),
        save_scheduled(mid, marks_dirty(m), a, save),
    ensures
        a.dirty ==> a.saving,
        b.saving && !(m is AppSaved) ==> save is None && a.saving,
        save is Some ==> a.saving && !a.dirty,
        save matches Some(p) ==> persists(p, a.state),
        b.dirty && !b.saving ==> save is Some,
{
}

/// What is kept of a state, taken back, agrees with that state in
/// everything but the listings.
pub proof fn lemma_persisted_round_trip(p: PersistedState, v: AppStateView, w: AppStateView)
    requires
        persists(p, v),
        persists(p, w),
    ensures
        w.focused_side_left == v.focused_side_left,
        w.fullscreen == v.fullscreen,
        w.maximized == v.maximized,
        w.left.selected_idx == v.left.selected_idx,
        w.right.selected_idx == v.right.selected_idx,
        w.left.sorting_options == v.left.sorting_options,
        w.right.sorting_options == v.right.sorting_options,
        w.left.path == v.left.path,
        w.right.path == v.right.path,
{
}


/// Two sorted sequences in which every rank class lists the same records in
/// the same order are equal.
proof fn lemma_sorted_classes_determine(a: Seq<FileRecord>, b: Seq<FileRecord>, o: SortingOptions)
    requires
        sorted_by(a, o),
        sorted_by(b, o),
        forall|x: FileRecord| #[trigger] rank_class(a, x, o.sort_by) == rank_class(b, x, o.sort_by),
    ensures
        a == b,
    decreases a.len(),
{
    reveal(sorted_by);
    let by = o.sort_by;
    if a.len() == 0 {
        if b.len() > 0 {
            lemma_class_contains_self(b, 0, by);
            assert(rank_class(a, b[0], by) =~= Seq::<FileRecord>::empty()) by {
                reveal(Seq::filter);
            }
        }
        assert(a =~= b);
    } else if b.len() == 0 {
        lemma_class_contains_self(a, 0, by);
        assert(rank_class(b, a[0], by) =~= Seq::<FileRecord>::empty()) by {
            reveal(Seq::filter);
        }
    } else {
        let x = a[0];
        let y = b[0];
        // y lies in a, so x may stand before it; x lies in b, so y may stand before it.
        lemma_class_member_in(b, a, 0, o);
        lemma_class_member_in(a, b, 0, o);
        let i = choose|i: int| 0 <= i < a.len() && a[i] == y;
        let j = choose|j: int| 0 <= j < b.len() && b[j] == x;
        if i > 0 {
            assert(goes_before(a[0], a[i], o));
        } else {
            lemma_rank_le_reflexive(x, by);
        }
        if j > 0 {
            assert(goes_before(b[0], b[j], o));
        } else {
            lemma_rank_le_reflexive(y, by);
        }
        assert(same_rank(x, y, by));
        // both classes of x start with their first elements
        let pred = |z: FileRecord| same_rank(z, x, by);
        lemma_rank_le_reflexive(x, by);
        assert(a =~= seq![x] + a.drop_first());
        assert(b =~= seq![y] + b.drop_first());
        a.drop_first().lemma_filter_prepend(x, pred);
        b.drop_first().lemma_filter_prepend(y, pred);
        assert(rank_class(a, x, by)[0] == x);
        assert(rank_class(b, x, by)[0] == y);
        assert(x == y);
        // the rest
        assert forall|z: FileRecord| #[trigger] rank_class(a.drop_first(), z, by) == rank_class(b.drop_first(), z, by) by {
            let p = |w: FileRecord| same_rank(w, z, by);
            a.drop_first().lemma_filter_prepend(x, p);
            b.drop_first().lemma_filter_prepend(x, p);
            assert(rank_class(a, z, by) == rank_class(b, z, by));
            if same_rank(x, z, by) {
                assert(rank_class(a.drop_first(), z, by) =~= rank_class(a, z, by).drop_first());
                assert(rank_class(b.drop_first(), z, by) =~= rank_class(b, z, by).drop_first());
            }
        }
        lemma_sorted_classes_determine(a.drop_first(), b.drop_first(), o);
    }
}

proof fn lemma_class_contains_self(s: Seq<FileRecord>, i: int, by: crate::files::SortBy)
    requires
        0 <= i < s.len(),
    ensures
        rank_class(s, s[i], by).contains(s[i]),
{
    lemma_rank_le_reflexive(s[i], by);
    s.lemma_filter_contains(|y: FileRecord| same_rank(y, s[i], by), i);
}

/// Under equal rank classes, an element of `s` lies in `t`.
proof fn lemma_class_member_in(s: Seq<FileRecord>, t: Seq<FileRecord>, i: int, o: SortingOptions)
    requires
        0 <= i < s.len(),
        forall|x: FileRecord| #[trigger] rank_class(t, x, o.sort_by) == rank_class(s, x, o.sort_by),
    ensures
        t.contains(s[i]),
{
    let by = o.sort_by;
    lemma_class_contains_self(s, i, by);
    assert(rank_class(t, s[i], by) == rank_class(s, s[i], by));
    let pred = |y: FileRecord| same_rank(y, s[i], by);
    t.lemma_filter_contains_rev(pred, s[i]);
}

/// A stable sort is unique: two stable sorts of the same records agree.
pub proof fn lemma_stable_sort_unique(a: Seq<FileRecord>, b: Seq<FileRecord>, inp: Seq<FileRecord>, o: SortingOptions)
    requires
        stably_sorted(a, inp, o),
        stably_sorted(b, inp, o),
    ensures
        a == b,
{
    reveal(same_rank_classes);
    assert forall|x: FileRecord| #[trigger] rank_class(a, x, o.sort_by) == rank_class(b, x, o.sort_by) by {
        assert(rank_class(a, x, o.sort_by) == rank_class(inp, x, o.sort_by));
        assert(rank_class(b, x, o.sort_by) == rank_class(inp, x, o.sort_by));
    }
    lemma_sorted_classes_determine(a, b, o);
}

/// The layout of a listing is determined by the listing and the ordering.
pub proof fn lemma_listing_order_unique(a: Seq<FileRecord>, b: Seq<FileRecord>, inp: Seq<FileRecord>, o: SortingOptions)
    requires
        listing_order(a, inp, o),
        listing_order(b, inp, o),
    ensures
        a == b,
{
    reveal(listing_order);
    let head = go_back_head(inp);
    let rest = without_go_back(inp);
    let h = head.len() as int;
    let f = folder_records(rest).reverse().len() as int;
    lemma_stable_sort_unique(a.subrange(h, h + f), b.subrange(h, h + f), folder_records(rest).reverse(), o);
    lemma_stable_sort_unique(a.skip(h + f), b.skip(h + f), file_records(rest).reverse(), o);
    assert(a =~= a.take(h) + a.subrange(h, h + f) + a.skip(h + f));
    assert(b =~= b.take(h) + b.subrange(h, h + f) + b.skip(h + f));
}


/// All records of `s` rank differently by `by`.
#[verifier::opaque]
pub open spec fn distinct_ranks(s: Seq<FileRecord>, by: crate::files::SortBy) -> bool {
    forall|i: int, j: int|
        0 <= i < s.len() && 0 <= j < s.len() && i != j ==> !same_rank(#[trigger] s[i], #[trigger] s[j], by)
}

proof fn lemma_two_positions_count(s: Seq<FileRecord>, i: int, j: int)
    requires
        0 <= i < s.len(),
        0 <= j < s.len(),
        i != j,
        s[i] == s[j],
    ensures
        s.to_multiset().count(s[i]) >= 2,
{
    s.to_multiset_ensures();
    let t = s.remove(j);
    t.to_multiset_ensures();
    broadcast use vstd::multiset::group_multiset_axioms;
    let k = if i < j { i } else { i - 1 };
    assert(t[k] == s[i]);
    assert(t.contains(s[i]));
    assert(s.contains(s[i]));
    assert(t.to_multiset().count(s[i]) > 0);
}

proof fn lemma_count_two_positions(s: Seq<FileRecord>, v: FileRecord)
    requires
        s.to_multiset().count(v) >= 2,
    ensures
        exists|i: int, j: int| 0 <= i < s.len() && 0 <= j < s.len() && i != j && s[i] == v && s[j] == v,
{
    s.to_multiset_ensures();
    assert(s.contains(v));
    let i = choose|i: int| 0 <= i < s.len() && s[i] == v;
    let t = s.remove(i);
    t.to_multiset_ensures();
    assert(t.to_multiset().count(v) >= 1);
    assert(t.contains(v));
    let k = choose|k: int| 0 <= k < t.len() && t[k] == v;
    let j = if k < i { k } else { k + 1 };
    assert(s[j] == v);
}

/// Rearranging records keeps their ranks distinct.
pub proof fn lemma_distinct_ranks_rearranged(s1: Seq<FileRecord>, s2: Seq<FileRecord>, by: crate::files::SortBy)
    requires
        s1.to_multiset() == s2.to_multiset(),
        distinct_ranks(s1, by),
    ensures
        distinct_ranks(s2, by),
{
    reveal(distinct_ranks);
    s1.to_multiset_ensures();
    s2.to_multiset_ensures();
    assert forall|i: int, j: int| 0 <= i < s2.len() && 0 <= j < s2.len() && i != j
        implies !same_rank(#[trigger] s2[i], #[trigger] s2[j], by) by {
        if same_rank(s2[i], s2[j], by) {
            if s2[i] == s2[j] {
                lemma_two_positions_count(s2, i, j);
                lemma_count_two_positions(s1, s2[i]);
                let (p, q) = choose|p: int, q: int| 0 <= p < s1.len() && 0 <= q < s1.len() && p != q
                    && s1[p] == s2[i] && s1[q] == s2[i];
                lemma_rank_le_reflexive(s2[i], by);
                assert(!same_rank(s1[p], s1[q], by));
            } else {
                assert(s2.contains(s2[i]) && s2.contains(s2[j]));
                assert(s2.to_multiset().count(s2[i]) > 0 && s2.to_multiset().count(s2[j]) > 0);
                assert(s1.contains(s2[i]) && s1.contains(s2[j]));
                let p = choose|p: int| 0 <= p < s1.len() && s1[p] == s2[i];
                let q = choose|q: int| 0 <= q < s1.len() && s1[q] == s2[j];
                assert(!same_rank(s1[p], s1[q], by));
            }
        }
    }
}

/// Two sorted arrangements of the same records, all ranking differently,
/// are equal.
proof fn lemma_sorted_arrangement_unique(a: Seq<FileRecord>, b: Seq<FileRecord>, o: SortingOptions)
    requires
        sorted_by(a, o),
        sorted_by(b, o),
        a.to_multiset() == b.to_multiset(),
        distinct_ranks(a, o.sort_by),
    ensures
        a == b,
    decreases a.len(),
{
    reveal(distinct_ranks);
    reveal(sorted_by);
    a.to_multiset_ensures();
    b.to_multiset_ensures();
    if a.len() == 0 {
        assert(b.len() == 0);
        assert(a =~= b);
    } else {
        assert(b.len() > 0);
        assert(a.contains(a[0]) && b.contains(b[0]));
        assert(a.to_multiset().count(a[0]) > 0 && b.to_multiset().count(b[0]) > 0);
        let k = choose|k: int| 0 <= k < a.len() && a[k] == b[0];
        let m = choose|m: int| 0 <= m < b.len() && b[m] == a[0];
        if k != 0 {
            assert(goes_before(a[0], a[k], o));
            if m != 0 {
                assert(goes_before(b[0], b[m], o));
            } else {
                lemma_rank_le_reflexive(a[0], o.sort_by);
            }
            assert(same_rank(a[0], a[k], o.sort_by));
            assert(false);
        }
        assert(a[0] == b[0]);
        let a2 = a.drop_first();
        let b2 = b.drop_first();
        assert(a.remove(0) =~= a2);
        assert(b.remove(0) =~= b2);
        assert(a2.to_multiset() =~= b2.to_multiset());
        assert(distinct_ranks(a2, o.sort_by)) by {
            assert forall|i: int, j: int| 0 <= i < a2.len() && 0 <= j < a2.len() && i != j
                implies !same_rank(#[trigger] a2[i], #[trigger] a2[j], o.sort_by) by {
                assert(a2[i] == a[i + 1] && a2[j] == a[j + 1]);
            }
        }
        lemma_sorted_arrangement_unique(a2, b2, o);
        assert forall|i: int| 0 <= i < a.len() implies a[i] == b[i] by {
            if i > 0 {
                assert(a[i] == a2[i - 1]);
                assert(b[i] == b2[i - 1]);
            }
        }
        assert(a =~= b);
    }
}

proof fn lemma_no_go_back(s: Seq<FileRecord>)
    requires
        first_go_back(s) is None,
    ensures
        forall|i: int| 0 <= i < s.len() ==> !(#[trigger] s[i]).is_go_back_record,
    decreases s.len(),
{
    if s.len() > 0 {
        lemma_no_go_back(s.drop_first());
        assert forall|i: int| 0 <= i < s.len() implies !(#[trigger] s[i]).is_go_back_record by {
            if i > 0 {
                assert(s[i] == s.drop_first()[i - 1]);
            }
        }
    }
}

proof fn lemma_filter_all(s: Seq<FileRecord>, p: spec_fn(FileRecord) -> bool)
    requires
        forall|i: int| 0 <= i < s.len() ==> p(#[trigger] s[i]),
    ensures
        s.filter(p) == s,
    decreases s.len(),
{
    reveal(Seq::filter);
    if s.len() > 0 {
        lemma_filter_all(s.drop_last(), p);
        assert(s.drop_last().push(s.last()) =~= s);
    }
}

proof fn lemma_filter_none(s: Seq<FileRecord>, p: spec_fn(FileRecord) -> bool)
    requires
        forall|i: int| 0 <= i < s.len() ==> !p(#[trigger] s[i]),
    ensures
        s.filter(p) == Seq::<FileRecord>::empty(),
    decreases s.len(),
{
    reveal(Seq::filter);
    if s.len() > 0 {
        lemma_filter_none(s.drop_last(), p);
    }
}

/// The parts of a laid-out listing: its go-back head, its folders, its files.
pub open spec fn layout_parts(out: Seq<FileRecord>, inp: Seq<FileRecord>) -> (Seq<FileRecord>, Seq<FileRecord>, Seq<FileRecord>) {
    let h = go_back_head(inp).len() as int;
    let f = folder_records(without_go_back(inp)).len() as int;
    (out.take(h), out.subrange(h, h + f), out.skip(h + f))
}

/// The folder part of a laid-out listing holds folders only, the file part
/// files only.
proof fn lemma_layout_parts_kinds(out: Seq<FileRecord>, inp: Seq<FileRecord>, o: SortingOptions)
    requires
        listing_order(out, inp, o),
    ensures
        forall|i: int| 0 <= i < layout_parts(out, inp).1.len() ==> !(#[trigger] layout_parts(out, inp).1[i]).is_file,
        forall|i: int| 0 <= i < layout_parts(out, inp).2.len() ==> (#[trigger] layout_parts(out, inp).2[i]).is_file,
        out == layout_parts(out, inp).0 + layout_parts(out, inp).1 + layout_parts(out, inp).2,
        sorted_by(layout_parts(out, inp).1, o),
        sorted_by(layout_parts(out, inp).2, o),
{
    reveal(listing_order);
    lemma_first_go_back_in_range(inp);
    lemma_layout_len(out, inp, o);
    let h = go_back_head(inp).len() as int;
    let f = folder_records(without_go_back(inp)).len() as int;
    assert(folder_records(without_go_back(inp)).reverse().len() == f);
    let (head, folders, files) = layout_parts(out, inp);
    assert forall|i: int| 0 <= i < folders.len() implies !(#[trigger] folders[i]).is_file by {
        assert(folders[i] == out[h + i]);
        lemma_folders_before_files_parts(out, inp, o, h + i);
    }
    assert forall|i: int| 0 <= i < files.len() implies (#[trigger] files[i]).is_file by {
        assert(files[i] == out[h + f + i]);
        lemma_folders_before_files_parts(out, inp, o, h + f + i);
    }
    assert(out =~= head + folders + files);
}

/// A laid-out listing has the go-back head of its input, and without it
/// what remains is its folder part followed by its file part.
proof fn lemma_layout_head_again(out: Seq<FileRecord>, inp: Seq<FileRecord>, o: SortingOptions)
    requires
        listing_order(out, inp, o),
        out == layout_parts(out, inp).0 + layout_parts(out, inp).1 + layout_parts(out, inp).2,
    ensures
        go_back_head(out) == layout_parts(out, inp).0,
        without_go_back(out) == layout_parts(out, inp).1 + layout_parts(out, inp).2,
{
    reveal(listing_order);
    lemma_first_go_back_in_range(inp);
    lemma_listing_order_same_records(out, inp, o);
    let (head, folders, files) = layout_parts(out, inp);
    let rest2 = folders + files;
    assert(head == go_back_head(inp));
    match first_go_back(inp) {
        Some(g) => {
            lemma_first_go_back_found(inp);
            assert(out[0] == head[0]);
            assert(out[0] == inp[g]);
            assert(first_go_back(out) == Some(0int));
            assert(go_back_head(out) =~= head);
            assert(out.remove(0) =~= rest2);
        },
        None => {
            lemma_no_go_back(inp);
            inp.to_multiset_ensures();
            out.to_multiset_ensures();
            assert forall|i: int| 0 <= i < out.len() implies !(#[trigger] out[i]).is_go_back_record by {
                assert(out.contains(out[i]));
                assert(out.to_multiset().count(out[i]) > 0);
                assert(inp.contains(out[i]));
            }
            lemma_first_go_back(out, out.len() as int);
            assert(head =~= Seq::<FileRecord>::empty());
            assert(go_back_head(out) =~= head);
            assert(out =~= rest2);
        },
    }
}

/// Splitting folders followed by files into folders and files gives them back.
proof fn lemma_groups_of_parts(folders: Seq<FileRecord>, files: Seq<FileRecord>)
    requires
        forall|i: int| 0 <= i < folders.len() ==> !(#[trigger] folders[i]).is_file,
        forall|i: int| 0 <= i < files.len() ==> (#[trigger] files[i]).is_file,
    ensures
        folder_records(folders + files) == folders,
        file_records(folders + files) == files,
{
    reveal(folder_records);
    reveal(file_records);
    Seq::filter_distributes_over_add(folders, files, |r: FileRecord| !r.is_file);
    Seq::filter_distributes_over_add(folders, files, |r: FileRecord| r.is_file);
    lemma_filter_all(folders, |r: FileRecord| !r.is_file);
    lemma_filter_none(files, |r: FileRecord| !r.is_file);
    lemma_filter_all(files, |r: FileRecord| r.is_file);
    lemma_filter_none(folders, |r: FileRecord| r.is_file);
    assert(folder_records(folders + files) =~= folders);
    assert(file_records(folders + files) =~= files);
}

/// Laying out `out` again sorts its folders and its files, each on its own,
/// behind its go-back head.
proof fn lemma_layout_again_parts(
    again: Seq<FileRecord>,
    out: Seq<FileRecord>,
    rest: Seq<FileRecord>,
    folders: Seq<FileRecord>,
    files: Seq<FileRecord>,
    o: SortingOptions,
)
    requires
        listing_order(again, out, o),
        without_go_back(out) == rest,
        folder_records(rest) == folders,
        file_records(rest) == files,
    ensures
        again.len() == go_back_head(out).len() + folders.len() + files.len(),
        again.take(go_back_head(out).len() as int) == go_back_head(out),
        stably_sorted(
            again.subrange(go_back_head(out).len() as int, (go_back_head(out).len() + folders.len()) as int),
            folders.reverse(),
            o,
        ),
        stably_sorted(again.skip((go_back_head(out).len() + folders.len()) as int), files.reverse(), o),
{
    reveal(listing_order);
}

/// A sequence is its three consecutive parts.
proof fn lemma_split_three(s: Seq<FileRecord>, i: int, j: int)
    requires
        0 <= i <= j <= s.len(),
    ensures
        s == s.take(i) + s.subrange(i, j) + s.skip(j),
{
    assert(s =~= s.take(i) + s.subrange(i, j) + s.skip(j));
}

/// Laying out a laid-out listing again changes nothing when no two of its
/// folders rank equally and no two of its files do, its go-back record
/// aside (with equal ranks it would reverse their order, since each group
/// is collected from the end of the listing).
pub proof fn lemma_resort_keeps_layout(out: Seq<FileRecord>, inp: Seq<FileRecord>, again: Seq<FileRecord>, o: SortingOptions)
    requires
        listing_order(out, inp, o),
        listing_order(again, out, o),
        distinct_ranks(folder_records(without_go_back(inp)), o.sort_by),
        distinct_ranks(file_records(without_go_back(inp)), o.sort_by),
    ensures
        again == out,
{
    let by = o.sort_by;
    lemma_layout_parts_kinds(out, inp, o);
    lemma_layout_head_again(out, inp, o);
    let (head, folders, files) = layout_parts(out, inp);
    let h = head.len() as int;
    let f = folders.len() as int;
    let rest = without_go_back(out);
    assert(distinct_ranks(folders, by) && distinct_ranks(files, by)) by {
        reveal(listing_order);
        let rest_in = without_go_back(inp);
        let in_folders = folder_records(rest_in);
        let in_files = file_records(rest_in);
        in_folders.lemma_reverse_to_multiset();
        in_files.lemma_reverse_to_multiset();
        lemma_distinct_ranks_rearranged(in_folders, in_folders.reverse(), by);
        lemma_distinct_ranks_rearranged(in_files, in_files.reverse(), by);
        lemma_distinct_ranks_rearranged(in_folders.reverse(), folders, by);
        lemma_distinct_ranks_rearranged(in_files.reverse(), files, by);
    }
    assert(folder_records(rest) == folders && file_records(rest) == files) by {
        lemma_groups_of_parts(folders, files);
    }
    lemma_layout_again_parts(again, out, rest, folders, files, o);
    let again_folders = again.subrange(h, h + f);
    let again_files = again.skip(h + f);
    lemma_split_three(again, h, h + f);
    lemma_sorted_parts_unique(folders, files, again_folders, again_files, o);
}

/// Sorting again the folder and file parts of a listing, each of whose
/// records rank differently, gives them back.
proof fn lemma_sorted_parts_unique(
    folders: Seq<FileRecord>,
    files: Seq<FileRecord>,
    again_folders: Seq<FileRecord>,
    again_files: Seq<FileRecord>,
    o: SortingOptions,
)
    requires
        distinct_ranks(folders, o.sort_by),
        distinct_ranks(files, o.sort_by),
        sorted_by(folders, o),
        sorted_by(files, o),
        stably_sorted(again_folders, folders.reverse(), o),
        stably_sorted(again_files, files.reverse(), o),
    ensures
        again_folders == folders,
        again_files == files,
{
    folders.lemma_reverse_to_multiset();
    files.lemma_reverse_to_multiset();
    lemma_sorted_arrangement_unique(folders, again_folders, o);
    lemma_sorted_arrangement_unique(files, again_files, o);
}

/// In a laid-out listing, a record of the folder part is a folder and a
/// record of the file part is a file.
proof fn lemma_folders_before_files_parts(out: Seq<FileRecord>, inp: Seq<FileRecord>, o: SortingOptions, k: int)
    requires
        listing_order(out, inp, o),
        go_back_head(inp).len() <= k < out.len(),
    ensures
        ({
            let h = go_back_head(inp).len() as int;
            let f = folder_records(without_go_back(inp)).reverse().len() as int;
            (k < h + f ==> !out[k].is_file) && (k >= h + f ==> out[k].is_file)
        }),
{
    reveal(folder_records);
    reveal(file_records);
    reveal(listing_order);
    let head = go_back_head(inp);
    let rest = without_go_back(inp);
    let folders = folder_records(rest).reverse();
    let files = file_records(rest).reverse();
    let h = head.len() as int;
    let f = folders.len() as int;
    if k >= h + f {
        let sorted = out.skip(h + f);
        lemma_sorted_members(sorted, files, o, k - (h + f));
        assert(sorted[k - (h + f)] == out[k]);
        let m = choose|m: int| 0 <= m < files.len() && files[m] == out[k];
        assert(files[m] == file_records(rest)[files.len() - 1 - m]);
        rest.lemma_filter_pred(|r: FileRecord| r.is_file, files.len() - 1 - m);
    } else {
        let sorted = out.subrange(h, h + f);
        lemma_sorted_members(sorted, folders, o, k - h);
        assert(sorted[k - h] == out[k]);
        let m = choose|m: int| 0 <= m < folders.len() && folders[m] == out[k];
        assert(folders[m] == folder_records(rest)[folders.len() - 1 - m]);
        rest.lemma_filter_pred(|r: FileRecord| !r.is_file, folders.len() - 1 - m);
    }
}

} // verus!
