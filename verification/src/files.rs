//! Directory records and their ordering: the go-back record first, then
//! folders, then files, each group in a stable order by name, size or
//! modification time.
use vstd::prelude::*;
use vstd::multiset::Multiset;
use crate::paths::views_of;
use crate::text::{lex_le, lex_le_chars, string_chars, lemma_lex_le_total,
    lemma_lex_le_transitive, lemma_lex_le_reflexive};

verus! {

broadcast use vstd::seq_lib::group_seq_properties;

/// The name of the record that leads to the parent directory.
pub open spec fn go_back_name() -> Seq<char> {
    seq!['.', '.']
}

/// What a listing can be ordered by.
#[derive(Debug, Clone, Copy, PartialEq, Eq, Structural)]
pub enum SortBy {
    Name,
    Size,
    Modified,
}

/// Which way a listing is ordered.
#[derive(Debug, Clone, Copy, PartialEq, Eq, Structural)]
pub enum SortDirection {
    Ascending,
    Descending,
}

impl SortDirection {
    /// The other direction.
    pub open spec fn toggled(self) -> SortDirection {
        match self {
            SortDirection::Ascending => SortDirection::Descending,
            SortDirection::Descending => SortDirection::Ascending,
        }
    }

    /// The other direction.
    pub fn toggle(&self) -> (d: SortDirection)
        ensures
            d == self.toggled(),
    {
        match self {
            SortDirection::Ascending => SortDirection::Descending,
            SortDirection::Descending => SortDirection::Ascending,
        }
    }
}

/// How a pane orders its listing.
#[derive(Debug, Clone, Copy, PartialEq, Eq, Structural)]
pub struct SortingOptions {
    pub sort_by: SortBy,
    pub direction: SortDirection,
}

/// A column of the listing table.
#[derive(Debug, Clone, Copy, PartialEq, Eq, Structural)]
pub enum FileColumn {
    Name,
    Size,
    Modified,
}

impl FileColumn {
    /// The column's position in the table, from the left.
    pub open spec fn spec_index(self) -> nat {
        match self {
            FileColumn::Name => 0,
            FileColumn::Size => 1,
            FileColumn::Modified => 2,
        }
    }

    /// The column's position in the table, from the left.
    pub fn index(&self) -> (i: usize)
        ensures
            i == self.spec_index(),
    {
        match self {
            FileColumn::Name => 0,
            FileColumn::Size => 1,
            FileColumn::Modified => 2,
        }
    }

    /// The ordering that the column's header asks for.
    pub open spec fn spec_sort_by(self) -> SortBy {
        match self {
            FileColumn::Name => SortBy::Name,
            FileColumn::Size => SortBy::Size,
            FileColumn::Modified => SortBy::Modified,
        }
    }

    /// The ordering that the column's header asks for.
    pub fn sort_by(&self) -> (s: SortBy)
        ensures
            s == self.spec_sort_by(),
    {
        match self {
            FileColumn::Name => SortBy::Name,
            FileColumn::Size => SortBy::Size,
            FileColumn::Modified => SortBy::Modified,
        }
    }
}

impl SortBy {
    /// The ordering asked for by the header of table column `column_idx`
    /// (name, size, modified, from the left).
    pub fn for_column_index(column_idx: usize) -> (s: SortBy)
        requires
            column_idx < 3,
        ensures
            column_idx == 0 ==> s == SortBy::Name,
            column_idx == 1 ==> s == SortBy::Size,
            column_idx == 2 ==> s == SortBy::Modified,
    {
        match column_idx {
            0 => SortBy::Name,
            1 => SortBy::Size,
            _ => SortBy::Modified,
        }
    }
}

/// Why a directory could not be listed.
#[derive(Debug, Clone, Copy, PartialEq, Eq, Structural)]
pub enum FilesError {
    ReadDir,
}

impl FilesError {
    /// The variant's name, as `{:#?}` prints it.
    pub fn debug_text(&self) -> (s: &'static str)
        ensures
            s@ == seq!['R', 'e', 'a', 'd', 'D', 'i', 'r'],
    {
        proof {
            reveal_strlit("ReadDir");
        }
        match self {
            FilesError::ReadDir => "ReadDir",
        }
    }
}

/// One entry of a directory listing. `modified` counts nanoseconds from the
/// Unix epoch (negative before it); `hover` tells, per column, whether the
/// pointer is over the entry's cell.
#[derive(Debug)]
pub struct FileRecord {
    pub file_name: String,
    pub is_file: bool,
    pub size: u64,
    pub modified: i64,
    pub is_go_back_record: bool,
    pub hover: [bool; 3],
}

impl Clone for FileRecord {
    fn clone(&self) -> (r: Self)
        ensures
            r == *self,
    {
        FileRecord {
            file_name: self.file_name.clone(),
            is_file: self.is_file,
            size: self.size,
            modified: self.modified,
            is_go_back_record: self.is_go_back_record,
            hover: self.hover,
        }
    }
}

impl FileRecord {
    /// The record that leads to the parent directory.
    pub fn new_go_back_record() -> (r: FileRecord)
        ensures
            r.file_name@ == go_back_name(),
            !r.is_file,
            r.size == 0,
            r.modified == 0,
            r.is_go_back_record,
            r.hover@ == seq![false, false, false],
    {
        proof {
            reveal_strlit("..");
        }
        FileRecord {
            file_name: "..".to_owned(),
            is_file: false,
            size: 0,
            modified: 0,
            is_go_back_record: true,
            hover: [false, false, false],
        }
    }
}

/// What `str::to_lowercase` returns for a string with these characters.
pub uninterp spec fn lowercase(s: Seq<char>) -> Seq<char>;

/// Every character of `s` is an ASCII character.
pub open spec fn is_ascii_text(s: Seq<char>) -> bool {
    forall|i: int| 0 <= i < s.len() ==> (#[trigger] s[i] as u32) < 128
}

/// `s` with each ASCII upper-case letter ('A' to 'Z') replaced by its
/// lower-case form and every other character kept.
pub open spec fn ascii_lowercase(s: Seq<char>) -> Seq<char> {
    Seq::new(
        s.len(),
        |i: int|
            if 65 <= (s[i] as u32) <= 90 {
                ((s[i] as u32) + 32) as char
            } else {
                s[i]
            },
    )
}

/// Calls `str::to_lowercase`, whose result depends on the string alone and
/// is named. Its characters are the Unicode lower-case mappings of the
/// string's characters (`char::to_lowercase`: a character without a mapping
/// stays as it is); of the ASCII characters only 'A' to 'Z' have one, to
/// 'a' to 'z', so an ASCII string is lower-cased letter by letter. Beyond
/// ASCII nothing more is stated.
#[verifier::external_body]
fn to_lowercase(s: &str) -> (r: String)
    ensures
        r@ == lowercase(s@),
        is_ascii_text(s@) ==> r@ == ascii_lowercase(s@),
{
    s.to_lowercase()
}

/// The key by which names are compared: the lower-cased name.
pub open spec fn name_key(r: FileRecord) -> Seq<char> {
    lowercase(r.file_name@)
}

/// `a` ranks at or below `b` by the given criterion. Names compare as
/// `String`s do, by their lower-cased characters (UTF-8 byte order and
/// scalar-value order agree).
pub open spec fn rank_le(a: FileRecord, b: FileRecord, by: SortBy) -> bool {
    match by {
        SortBy::Name => lex_le(name_key(a), name_key(b)),
        SortBy::Size => a.size <= b.size,
        SortBy::Modified => a.modified <= b.modified,
    }
}

/// `a` and `b` rank equally by the given criterion.
pub open spec fn same_rank(a: FileRecord, b: FileRecord, by: SortBy) -> bool {
    rank_le(a, b, by) && rank_le(b, a, by)
}

/// `a` may stand before `b` in a listing ordered by `o`.
pub open spec fn goes_before(a: FileRecord, b: FileRecord, o: SortingOptions) -> bool {
    match o.direction {
        SortDirection::Ascending => rank_le(a, b, o.sort_by),
        SortDirection::Descending => rank_le(b, a, o.sort_by),
    }
}

/// Every record of `s` may stand before every later one.
#[verifier::opaque]
pub open spec fn sorted_by(s: Seq<FileRecord>, o: SortingOptions) -> bool {
    forall|i: int, j: int| 0 <= i < j < s.len() ==> goes_before(#[trigger] s[i], #[trigger] s[j], o)
}

/// The records of `s` that rank equally with `x`, in their order in `s`.
pub open spec fn rank_class(s: Seq<FileRecord>, x: FileRecord, by: SortBy) -> Seq<FileRecord> {
    s.filter(|y: FileRecord| same_rank(y, x, by))
}

/// Every rank class lists the same records, in the same order, in `out` as
/// in `inp`.
#[verifier::opaque]
pub open spec fn same_rank_classes(out: Seq<FileRecord>, inp: Seq<FileRecord>, by: SortBy) -> bool {
    forall|x: FileRecord| #[trigger] rank_class(out, x, by) == rank_class(inp, x, by)
}

/// `out` is `inp` in the order `o`, records of equal rank keeping their
/// order in `inp` (a stable sort).
pub open spec fn stably_sorted(out: Seq<FileRecord>, inp: Seq<FileRecord>, o: SortingOptions) -> bool {
    &&& sorted_by(out, o)
    &&& out.to_multiset() == inp.to_multiset()
    &&& same_rank_classes(out, inp, o.sort_by)
}

/// Any two records are ranked one way or the other.
pub proof fn lemma_rank_le_total(a: FileRecord, b: FileRecord, by: SortBy)
    ensures
        rank_le(a, b, by) || rank_le(b, a, by),
{
    if by == SortBy::Name {
        lemma_lex_le_total(name_key(a), name_key(b));
    }
}

/// Ranking is transitive.
pub proof fn lemma_rank_le_transitive(a: FileRecord, b: FileRecord, c: FileRecord, by: SortBy)
    requires
        rank_le(a, b, by),
        rank_le(b, c, by),
    ensures
        rank_le(a, c, by),
{
    if by == SortBy::Name {
        lemma_lex_le_transitive(name_key(a), name_key(b), name_key(c));
    }
}

/// Every record ranks equally with itself.
pub proof fn lemma_rank_le_reflexive(a: FileRecord, by: SortBy)
    ensures
        rank_le(a, a, by),
{
    if by == SortBy::Name {
        lemma_lex_le_reflexive(name_key(a));
    }
}

/// Records of equal rank may stand either way round, in either direction.
proof fn lemma_same_rank_goes_before(a: FileRecord, b: FileRecord, o: SortingOptions)
    requires
        same_rank(a, b, o.sort_by),
    ensures
        goes_before(a, b, o),
        goes_before(b, a, o),
{
}

proof fn lemma_goes_before_total(a: FileRecord, b: FileRecord, o: SortingOptions)
    ensures
        goes_before(a, b, o) || goes_before(b, a, o),
{
    lemma_rank_le_total(a, b, o.sort_by);
}

proof fn lemma_goes_before_transitive(a: FileRecord, b: FileRecord, c: FileRecord, o: SortingOptions)
    requires
        goes_before(a, b, o),
        goes_before(b, c, o),
    ensures
        goes_before(a, c, o),
{
    match o.direction {
        SortDirection::Ascending => lemma_rank_le_transitive(a, b, c, o.sort_by),
        SortDirection::Descending => lemma_rank_le_transitive(c, b, a, o.sort_by),
    }
}

proof fn lemma_same_rank_transitive(a: FileRecord, b: FileRecord, c: FileRecord, by: SortBy)
    requires
        same_rank(a, b, by),
        same_rank(b, c, by),
    ensures
        same_rank(a, c, by),
{
    lemma_rank_le_transitive(a, b, c, by);
    lemma_rank_le_transitive(c, b, a, by);
}

/// Decides `goes_before(*a, *b, o)`. By name, two ASCII names compare as
/// their lower-cased forms do (so "__init__.py" goes before "MAIN.PY"
/// ascending: '_' is 95, 'm' is 109).
pub fn record_goes_before(a: &FileRecord, b: &FileRecord, o: SortingOptions) -> (r: bool)
    ensures
        r == goes_before(*a, *b, o),
        o.sort_by is Name && is_ascii_text(a.file_name@) && is_ascii_text(b.file_name@) ==> r == (
        match o.direction {
            SortDirection::Ascending => lex_le(ascii_lowercase(a.file_name@), ascii_lowercase(b.file_name@)),
            SortDirection::Descending => lex_le(ascii_lowercase(b.file_name@), ascii_lowercase(a.file_name@)),
        }),
        o.sort_by is Size ==> r == (match o.direction {
            SortDirection::Ascending => a.size <= b.size,
            SortDirection::Descending => b.size <= a.size,
        }),
        o.sort_by is Modified ==> r == (match o.direction {
            SortDirection::Ascending => a.modified <= b.modified,
            SortDirection::Descending => b.modified <= a.modified,
        }),
{
    let (first, second) = match o.direction {
        SortDirection::Ascending => (a, b),
        SortDirection::Descending => (b, a),
    };
    match o.sort_by {
        SortBy::Name => {
            let first_key = to_lowercase(first.file_name.as_str());
            let second_key = to_lowercase(second.file_name.as_str());
            let first_chars = string_chars(first_key.as_str());
            let second_chars = string_chars(second_key.as_str());
            lex_le_chars(&first_chars, &second_chars)
        },
        SortBy::Size => first.size <= second.size,
        SortBy::Modified => first.modified <= second.modified,
    }
}

/// The filter of a sequence none of whose records rank with `x` is empty.
proof fn lemma_rank_class_none(s: Seq<FileRecord>, x: FileRecord, by: SortBy)
    requires
        forall|i: int| 0 <= i < s.len() ==> !same_rank(#[trigger] s[i], x, by),
    ensures
        rank_class(s, x, by) == Seq::<FileRecord>::empty(),
    decreases s.len(),
{
    reveal(Seq::filter);
    if s.len() > 0 {
        lemma_rank_class_none(s.drop_last(), x, by);
    }
}

/// Inserting `x` into the stable sort `s` of `inp`, after every record that
/// must stand before it and before every record it may stand before, gives
/// the stable sort of `x` followed by `inp`.
proof fn lemma_insert_stable(s: Seq<FileRecord>, inp: Seq<FileRecord>, x: FileRecord, p: int, o: SortingOptions)
    requires
        stably_sorted(s, inp, o),
        0 <= p <= s.len(),
        forall|i: int| 0 <= i < p ==> !goes_before(x, #[trigger] s[i], o),
        p < s.len() ==> goes_before(x, s[p], o),
    ensures
        stably_sorted(s.insert(p, x), seq![x] + inp, o),
{
    reveal(same_rank_classes);
    reveal(sorted_by);
    let t = s.insert(p, x);
    assert(t =~= s.take(p) + seq![x] + s.skip(p));
    assert(s =~= s.take(p) + s.skip(p));
    // sortedness
    assert forall|i: int, j: int| 0 <= i < j < t.len() implies goes_before(#[trigger] t[i], #[trigger] t[j], o) by {
        if j < p {
            assert(t[i] == s[i] && t[j] == s[j]);
        } else if j == p {
            lemma_goes_before_total(x, s[i], o);
        } else if i < p {
            assert(t[j] == s[j - 1]);
            lemma_goes_before_total(x, s[i], o);
            assert(goes_before(x, s[p], o));
            if p < j - 1 {
                assert(goes_before(s[p], s[j - 1], o));
                lemma_goes_before_transitive(x, s[p], s[j - 1], o);
            }
            lemma_goes_before_transitive(s[i], x, s[j - 1], o);
        } else if i == p {
            assert(t[j] == s[j - 1]);
            if p < j - 1 {
                assert(goes_before(s[p], s[j - 1], o));
                lemma_goes_before_transitive(x, s[p], s[j - 1], o);
            }
        } else {
            assert(t[i] == s[i - 1] && t[j] == s[j - 1]);
        }
    }
    // same records
    s.insert_ensures(p, x);
    assert(t.remove(p) =~= s);
    t.to_multiset_ensures();
    assert(t.to_multiset() =~= s.to_multiset().insert(x));
    assert((seq![x] + inp).to_multiset() =~= inp.to_multiset().insert(x)) by {
        let u = seq![x] + inp;
        u.to_multiset_ensures();
        assert(u.remove(0) =~= inp);
    }
    // each rank class keeps its order
    assert forall|z: FileRecord| #[trigger] rank_class(t, z, o.sort_by) == rank_class(seq![x] + inp, z, o.sort_by) by {
        let by = o.sort_by;
        let pred = |y: FileRecord| same_rank(y, z, by);
        inp.lemma_filter_prepend(x, pred);
        Seq::filter_distributes_over_add(s.take(p) + seq![x], s.skip(p), pred);
        Seq::filter_distributes_over_add(s.take(p), seq![x], pred);
        Seq::filter_distributes_over_add(s.take(p), s.skip(p), pred);
        assert(rank_class(s, z, by) == rank_class(inp, z, by));
        reveal(Seq::filter);
        assert(seq![x].drop_last() =~= Seq::<FileRecord>::empty());
        if same_rank(x, z, by) {
            assert forall|i: int| 0 <= i < s.take(p).len() implies !same_rank(#[trigger] s.take(p)[i], z, by) by {
                if same_rank(s.take(p)[i], z, by) {
                    assert(same_rank(z, x, by));
                    lemma_same_rank_transitive(s[i], z, x, by);
                    lemma_same_rank_goes_before(s[i], x, o);
                }
            }
            lemma_rank_class_none(s.take(p), z, by);
            assert(s.take(p).filter(pred) =~= Seq::<FileRecord>::empty());
            assert(rank_class(t, z, by) =~= rank_class(seq![x] + inp, z, by));
        } else {
            assert(rank_class(t, z, by) =~= rank_class(seq![x] + inp, z, by));
        }
    }
}

impl FileRecord {
    /// Orders `records` by `sort_by` and `direction`, stably.
    fn sort_files_or_directories(records: &mut Vec<Self>, sort_by: SortBy, direction: SortDirection)
        ensures
            stably_sorted(final(records)@, old(records)@, SortingOptions { sort_by, direction }),
    {
        let o = SortingOptions { sort_by, direction };
        let ghost orig = records@;
        let mut sorted: Vec<FileRecord> = Vec::new();
        assert(orig.skip(orig.len() as int) =~= Seq::<FileRecord>::empty());
        proof {
            reveal(Seq::filter);
            reveal(same_rank_classes);
            reveal(sorted_by);
        }
        while records.len() > 0
            invariant
                records@ == orig.take(records.len() as int),
                records.len() <= orig.len(),
                stably_sorted(sorted@, orig.skip(records.len() as int), o),
            decreases records.len(),
        {
            let ghost k = records.len() as int;
            let x = records.pop().unwrap();
            assert(x == orig[k - 1]);
            let mut p: usize = 0;
            while p < sorted.len() && !record_goes_before(&x, &sorted[p], o)
                invariant
                    p <= sorted.len(),
                    forall|i: int| 0 <= i < p ==> !goes_before(x, #[trigger] sorted@[i], o),
                decreases sorted.len() - p,
            {
                p = p + 1;
            }
            proof {
                lemma_insert_stable(sorted@, orig.skip(k), x, p as int, o);
                assert(seq![x] + orig.skip(k) =~= orig.skip(k - 1));
            }
            sorted.insert(p, x);
            assert(records@ =~= orig.take(k - 1));
        }
        assert(orig.skip(0) =~= orig);
        *records = sorted;
    }
}


/// The position of the first go-back record of `s`, if there is one.
pub open spec fn first_go_back(s: Seq<FileRecord>) -> Option<int>
    decreases s.len(),
{
    if s.len() == 0 {
        None
    } else if s[0].is_go_back_record {
        Some(0)
    } else {
        match first_go_back(s.drop_first()) {
            Some(i) => Some(i + 1),
            None => None,
        }
    }
}

/// The first go-back record of `s`, alone, or nothing.
pub open spec fn go_back_head(s: Seq<FileRecord>) -> Seq<FileRecord> {
    match first_go_back(s) {
        Some(i) => seq![s[i]],
        None => Seq::empty(),
    }
}

/// `s` without its first go-back record.
pub open spec fn without_go_back(s: Seq<FileRecord>) -> Seq<FileRecord> {
    match first_go_back(s) {
        Some(i) => s.remove(i),
        None => s,
    }
}

/// The folders of `s`, in order.
#[verifier::opaque]
pub open spec fn folder_records(s: Seq<FileRecord>) -> Seq<FileRecord> {
    s.filter(|r: FileRecord| !r.is_file)
}

/// The files of `s`, in order.
#[verifier::opaque]
pub open spec fn file_records(s: Seq<FileRecord>) -> Seq<FileRecord> {
    s.filter(|r: FileRecord| r.is_file)
}

/// `out` is the listing `inp` as `sort_records` lays it out: the first
/// go-back record of `inp` (if any), then the other folders, then the files;
/// folders and files are each stably sorted by `o`, starting from their
/// order in `inp` reversed (they are collected from the end of the listing).
#[verifier::opaque]
pub open spec fn listing_order(out: Seq<FileRecord>, inp: Seq<FileRecord>, o: SortingOptions) -> bool {
    let head = go_back_head(inp);
    let rest = without_go_back(inp);
    let folders = folder_records(rest).reverse();
    let files = file_records(rest).reverse();
    let h = head.len() as int;
    let f = folders.len() as int;
    &&& out.len() == h + f + files.len()
    &&& out.take(h) == head
    &&& stably_sorted(out.subrange(h, h + f), folders, o)
    &&& stably_sorted(out.skip(h + f), files, o)
}

/// The first go-back record is the first record that is one.
pub proof fn lemma_first_go_back(s: Seq<FileRecord>, i: int)
    requires
        0 <= i <= s.len(),
        forall|j: int| 0 <= j < i ==> !(#[trigger] s[j]).is_go_back_record,
    ensures
        i < s.len() && s[i].is_go_back_record ==> first_go_back(s) == Some(i),
        i == s.len() ==> first_go_back(s) == None::<int>,
    decreases i,
{
    if i > 0 {
        lemma_first_go_back(s.drop_first(), i - 1);
    }
}

/// Finds the first go-back record of `records`.
fn go_back_position(records: &Vec<FileRecord>) -> (r: Option<usize>)
    ensures
        match r {
            Some(i) => first_go_back(records@) == Some(i as int),
            None => first_go_back(records@) == None::<int>,
        },
{
    let mut i: usize = 0;
    while i < records.len()
        invariant
            i <= records.len(),
            forall|j: int| 0 <= j < i ==> !(#[trigger] records@[j]).is_go_back_record,
        decreases records.len() - i,
    {
        if records[i].is_go_back_record {
            proof {
                lemma_first_go_back(records@, i as int);
            }
            return Some(i);
        }
        i = i + 1;
    }
    proof {
        lemma_first_go_back(records@, i as int);
    }
    None
}

proof fn lemma_reverse_prepend(x: FileRecord, s: Seq<FileRecord>)
    ensures
        (seq![x] + s).reverse() == s.reverse().push(x),
{
    assert((seq![x] + s).reverse() =~= s.reverse().push(x));
}

/// A sequence holds the records of its folders and of its files.
proof fn lemma_partition_multiset(s: Seq<FileRecord>)
    ensures
        folder_records(s).to_multiset().add(file_records(s).to_multiset()) == s.to_multiset(),
    decreases s.len(),
{
    reveal(folder_records);
    reveal(file_records);
    reveal(Seq::filter);
    if s.len() > 0 {
        let t = s.drop_last();
        lemma_partition_multiset(t);
        s.to_multiset_ensures();
        t.to_multiset_ensures();
        assert(t.push(s.last()) =~= s);
        folder_records(t).to_multiset_ensures();
        file_records(t).to_multiset_ensures();
        assert(folder_records(s).to_multiset().add(file_records(s).to_multiset()) =~= s.to_multiset());
    }
}

/// Orders a listing: the go-back record first, then the folders, then the
/// files, the folders and the files each by `sort_by` in `direction`.
pub fn sort_records(records: &mut Vec<FileRecord>, sort_by: SortBy, direction: SortDirection)
    ensures
        listing_order(final(records)@, old(records)@, SortingOptions { sort_by, direction }),
        final(records)@.to_multiset() == old(records)@.to_multiset(),
{
    reveal(folder_records);
    reveal(file_records);
    let o = SortingOptions { sort_by, direction };
    let ghost inp = records@;
    let go_back_index = go_back_position(records);
    proof {
        lemma_first_go_back_found(inp);
    }
    let go_back_record = match go_back_index {
        Some(idx) => Some(records.remove(idx)),
        None => None,
    };
    let ghost rest = records@;

    let mut files: Vec<FileRecord> = Vec::new();
    let mut folders: Vec<FileRecord> = Vec::new();
    proof {
        reveal(Seq::filter);
        reveal(folder_records);
        reveal(file_records);
        assert(rest.skip(rest.len() as int) =~= Seq::<FileRecord>::empty());
    }
    loop
        invariant
            records.len() <= rest.len(),
            records@ == rest.take(records.len() as int),
            folders@ == folder_records(rest.skip(records.len() as int)).reverse(),
            files@ == file_records(rest.skip(records.len() as int)).reverse(),
        ensures
            records.len() == 0,
            folders@ == folder_records(rest).reverse(),
            files@ == file_records(rest).reverse(),
        decreases records.len(),
    {
        let ghost k = records.len() as int;
        let option = records.pop();
        match option {
            Some(record) => {
                proof {
                    reveal(folder_records);
                    reveal(file_records);
                    assert(record == rest[k - 1]);
                    assert(rest.skip(k - 1) =~= seq![record] + rest.skip(k));
                    rest.skip(k).lemma_filter_prepend(record, |r: FileRecord| !r.is_file);
                    rest.skip(k).lemma_filter_prepend(record, |r: FileRecord| r.is_file);
                    lemma_reverse_prepend(record, folder_records(rest.skip(k)));
                    lemma_reverse_prepend(record, file_records(rest.skip(k)));
                    assert(records@ =~= rest.take(k - 1));
                }
                if record.is_file {
                    files.push(record);
                    assert(folders@ =~= folder_records(rest.skip(k - 1)).reverse());
                } else {
                    folders.push(record);
                    assert(files@ =~= file_records(rest.skip(k - 1)).reverse());
                }
            },
            None => {
                assert(rest.skip(0) =~= rest);
                break;
            },
        }
    }

    FileRecord::sort_files_or_directories(&mut files, sort_by, direction);
    FileRecord::sort_files_or_directories(&mut folders, sort_by, direction);

    if let Some(record) = go_back_record {
        records.push(record);
    }
    let ghost head = records@;
    let ghost sorted_folders = folders@;
    let ghost sorted_files = files@;
    records.append(&mut folders);
    records.append(&mut files);
    proof {
        lemma_listing_assembled(inp, rest, head, sorted_folders, sorted_files, records@, o);
    }
}

/// The position `first_go_back` gives holds a go-back record.
pub proof fn lemma_first_go_back_found(s: Seq<FileRecord>)
    ensures
        first_go_back(s) matches Some(i) ==> 0 <= i < s.len() && s[i].is_go_back_record,
    decreases s.len(),
{
    if s.len() > 0 {
        lemma_first_go_back_found(s.drop_first());
    }
}

/// Assembling the go-back head, the sorted folders and the sorted files of
/// a listing gives its layout, with the same records.
proof fn lemma_listing_assembled(
    inp: Seq<FileRecord>,
    rest: Seq<FileRecord>,
    head: Seq<FileRecord>,
    sorted_folders: Seq<FileRecord>,
    sorted_files: Seq<FileRecord>,
    out: Seq<FileRecord>,
    o: SortingOptions,
)
    requires
        rest == without_go_back(inp),
        head == go_back_head(inp),
        stably_sorted(sorted_folders, folder_records(rest).reverse(), o),
        stably_sorted(sorted_files, file_records(rest).reverse(), o),
        out == head + sorted_folders + sorted_files,
    ensures
        listing_order(out, inp, o),
        out.to_multiset() == inp.to_multiset(),
{
    reveal(listing_order);
    let h = head.len() as int;
    let f = sorted_folders.len() as int;
    assert(out.take(h) =~= head);
    assert(out.subrange(h, h + f) =~= sorted_folders);
    assert(out.skip(h + f) =~= sorted_files);
    sorted_folders.to_multiset_ensures();
    sorted_files.to_multiset_ensures();
    folder_records(rest).reverse().to_multiset_ensures();
    file_records(rest).reverse().to_multiset_ensures();
    lemma_listing_same_records(inp, rest, head, sorted_folders, sorted_files, out, o);
}

proof fn lemma_listing_same_records(
    inp: Seq<FileRecord>,
    rest: Seq<FileRecord>,
    head: Seq<FileRecord>,
    sorted_folders: Seq<FileRecord>,
    sorted_files: Seq<FileRecord>,
    out: Seq<FileRecord>,
    o: SortingOptions,
)
    requires
        rest == without_go_back(inp),
        head == go_back_head(inp),
        sorted_folders.to_multiset() == folder_records(rest).reverse().to_multiset(),
        sorted_files.to_multiset() == file_records(rest).reverse().to_multiset(),
        out == head + sorted_folders + sorted_files,
    ensures
        out.to_multiset() == inp.to_multiset(),
{
    lemma_first_go_back_found(inp);
    folder_records(rest).lemma_reverse_to_multiset();
    file_records(rest).lemma_reverse_to_multiset();
    lemma_partition_multiset(rest);
    vstd::seq_lib::lemma_multiset_commutative(head + sorted_folders, sorted_files);
    vstd::seq_lib::lemma_multiset_commutative(head, sorted_folders);
    vstd::seq_lib::lemma_multiset_commutative(head, rest);
    assert(rest.to_multiset() =~= sorted_folders.to_multiset().add(sorted_files.to_multiset()));
    match first_go_back(inp) {
        Some(i) => {
            inp.to_multiset_ensures();
            assert(head.to_multiset() =~= Multiset::empty().insert(inp[i])) by {
                assert(head =~= Seq::<FileRecord>::empty().push(inp[i]));
                Seq::<FileRecord>::empty().to_multiset_ensures();
            }
            assert(inp.to_multiset() =~= rest.to_multiset().insert(inp[i]));
            assert(out.to_multiset() =~= inp.to_multiset());
        },
        None => {
            assert(head =~= Seq::<FileRecord>::empty());
            assert(head.to_multiset() =~= Multiset::empty()) by {
                Seq::<FileRecord>::empty().to_multiset_ensures();
            }
            assert(out.to_multiset() =~= inp.to_multiset());
        },
    }
}


/// Whether a directory entry with this name is hidden from listings (its
/// name starts with a dot).
pub fn is_hidden_name(name: &str) -> (hidden: bool)
    ensures
        hidden == (name@.len() > 0 && name@[0] == '.'),
{
    name.unicode_len() > 0 && name.get_char(0) == '.'
}

/// The positions, in order, of the entries of a directory read whose names
/// are not hidden: the entries a listing shows.
pub open spec fn visible_positions(names: Seq<Seq<char>>) -> Seq<int>
    decreases names.len(),
{
    if names.len() == 0 {
        Seq::empty()
    } else {
        let init = visible_positions(names.drop_last());
        let last = names.last();
        if last.len() > 0 && last[0] == '.' {
            init
        } else {
            init.push(names.len() - 1)
        }
    }
}

/// The positions `visible_positions` lists are, in increasing order,
/// exactly those whose name is empty or does not start with a dot.
pub proof fn lemma_visible_positions(names: Seq<Seq<char>>)
    ensures
        forall|k: int|
            0 <= k < visible_positions(names).len() ==> 0 <= #[trigger] visible_positions(names)[k] < names.len(),
        forall|k: int|
            0 <= k < visible_positions(names).len() ==> !(names[#[trigger] visible_positions(names)[k]].len() > 0
                && names[visible_positions(names)[k]][0] == '.'),
        forall|k: int, l: int|
            0 <= k < l < visible_positions(names).len() ==> #[trigger] visible_positions(names)[k]
                < #[trigger] visible_positions(names)[l],
        forall|i: int|
            0 <= i < names.len() && !(#[trigger] names[i].len() > 0 && names[i][0] == '.') ==> exists|k: int|
                0 <= k < visible_positions(names).len() && visible_positions(names)[k] == i,
    decreases names.len(),
{
    if names.len() > 0 {
        let init_names = names.drop_last();
        lemma_visible_positions(init_names);
        let init = visible_positions(init_names);
        let vp = visible_positions(names);
        let n = names.len() - 1;
        assert forall|i: int| 0 <= i < n implies #[trigger] names[i] == init_names[i] by {}
        let last = names.last();
        if !(last.len() > 0 && last[0] == '.') {
            assert(vp == init.push(n));
            assert forall|i: int|
                0 <= i < names.len() && !(#[trigger] names[i].len() > 0 && names[i][0] == '.') implies exists|k: int|
                0 <= k < vp.len() && vp[k] == i by {
                if i == n {
                    assert(vp[init.len() as int] == n);
                } else {
                    assert(init_names[i] == names[i]);
                    let k = choose|k: int| 0 <= k < init.len() && init[k] == i;
                    assert(vp[k] == init[k]);
                }
            }
            assert forall|k: int| 0 <= k < vp.len() implies !(names[#[trigger] vp[k]].len() > 0 && names[vp[k]][0]
                == '.') by {
                if k < init.len() {
                    assert(vp[k] == init[k]);
                    assert(names[init[k]] == init_names[init[k]]);
                }
            }
        } else {
            assert(vp == init);
            assert forall|i: int|
                0 <= i < names.len() && !(#[trigger] names[i].len() > 0 && names[i][0] == '.') implies exists|k: int|
                0 <= k < vp.len() && vp[k] == i by {
                assert(i != n);
                assert(init_names[i] == names[i]);
            }
            assert forall|k: int| 0 <= k < vp.len() implies !(names[#[trigger] vp[k]].len() > 0 && names[vp[k]][0]
                == '.') by {
                assert(names[init[k]] == init_names[init[k]]);
            }
        }
    }
}

/// The integers that `v` holds.
pub open spec fn positions_of(v: Seq<usize>) -> Seq<int> {
    v.map_values(|p: usize| p as int)
}

/// Of the names of the entries a directory read gave, the positions of
/// those a listing shows, in order (hidden names are left out).
pub fn visible_entry_positions(names: &Vec<String>) -> (pos: Vec<usize>)
    ensures
        positions_of(pos@) == visible_positions(views_of(names@)),
        forall|k: int| 0 <= k < pos.len() ==> #[trigger] pos[k] < names.len(),
        forall|k: int|
            0 <= k < pos.len() ==> !(names[#[trigger] pos[k] as int]@.len() > 0 && names[pos[k] as int]@[0]
                == '.'),
        forall|k: int, l: int| 0 <= k < l < pos.len() ==> #[trigger] pos[k] < #[trigger] pos[l],
        forall|i: int|
            0 <= i < names.len() && !(#[trigger] names[i]@.len() > 0 && names[i]@[0] == '.') ==> exists|k: int|
                0 <= k < pos.len() && pos[k] == i,
{
    let mut pos: Vec<usize> = Vec::new();
    let mut i: usize = 0;
    assert(views_of(names@.take(0)) =~= Seq::<Seq<char>>::empty());
    assert(positions_of(pos@) =~= Seq::<int>::empty());
    while i < names.len()
        invariant
            i <= names.len(),
            positions_of(pos@) == visible_positions(views_of(names@.take(i as int))),
        decreases names.len() - i,
    {
        let ghost before = views_of(names@.take(i as int));
        let ghost after = views_of(names@.take(i + 1));
        assert(after.drop_last() =~= before);
        assert(after.last() == names@[i as int]@);
        if !is_hidden_name(names[i].as_str()) {
            let ghost old_pos = pos@;
            pos.push(i);
            assert(positions_of(pos@) =~= positions_of(old_pos).push(i as int));
        }
        i = i + 1;
    }
    assert(names@.take(names.len() as int) =~= names@);
    proof {
        let vs = views_of(names@);
        lemma_visible_positions(vs);
        let vp = visible_positions(vs);
        assert forall|k: int| 0 <= k < pos.len() implies #[trigger] pos@[k] as int == vp[k] by {
            assert(positions_of(pos@)[k] == pos@[k] as int);
        }
        assert forall|i: int| 0 <= i < names.len() implies #[trigger] vs[i] == names@[i]@ by {}
        assert forall|i: int|
            0 <= i < names.len() && !(#[trigger] names[i]@.len() > 0 && names[i]@[0] == '.') implies exists|k: int|
            0 <= k < pos.len() && pos[k] == i by {
            assert(vs[i] == names@[i]@);
            let k = choose|k: int| 0 <= k < vp.len() && vp[k] == i;
            assert(pos@[k] as int == vp[k]);
        }
        assert forall|k: int| 0 <= k < pos.len() implies !(names[#[trigger] pos[k] as int]@.len() > 0
            && names[pos[k] as int]@[0] == '.') by {
            assert(pos@[k] as int == vp[k]);
            assert(vs[vp[k]] == names@[vp[k]]@);
        }
        assert forall|k: int, l: int| 0 <= k < l < pos.len() implies #[trigger] pos[k] < #[trigger] pos[l] by {
            assert(pos@[k] as int == vp[k]);
            assert(pos@[l] as int == vp[l]);
        }
    }
    pos
}

impl FileRecord {
    /// The record of a listed directory entry, with no pointer over it.
    pub fn from_entry(file_name: String, is_file: bool, size: u64, modified: i64) -> (r: FileRecord)
        ensures
            r.file_name == file_name,
            r.is_file == is_file,
            r.size == size,
            r.modified == modified,
            !r.is_go_back_record,
            r.hover@ == seq![false, false, false],
    {
        FileRecord { file_name, is_file, size, modified, is_go_back_record: false, hover: [false, false, false] }
    }
}


/// A laid-out listing holds exactly the records it was given.
pub proof fn lemma_listing_order_same_records(out: Seq<FileRecord>, inp: Seq<FileRecord>, o: SortingOptions)
    requires
        listing_order(out, inp, o),
    ensures
        out.to_multiset() == inp.to_multiset(),
{
    reveal(listing_order);
    let head = go_back_head(inp);
    let rest = without_go_back(inp);
    let h = head.len() as int;
    let f = folder_records(rest).reverse().len() as int;
    assert(out =~= out.take(h) + out.subrange(h, h + f) + out.skip(h + f));
    lemma_listing_same_records(inp, rest, head, out.subrange(h, h + f), out.skip(h + f), out, o);
}

} // verus!
