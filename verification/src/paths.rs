//! The components of a pane's path, as `std::path` reads a Unix path, and
//! the path that each one leads to: one button per component above each
//! pane.
use vstd::prelude::*;
use crate::text::{joined_path, join_path};

verus! {

/// The pieces of `path` between its separators, in order; there is always
/// at least one (possibly empty) piece.
pub open spec fn split_segments(path: Seq<char>) -> Seq<Seq<char>>
    decreases path.len(),
{
    if path.len() == 0 {
        seq![Seq::empty()]
    } else {
        let segs = split_segments(path.drop_last());
        if path.last() == '/' {
            segs.push(Seq::empty())
        } else {
            segs.update(segs.len() - 1, segs.last().push(path.last()))
        }
    }
}

/// The segments that are components: an empty segment never is (repeated
/// or trailing separators), and "." only as the first segment.
pub open spec fn kept_segments(segs: Seq<Seq<char>>) -> Seq<Seq<char>>
    decreases segs.len(),
{
    if segs.len() == 0 {
        Seq::empty()
    } else {
        let init = kept_segments(segs.drop_last());
        let last = segs.last();
        if last.len() > 0 && (last != seq!['.'] || segs.len() == 1) {
            init.push(last)
        } else {
            init
        }
    }
}

/// The components of `path` as `Path::iter` yields them on Unix: "/" for a
/// leading separator, then each kept segment.
pub open spec fn path_components(path: Seq<char>) -> Seq<Seq<char>> {
    let root: Seq<Seq<char>> = if path.len() > 0 && path[0] == '/' {
        seq![seq!['/']]
    } else {
        Seq::empty()
    };
    root + kept_segments(split_segments(path))
}

/// The path made by pushing the first `n` of `comps` onto an empty path.
pub open spec fn prefix_path(comps: Seq<Seq<char>>, n: nat) -> Seq<char>
    decreases n,
{
    if n == 0 {
        Seq::empty()
    } else {
        joined_path(prefix_path(comps, (n - 1) as nat), comps[n - 1])
    }
}

/// The characters of each string of `v`.
pub open spec fn views_of(v: Seq<String>) -> Seq<Seq<char>> {
    v.map_values(|s: String| s@)
}

proof fn lemma_views_push(v: Seq<String>, x: String)
    ensures
        views_of(v.push(x)) == views_of(v).push(x@),
{
    assert(views_of(v.push(x)) =~= views_of(v).push(x@));
}

proof fn lemma_split_segments_nonempty(path: Seq<char>)
    ensures
        split_segments(path).len() >= 1,
    decreases path.len(),
{
    if path.len() > 0 {
        lemma_split_segments_nonempty(path.drop_last());
    }
}

/// One step of `split_segments`: a separator opens a new segment, any
/// other character extends the last one.
proof fn lemma_split_step(path: Seq<char>, i: int)
    requires
        0 <= i < path.len(),
    ensures
        path[i] == '/' ==> split_segments(path.take(i + 1)) == split_segments(path.take(i)).push(
            Seq::empty(),
        ),
        path[i] != '/' ==> split_segments(path.take(i + 1)).drop_last() == split_segments(
            path.take(i),
        ).drop_last(),
        path[i] != '/' ==> split_segments(path.take(i + 1)).last() == split_segments(path.take(i)).last().push(
            path[i],
        ),
        path[i] != '/' ==> split_segments(path.take(i + 1)).len() == split_segments(path.take(i)).len(),
{
    let p = path.take(i + 1);
    assert(p.drop_last() =~= path.take(i));
    assert(p.last() == path[i]);
    lemma_split_segments_nonempty(path.take(i));
    let segs = split_segments(path.take(i));
    if path[i] != '/' {
        let next = segs.update(segs.len() - 1, segs.last().push(path[i]));
        assert(next.drop_last() =~= segs.drop_last());
    }
}

/// Adding a segment to the list adds it to the kept ones exactly when it
/// is kept.
proof fn lemma_kept_push(segs: Seq<Seq<char>>, s: Seq<char>)
    ensures
        kept_segments(segs.push(s)) == if s.len() > 0 && (s != seq!['.'] || segs.len() == 0) {
            kept_segments(segs).push(s)
        } else {
            kept_segments(segs)
        },
{
    assert(segs.push(s).drop_last() =~= segs);
}

/// Whether the segment `path[start..end]`, standing first among the
/// segments when `first`, is a component.
fn segment_kept(path: &str, start: usize, end: usize, first: bool) -> (k: bool)
    requires
        start <= end <= path@.len(),
    ensures
        k == (path@.subrange(start as int, end as int).len() > 0 && (path@.subrange(start as int, end as int)
            != seq!['.'] || first)),
{
    if start == end {
        false
    } else if end - start == 1 && path.get_char(start) == '.' {
        assert(path@.subrange(start as int, end as int) =~= seq!['.']);
        first
    } else {
        proof {
            if end - start == 1 {
                assert(path@.subrange(start as int, end as int)[0] == path@[start as int]);
            }
        }
        true
    }
}

/// The components of `path`, as `path_components` says.
pub fn path_components_of(path: &str) -> (comps: Vec<String>)
    ensures
        comps.len() == path_components(path@).len(),
        forall|k: int| 0 <= k < comps.len() ==> #[trigger] comps[k]@ == path_components(path@)[k],
{
    let n = path.unicode_len();
    let mut comps: Vec<String> = Vec::new();
    let ghost lead: Seq<Seq<char>> = if path@.len() > 0 && path@[0] == '/' {
        seq![seq!['/']]
    } else {
        Seq::empty()
    };
    assert(views_of(comps@) =~= Seq::<Seq<char>>::empty());
    if n > 0 && path.get_char(0) == '/' {
        let root = "/".to_owned();
        proof {
            reveal_strlit("/");
            assert(root@ =~= seq!['/']);
            lemma_views_push(comps@, root);
        }
        comps.push(root);
    }
    assert(views_of(comps@) =~= lead);
    let mut start: usize = 0;
    let mut i: usize = 0;
    let mut first = true;
    assert(path@.take(0) =~= Seq::<char>::empty());
    while i < n
        invariant
            n == path@.len(),
            start <= i <= n,
            split_segments(path@.take(i as int)).len() >= 1,
            split_segments(path@.take(i as int)).last() == path@.subrange(start as int, i as int),
            first == (split_segments(path@.take(i as int)).len() == 1),
            views_of(comps@) == lead + kept_segments(split_segments(path@.take(i as int)).drop_last()),
        decreases n - i,
    {
        let ghost segs = split_segments(path@.take(i as int));
        proof {
            lemma_split_step(path@, i as int);
        }
        if path.get_char(i) == '/' {
            let keep = segment_kept(path, start, i, first);
            proof {
                assert(segs.push(Seq::empty()).drop_last() =~= segs);
                assert(segs =~= segs.drop_last().push(segs.last()));
                lemma_kept_push(segs.drop_last(), segs.last());
            }
            if keep {
                let seg = path.substring_char(start, i).to_owned();
                proof {
                    lemma_views_push(comps@, seg);
                    assert((lead + kept_segments(segs.drop_last())).push(seg@) =~= lead + kept_segments(
                        segs.drop_last(),
                    ).push(seg@));
                }
                comps.push(seg);
            }
            assert(views_of(comps@) =~= lead + kept_segments(segs));
            start = i + 1;
            first = false;
        } else {
            assert(path@.subrange(start as int, i + 1) =~= path@.subrange(start as int, i as int).push(
                path@[i as int],
            ));
        }
        i = i + 1;
    }
    assert(path@.take(n as int) =~= path@);
    let ghost segs = split_segments(path@);
    let keep = segment_kept(path, start, n, first);
    proof {
        assert(segs =~= segs.drop_last().push(segs.last()));
        lemma_kept_push(segs.drop_last(), segs.last());
    }
    if keep {
        let seg = path.substring_char(start, n).to_owned();
        proof {
            lemma_views_push(comps@, seg);
            assert((lead + kept_segments(segs.drop_last())).push(seg@) =~= lead + kept_segments(
                segs.drop_last(),
            ).push(seg@));
        }
        comps.push(seg);
    }
    assert(views_of(comps@) =~= path_components(path@));
    assert forall|k: int| 0 <= k < comps.len() implies #[trigger] comps[k]@ == path_components(path@)[k] by {
        assert(views_of(comps@)[k] == comps@[k]@);
    }
    comps
}

/// One button of a pane's path bar: the component it shows and the path
/// it opens.
#[derive(Debug)]
pub struct PathCrumb {
    pub label: String,
    pub path_to_open: String,
}

/// The buttons above a pane listing `path`: one per component, each
/// opening the path made of the components up to and including its own.
pub fn path_crumbs(path: &str) -> (crumbs: Vec<PathCrumb>)
    ensures
        crumbs.len() == path_components(path@).len(),
        forall|k: int|
            0 <= k < crumbs.len() ==> (#[trigger] crumbs[k]).label@ == path_components(path@)[k]
                && crumbs[k].path_to_open@ == prefix_path(path_components(path@), (k + 1) as nat),
{
    let comps = path_components_of(path);
    let ghost cs = path_components(path@);
    let mut crumbs: Vec<PathCrumb> = Vec::new();
    let mut prefix = String::new();
    let mut i: usize = 0;
    while i < comps.len()
        invariant
            comps.len() == cs.len(),
            forall|k: int| 0 <= k < comps.len() ==> #[trigger] comps[k]@ == cs[k],
            cs == path_components(path@),
            i <= comps.len(),
            crumbs.len() == i,
            prefix@ == prefix_path(cs, i as nat),
            forall|k: int|
                0 <= k < i ==> (#[trigger] crumbs[k]).label@ == cs[k] && crumbs[k].path_to_open@ == prefix_path(
                    cs,
                    (k + 1) as nat,
                ),
        decreases comps.len() - i,
    {
        let next = join_path(prefix.as_str(), comps[i].as_str());
        assert(next@ == prefix_path(cs, (i + 1) as nat));
        crumbs.push(PathCrumb { label: comps[i].clone(), path_to_open: next.clone() });
        prefix = next;
        i = i + 1;
    }
    crumbs
}

} // verus!
