use vstd::prelude::*;

use crate::listing::{
    dirs_first, entry_le, is_sorted, is_volume_root, views,
};
use crate::path::{EntryPath, PathView};
use crate::vfs::{entry_is_dir, EntryView, FileInfo, VfsFile};

verus! {

/// The entry with its mark set to `b`.
pub open spec fn with_flag(e: EntryView, b: bool) -> EntryView {
    EntryView { selected: b, ..e }
}

/// A plain click on `i`: every other mark cleared, the mark of `i` flipped.
pub open spec fn plain_click(files: Seq<EntryView>, i: int) -> Seq<EntryView> {
    Seq::new(
        files.len(),
        |j: int| with_flag(files[j], if j == i { !files[i].selected } else { false }),
    )
}

/// A toggle click on `i`: the mark of `i` flipped, the others kept.
pub open spec fn toggle_click(files: Seq<EntryView>, i: int) -> Seq<EntryView> {
    files.update(i, with_flag(files[i], !files[i].selected))
}

/// A range click: every entry from `lo` to `hi`, both included, marked; the
/// others kept.
pub open spec fn mark_span(files: Seq<EntryView>, lo: int, hi: int) -> Seq<EntryView> {
    Seq::new(files.len(), |j: int| if lo <= j <= hi { with_flag(files[j], true) } else { files[j] })
}

/// Two listings that differ in marks alone.
pub open spec fn same_entries(a: Seq<EntryView>, b: Seq<EntryView>) -> bool {
    &&& a.len() == b.len()
    &&& forall|i: int| 0 <= i < a.len() ==> (#[trigger] a[i]).path == b[i].path && a[i].kind == b[i].kind
}

/// The paths of the marked entries, in listing order.
pub open spec fn marked_paths(files: Seq<EntryView>) -> Seq<PathView>
    decreases files.len(),
{
    if files.len() == 0 {
        seq![]
    } else if files.last().selected {
        marked_paths(files.drop_last()).push(files.last().path)
    } else {
        marked_paths(files.drop_last())
    }
}

/// Changing marks keeps a listing's order.
pub proof fn lemma_marks_keep_order(a: Seq<EntryView>, b: Seq<EntryView>, roots: int)
    requires
        same_entries(a, b),
        0 <= roots <= a.len(),
    ensures
        is_sorted(a.skip(roots)) ==> is_sorted(b.skip(roots)),
        dirs_first(a) ==> dirs_first(b),
        forall|i: int| 0 <= i < roots ==> (entry_is_dir(#[trigger] a[i]) && is_volume_root(a[i])) == (
        entry_is_dir(b[i]) && is_volume_root(b[i])),
{
    if is_sorted(a.skip(roots)) {
        assert forall|i: int, j: int| 0 <= i < j < b.skip(roots).len() implies entry_le(
            #[trigger] b.skip(roots)[i],
            #[trigger] b.skip(roots)[j],
        ) by {
            assert(a[roots + i].path == b[roots + i].path);
            assert(a[roots + j].path == b[roots + j].path);
            assert(entry_le(a.skip(roots)[i], a.skip(roots)[j]));
        }
    }
    if dirs_first(a) {
        assert forall|i: int, j: int|
            0 <= i < j < b.len() && entry_is_dir(#[trigger] b[j]) implies entry_is_dir(#[trigger] b[i]) by {
            assert(a[i].kind == b[i].kind);
            assert(a[j].kind == b[j].kind);
        }
    }
    assert forall|i: int| 0 <= i < roots implies (entry_is_dir(#[trigger] a[i]) && is_volume_root(a[i]))
        == (entry_is_dir(b[i]) && is_volume_root(b[i])) by {
        assert(a[i].path == b[i].path);
    }
}

/// Sets the mark of entry `j`.
pub fn set_mark(v: &mut Vec<FileInfo>, j: usize, b: bool)
    requires
        j < old(v)@.len(),
    ensures
        final(v)@.len() == old(v)@.len(),
        views(final(v)@) == views(old(v)@).update(j as int, with_flag(views(old(v)@)[j as int], b)),
{
    let mut e = v[j].duplicate();
    e.set_selected(b);
    v.set(j, e);
    proof {
        assert(views(final(v)@) =~= views(old(v)@).update(j as int, with_flag(views(old(v)@)[j as int], b)));
    }
}

/// A plain click on entry `idx`; whether `idx` is marked afterwards.
pub fn click_select(v: &mut Vec<FileInfo>, idx: usize) -> (r: bool)
    requires
        idx < old(v)@.len(),
    ensures
        final(v)@.len() == old(v)@.len(),
        views(final(v)@) == plain_click(views(old(v)@), idx as int),
        r == !views(old(v)@)[idx as int].selected,
{
    let ghost orig = views(v@);
    let was = v[idx].selected();
    let mut j: usize = 0;
    while j < v.len()
        invariant
            j <= v@.len(),
            v@.len() == orig.len(),
            idx < orig.len(),
            was == orig[idx as int].selected,
            forall|k: int| 0 <= k < j ==> #[trigger] views(v@)[k] == with_flag(orig[k], false),
            forall|k: int| j <= k < orig.len() ==> #[trigger] views(v@)[k] == orig[k],
        decreases orig.len() - j,
    {
        set_mark(v, j, false);
        j = j + 1;
    }
    set_mark(v, idx, !was);
    proof {
        assert(views(v@) =~= plain_click(orig, idx as int));
    }
    !was
}

/// A toggle click on entry `idx`; whether `idx` is marked afterwards.
pub fn toggle_select(v: &mut Vec<FileInfo>, idx: usize) -> (r: bool)
    requires
        idx < old(v)@.len(),
    ensures
        final(v)@.len() == old(v)@.len(),
        views(final(v)@) == toggle_click(views(old(v)@), idx as int),
        r == !views(old(v)@)[idx as int].selected,
{
    let was = v[idx].selected();
    set_mark(v, idx, !was);
    !was
}

/// Marks every entry from `lo` to `hi`, both included.
pub fn span_select(v: &mut Vec<FileInfo>, lo: usize, hi: usize)
    requires
        lo <= hi < old(v)@.len(),
    ensures
        final(v)@.len() == old(v)@.len(),
        views(final(v)@) == mark_span(views(old(v)@), lo as int, hi as int),
{
    let ghost orig = views(v@);
    let n = v.len();
    let mut j: usize = lo;
    while j <= hi
        invariant
            lo <= j <= hi + 1,
            hi < orig.len(),
            n == orig.len(),
            v@.len() == orig.len(),
            forall|k: int| 0 <= k < orig.len() ==> #[trigger] views(v@)[k] == if lo <= k < j {
                with_flag(orig[k], true)
            } else {
                orig[k]
            },
        decreases hi + 1 - j,
    {
        set_mark(v, j, true);
        j = j + 1;
    }
    proof {
        assert(views(v@) =~= mark_span(orig, lo as int, hi as int));
    }
}

/// The paths of the marked entries, in listing order.
pub fn collect_marked(v: &Vec<FileInfo>) -> (r: Vec<EntryPath>)
    ensures
        r@.map_values(|p: EntryPath| p@) == marked_paths(views(v@)),
{
    let mut r: Vec<EntryPath> = Vec::new();
    let mut i: usize = 0;
    while i < v.len()
        invariant
            i <= v@.len(),
            r@.map_values(|p: EntryPath| p@) == marked_paths(views(v@).take(i as int)),
        decreases v@.len() - i,
    {
        proof {
            assert(views(v@).take(i + 1).drop_last() =~= views(v@).take(i as int));
        }
        if v[i].selected() {
            let p = v[i].path().duplicate();
            let ghost before = r@.map_values(|p: EntryPath| p@);
            r.push(p);
            proof {
                assert(r@.map_values(|p: EntryPath| p@) =~= before.push(p@));
            }
        }
        i = i + 1;
    }
    proof {
        assert(views(v@).take(v@.len() as int) =~= views(v@));
    }
    r
}

} // verus!
