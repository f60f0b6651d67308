use vstd::multiset::Multiset;
use vstd::prelude::*;
use vstd::seq_lib::group_to_multiset_ensures;

use crate::path::spec_text;
use crate::vfs::{entry_is_dir, entry_name, EntryView, FileInfo, FileKind, Filter, VfsFile};

verus! {

/// `a` comes no later than `b` in character order, compared position by
/// position, a prefix first.
pub open spec fn lex_le(a: Seq<char>, b: Seq<char>) -> bool
    decreases a.len(),
{
    if a.len() == 0 {
        true
    } else if b.len() == 0 {
        false
    } else if a[0] != b[0] {
        a[0] < b[0]
    } else {
        lex_le(a.drop_first(), b.drop_first())
    }
}

pub proof fn lemma_lex_total(a: Seq<char>, b: Seq<char>)
    ensures
        lex_le(a, b) || lex_le(b, a),
    decreases a.len(),
{
    if a.len() > 0 && b.len() > 0 && a[0] == b[0] {
        lemma_lex_total(a.drop_first(), b.drop_first());
    }
}

pub proof fn lemma_lex_trans(a: Seq<char>, b: Seq<char>, c: Seq<char>)
    requires
        lex_le(a, b),
        lex_le(b, c),
    ensures
        lex_le(a, c),
    decreases a.len(),
{
    if a.len() > 0 && b.len() > 0 && c.len() > 0 && a[0] == b[0] && b[0] == c[0] {
        lemma_lex_trans(a.drop_first(), b.drop_first(), c.drop_first());
    }
}

/// The listing order: directories first, then by name.
pub open spec fn entry_le(a: EntryView, b: EntryView) -> bool {
    if entry_is_dir(a) != entry_is_dir(b) {
        entry_is_dir(a)
    } else {
        lex_le(entry_name(a), entry_name(b))
    }
}

/// Every entry comes no later than the ones after it.
pub open spec fn is_sorted(s: Seq<EntryView>) -> bool {
    forall|i: int, j: int| 0 <= i < j < s.len() ==> entry_le(#[trigger] s[i], #[trigger] s[j])
}

/// No file comes before a directory.
pub open spec fn dirs_first(s: Seq<EntryView>) -> bool {
    forall|i: int, j: int|
        0 <= i < j < s.len() && entry_is_dir(#[trigger] s[j]) ==> entry_is_dir(#[trigger] s[i])
}

/// Within the directories, and within the others, names ascend.
pub open spec fn names_ascending(s: Seq<EntryView>) -> bool {
    forall|i: int, j: int|
        0 <= i < j < s.len() && entry_is_dir(#[trigger] s[i]) == entry_is_dir(#[trigger] s[j])
            ==> lex_le(entry_name(s[i]), entry_name(s[j]))
}

/// The views of a sequence of entries.
pub open spec fn views(s: Seq<FileInfo>) -> Seq<EntryView> {
    s.map_values(|e: FileInfo| e@)
}

/// Which entries the listing shows, besides volume roots.
#[derive(Clone, Copy, Debug, PartialEq, Eq, Structural)]
pub struct ListingOptions {
    /// Only directories are listed (a folder is being picked).
    pub folders_only: bool,
    /// Names that start with a dot are listed.
    pub show_hidden: bool,
    /// Volume roots are put ahead of the listing.
    pub show_drives: bool,
    /// Entries that are neither files nor directories (no metadata, or a
    /// special kind) are listed.
    pub show_system_files: bool,
}

/// A volume root: an entry whose path is a root alone.
pub open spec fn is_volume_root(e: EntryView) -> bool {
    e.path.parts.len() == 0
}

pub open spec fn is_hidden_name(name: Seq<char>) -> bool {
    name.len() > 0 && name[0] == '.'
}

/// Whether an entry that is no volume root stays in the listing.
pub open spec fn is_listed<F: Filter>(e: EntryView, o: ListingOptions, filter: F) -> bool {
    &&& !is_volume_root(e)
    &&& o.folders_only ==> entry_is_dir(e)
    &&& !entry_is_dir(e) ==> filter.spec_accepts(spec_text(e.path))
    &&& !o.show_hidden ==> !is_hidden_name(entry_name(e))
    &&& !o.show_system_files ==> (entry_is_dir(e) || e.kind == FileKind::File)
}

/// The entry with its mark cleared.
pub open spec fn unmarked(e: EntryView) -> EntryView {
    EntryView { selected: false, ..e }
}

/// The listed entries that are no volume roots, unmarked, in backend order.
pub open spec fn listed_rest<F: Filter>(raw: Seq<EntryView>, o: ListingOptions, filter: F) -> Seq<
    EntryView,
>
    decreases raw.len(),
{
    if raw.len() == 0 {
        seq![]
    } else {
        let prev = listed_rest(raw.drop_last(), o, filter);
        if is_listed(raw.last(), o, filter) {
            prev.push(unmarked(raw.last()))
        } else {
            prev
        }
    }
}

/// The volume roots, as unmarked directories, in backend order; none unless
/// they are asked for.
pub open spec fn listed_roots(raw: Seq<EntryView>, o: ListingOptions) -> Seq<EntryView>
    decreases raw.len(),
{
    if raw.len() == 0 || !o.show_drives {
        seq![]
    } else {
        let prev = listed_roots(raw.drop_last(), o);
        if is_volume_root(raw.last()) {
            prev.push(EntryView { kind: FileKind::Directory, selected: false, ..raw.last() })
        } else {
            prev
        }
    }
}

/// What the listing shows for a backend response: the volume roots in backend
/// order, then the other listed entries sorted, all unmarked.
pub open spec fn is_listing_of<F: Filter>(
    out: Seq<EntryView>,
    raw: Seq<EntryView>,
    o: ListingOptions,
    filter: F,
) -> bool {
    let roots = listed_roots(raw, o);
    &&& out.len() == roots.len() + listed_rest(raw, o, filter).len()
    &&& out.take(roots.len() as int) == roots
    &&& out.skip(roots.len() as int).to_multiset() == listed_rest(raw, o, filter).to_multiset()
    &&& is_sorted(out.skip(roots.len() as int))
}

/// Every entry of a listing is unmarked, and directories come first.
pub open spec fn listing_shape(s: Seq<EntryView>) -> bool {
    &&& dirs_first(s)
    &&& forall|i: int| 0 <= i < s.len() ==> !(#[trigger] s[i]).selected
}

/// Whether `a` comes no later than `b` in character order.
pub fn name_le(a: &str, b: &str) -> (r: bool)
    ensures
        r == lex_le(a@, b@),
{
    let na = a.unicode_len();
    let nb = b.unicode_len();
    let mut i: usize = 0;
    proof {
        assert(a@.skip(0) =~= a@);
        assert(b@.skip(0) =~= b@);
    }
    while i < na && i < nb
        invariant
            na == a@.len(),
            nb == b@.len(),
            i <= na,
            i <= nb,
            lex_le(a@, b@) == lex_le(a@.skip(i as int), b@.skip(i as int)),
        decreases na - i,
    {
        let ca = a.get_char(i);
        let cb = b.get_char(i);
        proof {
            assert(a@.skip(i as int)[0] == ca);
            assert(b@.skip(i as int)[0] == cb);
            assert(a@.skip(i as int).drop_first() =~= a@.skip(i + 1));
            assert(b@.skip(i as int).drop_first() =~= b@.skip(i + 1));
        }
        if ca != cb {
            return ca < cb;
        }
        i = i + 1;
    }
    i == na
}

/// Whether `a` comes no later than `b` in the listing order.
pub fn entry_before(a: &FileInfo, b: &FileInfo) -> (r: bool)
    ensures
        r == entry_le(a@, b@),
{
    let da = a.is_dir();
    let db = b.is_dir();
    if da != db {
        da
    } else {
        name_le(a.get_file_name(), b.get_file_name())
    }
}

proof fn lemma_entry_total(a: EntryView, b: EntryView)
    ensures
        entry_le(a, b) || entry_le(b, a),
{
    lemma_lex_total(entry_name(a), entry_name(b));
}

proof fn lemma_entry_trans(a: EntryView, b: EntryView, c: EntryView)
    requires
        entry_le(a, b),
        entry_le(b, c),
    ensures
        entry_le(a, c),
{
    if entry_is_dir(a) == entry_is_dir(b) && entry_is_dir(b) == entry_is_dir(c) {
        lemma_lex_trans(entry_name(a), entry_name(b), entry_name(c));
    }
}

/// A sorted sequence has its directories first and its names ascending in
/// each group.
pub proof fn lemma_sorted_groups(s: Seq<EntryView>)
    requires
        is_sorted(s),
    ensures
        dirs_first(s),
        names_ascending(s),
{
    assert forall|i: int, j: int|
        0 <= i < j < s.len() && entry_is_dir(#[trigger] s[j]) implies entry_is_dir(
        #[trigger] s[i],
    ) by {
        assert(entry_le(s[i], s[j]));
    }
    assert forall|i: int, j: int|
        0 <= i < j < s.len() && entry_is_dir(#[trigger] s[i]) == entry_is_dir(
            #[trigger] s[j],
        ) implies lex_le(entry_name(s[i]), entry_name(s[j])) by {
        assert(entry_le(s[i], s[j]));
    }
}

/// The entries in listing order: directories first, then by name.
pub fn sort_entries(v: Vec<FileInfo>) -> (r: Vec<FileInfo>)
    ensures
        views(r@).to_multiset() == views(v@).to_multiset(),
        is_sorted(views(r@)),
{
    broadcast use group_to_multiset_ensures;
    broadcast use vstd::multiset::group_multiset_axioms;

    let ghost orig = views(v@);
    let mut rest = v;
    let mut out: Vec<FileInfo> = Vec::new();
    proof {
        assert(views(out@) =~= Seq::<EntryView>::empty());
        assert(views(rest@) == orig);
        assert(views(out@).to_multiset() =~= Multiset::<EntryView>::empty());
    }
    while rest.len() > 0
        invariant
            views(out@).to_multiset().add(views(rest@).to_multiset()) == orig.to_multiset(),
            is_sorted(views(out@)),
        decreases rest.len(),
    {
        let ghost before_rest = views(rest@);
        let x = rest.pop().unwrap();
        proof {
            assert(before_rest =~= views(rest@).push(x@));
        }
        let mut k: usize = 0;
        while k < out.len() && !entry_before(&x, &out[k])
            invariant
                k <= out.len(),
                forall|m: int| 0 <= m < k ==> entry_le(#[trigger] views(out@)[m], x@),
            decreases out.len() - k,
        {
            proof {
                lemma_entry_total(x@, out@[k as int]@);
                assert(views(out@)[k as int] == out@[k as int]@);
            }
            k = k + 1;
        }
        let ghost before_out = views(out@);
        let ghost xv = x@;
        out.insert(k, x);
        proof {
            assert(views(out@) =~= before_out.insert(k as int, xv));
            vstd::seq_lib::to_multiset_insert(before_out, k as int, xv);
            vstd::seq_lib::to_multiset_build(views(rest@), xv);
            assert(views(out@).to_multiset() == before_out.to_multiset().insert(xv));
            assert(before_rest.to_multiset() == views(rest@).to_multiset().insert(xv));
            assert(views(out@).to_multiset().add(views(rest@).to_multiset()) =~= before_out.to_multiset().add(before_rest.to_multiset()));
            let s = views(out@);
            assert forall|i: int, j: int| 0 <= i < j < s.len() implies entry_le(
                #[trigger] s[i],
                #[trigger] s[j],
            ) by {
                if j < k {
                    assert(entry_le(before_out[i], before_out[j]));
                } else if j == k {
                    assert(entry_le(before_out[i], x@));
                } else if i < k {
                    assert(entry_le(before_out[i], x@));
                    assert(entry_le(x@, before_out[k as int]));
                    lemma_entry_trans(before_out[i], x@, before_out[k as int]);
                    if j - 1 > k {
                        assert(entry_le(before_out[k as int], before_out[j - 1]));
                        lemma_entry_trans(before_out[i], before_out[k as int], before_out[j - 1]);
                    }
                } else if i == k {
                    assert(entry_le(x@, before_out[k as int]));
                    if j - 1 > k {
                        assert(entry_le(before_out[k as int], before_out[j - 1]));
                        lemma_entry_trans(x@, before_out[k as int], before_out[j - 1]);
                    }
                } else {
                    assert(entry_le(before_out[i - 1], before_out[j - 1]));
                }
            }
        }
    }
    proof {
        assert(views(rest@) =~= Seq::<EntryView>::empty());
        assert(views(rest@).to_multiset() =~= Multiset::<EntryView>::empty());
        assert(views(out@).to_multiset().add(Multiset::<EntryView>::empty()) =~= views(
            out@,
        ).to_multiset());
    }
    out
}

proof fn lemma_roots_shape(raw: Seq<EntryView>, o: ListingOptions)
    ensures
        forall|i: int|
            0 <= i < listed_roots(raw, o).len() ==> entry_is_dir(#[trigger] listed_roots(raw, o)[i])
                && !listed_roots(raw, o)[i].selected && is_volume_root(listed_roots(raw, o)[i]),
        !o.show_drives ==> listed_roots(raw, o).len() == 0,
    decreases raw.len(),
{
    if raw.len() > 0 {
        lemma_roots_shape(raw.drop_last(), o);
    }
}

proof fn lemma_rest_unmarked<F: Filter>(raw: Seq<EntryView>, o: ListingOptions, filter: F)
    ensures
        forall|i: int|
            0 <= i < listed_rest(raw, o, filter).len() ==> !(#[trigger] listed_rest(
                raw,
                o,
                filter,
            )[i]).selected && is_listed(listed_rest(raw, o, filter)[i], o, filter),
    decreases raw.len(),
{
    if raw.len() > 0 {
        lemma_rest_unmarked(raw.drop_last(), o, filter);
    }
}

/// A listing has its directories first and every entry unmarked.
pub proof fn lemma_listing_shape<F: Filter>(
    out: Seq<EntryView>,
    raw: Seq<EntryView>,
    o: ListingOptions,
    filter: F,
)
    requires
        is_listing_of(out, raw, o, filter),
    ensures
        listing_shape(out),
{
    broadcast use group_to_multiset_ensures;

    let roots = listed_roots(raw, o);
    let rest = listed_rest(raw, o, filter);
    let n = roots.len() as int;
    let tail = out.skip(n);
    lemma_roots_shape(raw, o);
    lemma_rest_unmarked(raw, o, filter);
    lemma_sorted_groups(tail);
    assert forall|i: int| 0 <= i < out.len() implies !(#[trigger] out[i]).selected by {
        if i < n {
            assert(out.take(n)[i] == roots[i]);
        } else {
            assert(tail[i - n] == out[i]);
            assert(tail.contains(out[i]));
            assert(tail.to_multiset().count(out[i]) > 0);
            assert(rest.contains(out[i]));
        }
    }
    assert forall|i: int, j: int|
        0 <= i < j < out.len() && entry_is_dir(#[trigger] out[j]) implies entry_is_dir(
        #[trigger] out[i],
    ) by {
        if i < n {
            assert(out.take(n)[i] == roots[i]);
        } else {
            assert(tail[i - n] == out[i]);
            assert(tail[j - n] == out[j]);
        }
    }
}

/// Whether an entry that is no volume root stays in the listing.
pub fn entry_is_listed<F: Filter>(e: &FileInfo, o: ListingOptions, filter: &F) -> (r: bool)
    ensures
        r == is_listed(e@, o, *filter),
{
    if !e.path.has_parent() {
        return false;
    }
    let is_dir = e.is_dir();
    if o.folders_only && !is_dir {
        return false;
    }
    if !is_dir {
        let text = e.path.to_text();
        if !filter.accepts(text.as_str()) {
            return false;
        }
    }
    if !o.show_system_files && !is_dir && !e.is_file() {
        return false;
    }
    if !o.show_hidden {
        let name = e.get_file_name();
        if name.unicode_len() > 0 && name.get_char(0) == '.' {
            return false;
        }
    }
    true
}

/// The volume roots and the other listed entries of a backend response, each
/// in backend order and unmarked.
pub fn select_listed<F: Filter>(raw: &Vec<FileInfo>, o: ListingOptions, filter: &F) -> (r: (
    Vec<FileInfo>,
    Vec<FileInfo>,
))
    ensures
        views(r.0@) == listed_roots(views(raw@), o),
        views(r.1@) == listed_rest(views(raw@), o, *filter),
{
    let ghost all = views(raw@);
    let mut roots: Vec<FileInfo> = Vec::new();
    let mut rest: Vec<FileInfo> = Vec::new();
    let mut i: usize = 0;
    proof {
        assert(views(roots@) =~= listed_roots(all.take(0), o));
        assert(views(rest@) =~= listed_rest(all.take(0), o, *filter));
    }
    while i < raw.len()
        invariant
            i <= raw.len(),
            all == views(raw@),
            views(roots@) == listed_roots(all.take(i as int), o),
            views(rest@) == listed_rest(all.take(i as int), o, *filter),
        decreases raw.len() - i,
    {
        let ghost prefix = all.take(i + 1);
        proof {
            assert(prefix.drop_last() =~= all.take(i as int));
            assert(prefix.last() == raw@[i as int]@);
        }
        let e = &raw[i];
        if !e.path.has_parent() {
            if o.show_drives {
                let mut root = e.duplicate();
                root.kind = FileKind::Directory;
                root.selected = false;
                let ghost before = views(roots@);
                roots.push(root);
                proof {
                    assert(views(roots@) =~= before.push(root@));
                }
            }
        } else if entry_is_listed(e, o, filter) {
            let mut kept = e.duplicate();
            kept.selected = false;
            let ghost before = views(rest@);
            rest.push(kept);
            proof {
                assert(views(rest@) =~= before.push(kept@));
            }
        }
        i = i + 1;
    }
    proof {
        assert(all.take(raw.len() as int) =~= all);
    }
    (roots, rest)
}

/// The listing for a backend response: the volume roots in backend order,
/// then the other listed entries sorted, directories first and by name.
pub fn build_listing<F: Filter>(raw: Vec<FileInfo>, o: ListingOptions, filter: &F) -> (r: (
    Vec<FileInfo>,
    usize,
))
    ensures
        is_listing_of(views(r.0@), views(raw@), o, *filter),
        listing_shape(views(r.0@)),
        r.1 == listed_roots(views(raw@), o).len(),
        forall|i: int|
            0 <= i < r.1 ==> entry_is_dir(#[trigger] views(r.0@)[i]) && is_volume_root(
                views(r.0@)[i],
            ),
        !o.show_drives ==> r.1 == 0,
{
    let (mut roots, rest) = select_listed(&raw, o, filter);
    let count = roots.len();
    let ghost rv = views(roots@);
    let mut sorted = sort_entries(rest);
    let ghost sv = views(sorted@);
    roots.append(&mut sorted);
    proof {
        broadcast use group_to_multiset_ensures;

        let out = views(roots@);
        let lr = listed_rest(views(raw@), o, *filter);
        assert(sv.to_multiset().len() == sv.len());
        assert(lr.to_multiset().len() == lr.len());
        assert(out =~= rv + sv);
        assert(out.take(rv.len() as int) =~= rv);
        assert(out.skip(rv.len() as int) =~= sv);
        lemma_listing_shape(out, views(raw@), o, *filter);
        lemma_roots_shape(views(raw@), o);
        assert forall|i: int| 0 <= i < count implies entry_is_dir(#[trigger] out[i]) && is_volume_root(
            out[i],
        ) by {
            assert(out[i] == rv[i]);
        }
    }
    (roots, count)
}

/// In every listing, no file comes before a directory.
pub proof fn law_directories_first<F: Filter>(
    out: Seq<EntryView>,
    raw: Seq<EntryView>,
    o: ListingOptions,
    filter: F,
)
    requires
        is_listing_of(out, raw, o, filter),
    ensures
        dirs_first(out),
{
    lemma_listing_shape(out, raw, o, filter);
}

/// In a listing, among the directories and among the other entries, names
/// ascend. Volume roots are put ahead in backend order, so this holds of a
/// listing without them, and of the part after them in any listing.
pub proof fn law_names_ascending<F: Filter>(
    out: Seq<EntryView>,
    raw: Seq<EntryView>,
    o: ListingOptions,
    filter: F,
)
    requires
        is_listing_of(out, raw, o, filter),
    ensures
        names_ascending(out.skip(listed_roots(raw, o).len() as int)),
        listed_roots(raw, o).len() == 0 ==> names_ascending(out),
{
    let n = listed_roots(raw, o).len() as int;
    lemma_sorted_groups(out.skip(n));
    if n == 0 {
        assert(out.skip(0) =~= out);
    }
}

/// A folder listing holds directories only.
pub proof fn law_folders_only<F: Filter>(
    out: Seq<EntryView>,
    raw: Seq<EntryView>,
    o: ListingOptions,
    filter: F,
)
    requires
        is_listing_of(out, raw, o, filter),
        o.folders_only,
    ensures
        forall|i: int| 0 <= i < out.len() ==> entry_is_dir(#[trigger] out[i]),
{
    broadcast use group_to_multiset_ensures;

    let roots = listed_roots(raw, o);
    let rest = listed_rest(raw, o, filter);
    let n = roots.len() as int;
    let tail = out.skip(n);
    lemma_roots_shape(raw, o);
    lemma_rest_unmarked(raw, o, filter);
    assert forall|i: int| 0 <= i < out.len() implies entry_is_dir(#[trigger] out[i]) by {
        if i < n {
            assert(out.take(n)[i] == roots[i]);
        } else {
            assert(tail[i - n] == out[i]);
            assert(tail.contains(out[i]));
            assert(tail.to_multiset().count(out[i]) > 0);
            assert(rest.contains(out[i]));
            let k = choose|k: int| 0 <= k < rest.len() && rest[k] == out[i];
            assert(is_listed(rest[k], o, filter));
        }
    }
}

/// Where no two listed entries share a name, as in one directory, names
/// ascend strictly within the directories and within the files.
pub proof fn law_names_strictly_ascending<F: Filter>(
    out: Seq<EntryView>,
    raw: Seq<EntryView>,
    o: ListingOptions,
    filter: F,
)
    requires
        is_listing_of(out, raw, o, filter),
        listed_roots(raw, o).len() == 0,
        forall|i: int, j: int|
            0 <= i < j < out.len() ==> entry_name(#[trigger] out[i]) != entry_name(#[trigger] out[j]),
    ensures
        forall|i: int, j: int|
            0 <= i < j < out.len() && entry_is_dir(#[trigger] out[i]) == entry_is_dir(#[trigger] out[j])
                ==> lex_le(entry_name(out[i]), entry_name(out[j])) && entry_name(out[i]) != entry_name(out[j]),
{
    law_names_ascending(out, raw, o, filter);
}

} // verus!
