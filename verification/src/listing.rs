//! The directory page of the web interface: the first thousand entries of
//! a directory, with their paths, directories first, then submodules, then
//! everything else, each group by the name shown.

use vstd::prelude::*;
use vstd::string::StringExecFns;
use crate::text::chars_of;
use crate::tree::{display_name, entry_display_name, rank, EntryKind, TreeEntry};

verus! {

/// The most entries the directory page shows.
pub const MAX_LISTED: usize = 1000;

/// An entry of the directory page.
pub struct ListedFile {
    pub kind: EntryKind,
    /// The name shown
    pub name: String,
    /// The directory's path, `/` and the name
    pub path: String,
    pub oid: Vec<u8>,
}

/// Mathematical view of a [`ListedFile`].
pub struct ListedView {
    pub kind: EntryKind,
    pub name: Seq<char>,
    pub path: Seq<char>,
    pub oid: Seq<u8>,
}

/// The views of listed files.
pub open spec fn listed_views(v: Seq<ListedFile>) -> Seq<ListedView> {
    v.map_values(|f: ListedFile| ListedView { kind: f.kind, name: f.name@, path: f.path@, oid: f.oid@ })
}

/// Lexicographic order of texts by character (the order of `String`'s
/// `Ord`, UTF-8 keeping the order of code points): strictly before.
pub open spec fn chars_lt(a: Seq<char>, b: Seq<char>) -> bool
    decreases a.len(),
{
    if a.len() == 0 {
        b.len() > 0
    } else if b.len() == 0 {
        false
    } else if a[0] < b[0] {
        true
    } else if a[0] > b[0] {
        false
    } else {
        chars_lt(a.drop_first(), b.drop_first())
    }
}

/// Whether file `a` is shown strictly before file `b`: by group, then by name.
pub open spec fn shown_before(a: ListedView, b: ListedView) -> bool {
    rank(a.kind) < rank(b.kind) || (rank(a.kind) == rank(b.kind) && chars_lt(a.name, b.name))
}

/// Inserts `x` into a page after every file it is not shown before.
pub open spec fn insert_listed(s: Seq<ListedView>, x: ListedView) -> Seq<ListedView>
    decreases s.len(),
{
    if s.len() == 0 {
        seq![x]
    } else if shown_before(x, s.last()) {
        insert_listed(s.drop_last(), x).push(s.last())
    } else {
        s.push(x)
    }
}

/// The order of the page: a stable sort by [`shown_before`].
pub open spec fn sorted_listing(s: Seq<ListedView>) -> Seq<ListedView>
    decreases s.len(),
{
    if s.len() == 0 {
        s
    } else {
        insert_listed(sorted_listing(s.drop_last()), s.last())
    }
}

/// How an entry of a directory at `dir` is shown.
pub open spec fn listed_entry(e: TreeEntry, dir: Seq<char>) -> ListedView {
    ListedView { kind: e.kind, name: display_name(e.name@), path: dir + "/"@ + display_name(e.name@), oid: e.oid@ }
}

/// The entries of a directory page, in the order of the tree, before sorting.
pub open spec fn listed_entries(entries: Seq<TreeEntry>, dir: Seq<char>) -> Seq<ListedView> {
    entries.map_values(|e: TreeEntry| listed_entry(e, dir))
}

/// The directory page of a directory at `dir` with these entries (in the
/// order of the tree): the first thousand, sorted for showing.
pub open spec fn directory_page(entries: Seq<TreeEntry>, dir: Seq<char>) -> Seq<ListedView> {
    let n = if entries.len() < MAX_LISTED {
        entries.len() as int
    } else {
        MAX_LISTED as int
    };
    sorted_listing(listed_entries(entries.take(n), dir))
}

fn chars_less(a: &Vec<char>, b: &Vec<char>) -> (r: bool)
    ensures
        r == chars_lt(a@, b@),
{
    let mut i: usize = 0;
    assert(a@.skip(0) =~= a@);
    assert(b@.skip(0) =~= b@);
    while i < a.len() && i < b.len()
        invariant
            i <= a@.len(),
            i <= b@.len(),
            chars_lt(a@, b@) == chars_lt(a@.skip(i as int), b@.skip(i as int)),
        decreases a@.len() - i,
    {
        if a[i] < b[i] {
            return true;
        }
        if a[i] > b[i] {
            return false;
        }
        assert(a@.skip(i as int).drop_first() =~= a@.skip(i + 1));
        assert(b@.skip(i as int).drop_first() =~= b@.skip(i + 1));
        i += 1;
    }
    i == a.len() && i < b.len()
}

fn kind_rank(k: EntryKind) -> (r: u8)
    ensures
        r as int == rank(k),
{
    match k {
        EntryKind::Tree => 0,
        EntryKind::Commit => 1,
        _ => 2,
    }
}

proof fn lemma_insert_listed_at(s: Seq<ListedView>, x: ListedView, k: int)
    requires
        0 <= k <= s.len(),
        forall|j: int| k <= j < s.len() ==> shown_before(x, #[trigger] s[j]),
        k > 0 ==> !shown_before(x, s[k - 1]),
    ensures
        insert_listed(s, x) == s.insert(k, x),
    decreases s.len(),
{
    if s.len() == 0 {
        assert(s.insert(k, x) =~= seq![x]);
    } else if k == s.len() {
        assert(s.insert(k, x) =~= s.push(x));
    } else {
        assert(shown_before(x, s[s.len() - 1]));
        lemma_insert_listed_at(s.drop_last(), x, k);
        assert(s.drop_last().insert(k, x).push(s.last()) =~= s.insert(k, x));
    }
}

/// The directory page of a directory at `dir` with these entries, in the
/// order of the tree; see [`directory_page`].
pub fn directory_listing(entries: &[TreeEntry], dir: &str) -> (r: Vec<ListedFile>)
    ensures
        listed_views(r@) == directory_page(entries@, dir@),
{
    let n = if entries.len() < MAX_LISTED {
        entries.len()
    } else {
        MAX_LISTED
    };
    let ghost src = listed_entries(entries@.take(n as int), dir@);
    let mut r: Vec<ListedFile> = Vec::new();
    let mut keys: Vec<Vec<char>> = Vec::new();
    let mut i: usize = 0;
    assert(src.take(0) =~= Seq::<ListedView>::empty());
    while i < n
        invariant
            i <= n <= entries@.len(),
            n <= MAX_LISTED,
            src == listed_entries(entries@.take(n as int), dir@),
            listed_views(r@) == sorted_listing(src.take(i as int)),
            keys@.len() == r@.len(),
            forall|k: int| 0 <= k < r@.len() ==> (#[trigger] keys@[k])@ == r@[k].name@,
        decreases n - i,
    {
        let e = &entries[i];
        let name = entry_display_name(&e.name);
        let mut path = String::from_str(dir);
        path.append("/");
        path.append(name.as_str());
        let oid = e.oid.clone();
        assert(oid@ =~= e.oid@);
        let key = chars_of(name.as_str());
        let x = ListedFile { kind: e.kind, name, path, oid };
        let ghost xv = ListedView { kind: x.kind, name: x.name@, path: x.path@, oid: x.oid@ };
        assert(xv == src[i as int]);
        let xr = kind_rank(x.kind);
        let mut k = r.len();
        while k > 0 && (xr < kind_rank(r[k - 1].kind) || (xr == kind_rank(r[k - 1].kind) && chars_less(&key, &keys[k - 1])))
            invariant
                k <= r@.len(),
                keys@.len() == r@.len(),
                forall|j: int| 0 <= j < r@.len() ==> (#[trigger] keys@[j])@ == r@[j].name@,
                key@ == xv.name,
                xr as int == rank(xv.kind),
                forall|j: int| k <= j < r@.len() ==> shown_before(xv, #[trigger] listed_views(r@)[j]),
            decreases k,
        {
            k -= 1;
        }
        proof {
            lemma_insert_listed_at(listed_views(r@), xv, k as int);
            assert(src.take(i + 1).drop_last() =~= src.take(i as int));
        }
        let ghost before = r@;
        r.insert(k, x);
        keys.insert(k, key);
        assert(listed_views(r@) =~= listed_views(before).insert(k as int, xv));
        i += 1;
    }
    assert(src.take(n as int) =~= src);
    r
}

proof fn lemma_chars_lt_asymmetric(a: Seq<char>, b: Seq<char>)
    ensures
        chars_lt(a, b) ==> !chars_lt(b, a),
    decreases a.len(),
{
    if a.len() > 0 && b.len() > 0 && a[0] == b[0] {
        lemma_chars_lt_asymmetric(a.drop_first(), b.drop_first());
    }
}

proof fn lemma_chars_lt_total(a: Seq<char>, b: Seq<char>)
    ensures
        !chars_lt(a, b) && !chars_lt(b, a) ==> a == b,
    decreases a.len(),
{
    if a.len() > 0 && b.len() > 0 && a[0] == b[0] {
        lemma_chars_lt_total(a.drop_first(), b.drop_first());
        if !chars_lt(a, b) && !chars_lt(b, a) {
            assert(a =~= seq![a[0]] + a.drop_first());
            assert(b =~= seq![b[0]] + b.drop_first());
        }
    } else if a.len() == 0 && b.len() == 0 {
        assert(a =~= b);
    }
}

proof fn lemma_chars_lt_transitive(a: Seq<char>, b: Seq<char>, c: Seq<char>)
    ensures
        chars_lt(a, b) && chars_lt(b, c) ==> chars_lt(a, c),
    decreases a.len(),
{
    if a.len() > 0 && b.len() > 0 && c.len() > 0 && a[0] == b[0] && b[0] == c[0] {
        lemma_chars_lt_transitive(a.drop_first(), b.drop_first(), c.drop_first());
    }
}

proof fn lemma_shown_order(a: ListedView, b: ListedView, c: ListedView)
    ensures
        shown_before(a, b) ==> !shown_before(b, a),
        !shown_before(a, b) && !shown_before(b, c) ==> !shown_before(a, c),
{
    lemma_chars_lt_asymmetric(a.name, b.name);
    lemma_chars_lt_total(a.name, b.name);
    lemma_chars_lt_total(b.name, c.name);
    lemma_chars_lt_transitive(b.name, a.name, c.name);
    lemma_chars_lt_transitive(a.name, c.name, b.name);
}

/// No file of a page is shown after one it comes before.
pub open spec fn in_page_order(s: Seq<ListedView>) -> bool {
    forall|i: int, j: int| 0 <= i < j < s.len() ==> !shown_before(#[trigger] s[j], #[trigger] s[i])
}

proof fn lemma_insert_listed_multiset(s: Seq<ListedView>, x: ListedView)
    ensures
        insert_listed(s, x).to_multiset() == s.to_multiset().insert(x),
    decreases s.len(),
{
    broadcast use vstd::seq_lib::group_to_multiset_ensures;

    if s.len() == 0 {
        assert(seq![x] =~= Seq::<ListedView>::empty().push(x));
    } else if shown_before(x, s.last()) {
        lemma_insert_listed_multiset(s.drop_last(), x);
        assert(s.drop_last().push(s.last()) =~= s);
    }
}

proof fn lemma_insert_listed_sorted(s: Seq<ListedView>, x: ListedView)
    requires
        in_page_order(s),
    ensures
        in_page_order(insert_listed(s, x)),
    decreases s.len(),
{
    broadcast use vstd::seq_lib::group_to_multiset_ensures;

    if s.len() > 0 {
        let last = s.last();
        if shown_before(x, last) {
            let t = insert_listed(s.drop_last(), x);
            lemma_insert_listed_sorted(s.drop_last(), x);
            lemma_insert_listed_multiset(s.drop_last(), x);
            let r = t.push(last);
            assert forall|i: int, j: int| 0 <= i < j < r.len() implies !shown_before(#[trigger] r[j], #[trigger] r[i]) by {
                if j == r.len() - 1 {
                    let e = t[i];
                    assert(t.to_multiset().count(e) > 0);
                    assert(s.drop_last().to_multiset().insert(x).count(e) > 0);
                    if e == x {
                        lemma_shown_order(x, last, x);
                    } else {
                        assert(s.drop_last().to_multiset().count(e) > 0);
                        assert(s.drop_last().contains(e));
                        let k = choose|k: int| 0 <= k < s.drop_last().len() && s.drop_last()[k] == e;
                        assert(s[k] == e);
                        assert(!shown_before(s[s.len() - 1], s[k]));
                    }
                }
            }
        } else {
            let r = s.push(x);
            assert forall|i: int, j: int| 0 <= i < j < r.len() implies !shown_before(#[trigger] r[j], #[trigger] r[i]) by {
                if j == r.len() - 1 && i < s.len() - 1 {
                    assert(!shown_before(s[s.len() - 1], s[i]));
                    lemma_shown_order(x, last, s[i]);
                }
            }
        }
    }
}

proof fn lemma_sorted_listing(s: Seq<ListedView>)
    ensures
        sorted_listing(s).to_multiset() == s.to_multiset(),
        in_page_order(sorted_listing(s)),
    decreases s.len(),
{
    broadcast use vstd::seq_lib::group_to_multiset_ensures;

    if s.len() > 0 {
        lemma_sorted_listing(s.drop_last());
        lemma_insert_listed_multiset(sorted_listing(s.drop_last()), s.last());
        lemma_insert_listed_sorted(sorted_listing(s.drop_last()), s.last());
        assert(s.drop_last().push(s.last()) =~= s);
    }
}

/// A directory page shows at most a thousand files: exactly the first
/// thousand entries of the directory (all of them when there are fewer),
/// reordered so that no file is shown after one it comes before.
pub proof fn lemma_directory_page(entries: Seq<TreeEntry>, dir: Seq<char>)
    ensures
        directory_page(entries, dir).len() <= MAX_LISTED,
        directory_page(entries, dir).to_multiset() == listed_entries(
            entries.take(if entries.len() < MAX_LISTED { entries.len() as int } else { MAX_LISTED as int }),
            dir,
        ).to_multiset(),
        in_page_order(directory_page(entries, dir)),
{
    broadcast use vstd::seq_lib::group_to_multiset_ensures;

    let n = if entries.len() < MAX_LISTED {
        entries.len() as int
    } else {
        MAX_LISTED as int
    };
    let src = listed_entries(entries.take(n), dir);
    lemma_sorted_listing(src);
    assert(sorted_listing(src).to_multiset().len() == src.to_multiset().len());
}

} // verus!
