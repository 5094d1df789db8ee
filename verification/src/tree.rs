//! Repository trees: the order in which directory listings show entries
//! (directories, then submodules, then the rest, each by name), entry paths,
//! and resolving a path inside a tree one level at a time.

use vstd::prelude::*;
use vstd::utf8::*;
use vstd::string::StringExecFns;
use crate::text::{char_from, chars_of, find_char, str_from_utf8, string_of_range};

verus! {

/// The kind of a tree entry, by its mode.
#[derive(Clone, Copy, PartialEq, Eq, Structural, Debug)]
pub enum EntryKind {
    /// Directory
    Tree,
    /// Regular file
    Blob,
    /// Executable file
    BlobExecutable,
    /// Symbolic link
    Link,
    /// Git submodule
    Commit,
}

/// One entry of a tree: its kind, its file name as raw bytes and the id of
/// the object it points to.
pub struct TreeEntry {
    pub kind: EntryKind,
    pub name: Vec<u8>,
    pub oid: Vec<u8>,
}

/// Listing group of an entry kind: directories, submodules, then the rest.
pub open spec fn rank(k: EntryKind) -> int {
    match k {
        EntryKind::Tree => 0,
        EntryKind::Commit => 1,
        _ => 2,
    }
}

/// Lexicographic order of byte strings (`[u8]`'s `Ord`): strictly before.
pub open spec fn bytes_lt(a: Seq<u8>, b: Seq<u8>) -> bool
    decreases a.len(),
{
    if a.len() == 0 {
        b.len() > 0
    } else if b.len() == 0 {
        false
    } else if a[0] < b[0] {
        true
    } else if a[0] > b[0] {
        false
    } else {
        bytes_lt(a.drop_first(), b.drop_first())
    }
}

/// Whether entry `a` is listed strictly before entry `b`: by group, then by name.
pub open spec fn entry_before(a: TreeEntry, b: TreeEntry) -> bool {
    rank(a.kind) < rank(b.kind) || (rank(a.kind) == rank(b.kind) && bytes_lt(a.name@, b.name@))
}

/// Inserts `x` into a listing after every entry it does not come before.
pub open spec fn insert_entry(s: Seq<TreeEntry>, x: TreeEntry) -> Seq<TreeEntry>
    decreases s.len(),
{
    if s.len() == 0 {
        seq![x]
    } else if entry_before(x, s.last()) {
        insert_entry(s.drop_last(), x).push(s.last())
    } else {
        s.push(x)
    }
}

/// The listing order of entries: a stable sort by [`entry_before`], as
/// `sort_by` gives it.
pub open spec fn sorted_entries(s: Seq<TreeEntry>) -> Seq<TreeEntry>
    decreases s.len(),
{
    if s.len() == 0 {
        s
    } else {
        insert_entry(sorted_entries(s.drop_last()), s.last())
    }
}

fn bytes_less(a: &Vec<u8>, b: &Vec<u8>) -> (r: bool)
    ensures
        r == bytes_lt(a@, b@),
{
    let mut i: usize = 0;
    assert(a@.skip(0) =~= a@);
    assert(b@.skip(0) =~= b@);
    while i < a.len() && i < b.len()
        invariant
            i <= a@.len(),
            i <= b@.len(),
            bytes_lt(a@, b@) == bytes_lt(a@.skip(i as int), b@.skip(i as int)),
        decreases a@.len() - i,
    {
        if a[i] < b[i] {
            return true;
        }
        if a[i] > b[i] {
            return false;
        }
        assert(a@.skip(i as int).drop_first() =~= a@.skip(i + 1));
        assert(b@.skip(i as int).drop_first() =~= b@.skip(i + 1));
        i += 1;
    }
    i == a.len() && i < b.len()
}

fn kind_rank(k: EntryKind) -> (r: u8)
    ensures
        r as int == rank(k),
{
    match k {
        EntryKind::Tree => 0,
        EntryKind::Commit => 1,
        _ => 2,
    }
}

fn before(a: &TreeEntry, b: &TreeEntry) -> (r: bool)
    ensures
        r == entry_before(*a, *b),
{
    let ra = kind_rank(a.kind);
    let rb = kind_rank(b.kind);
    ra < rb || (ra == rb && bytes_less(&a.name, &b.name))
}

proof fn lemma_insert_at(s: Seq<TreeEntry>, x: TreeEntry, k: int)
    requires
        0 <= k <= s.len(),
        forall|j: int| k <= j < s.len() ==> entry_before(x, #[trigger] s[j]),
        k > 0 ==> !entry_before(x, s[k - 1]),
    ensures
        insert_entry(s, x) == s.insert(k, x),
    decreases s.len(),
{
    if s.len() == 0 {
        assert(s.insert(k, x) =~= seq![x]);
    } else if k == s.len() {
        assert(s.insert(k, x) =~= s.push(x));
    } else {
        assert(entry_before(x, s[s.len() - 1]));
        lemma_insert_at(s.drop_last(), x, k);
        assert(s.drop_last().insert(k, x).push(s.last()) =~= s.insert(k, x));
    }
}

/// Sorts tree entries for listing: directories first, then submodules,
/// then everything else, each group by file name; entries that compare
/// equal keep their order.
pub fn sort_entries(entries: Vec<TreeEntry>) -> (r: Vec<TreeEntry>)
    ensures
        r@ == sorted_entries(entries@),
{
    let ghost orig = entries@;
    let total = entries.len();
    let mut rest = entries;
    let mut r: Vec<TreeEntry> = Vec::new();
    let mut n: usize = 0;
    assert(orig.take(0) =~= Seq::<TreeEntry>::empty());
    while rest.len() > 0
        invariant
            n + rest@.len() == orig.len(),
            orig.len() == total,
            rest@ == orig.skip(n as int),
            r@ == sorted_entries(orig.take(n as int)),
        decreases rest@.len(),
    {
        let x = rest.remove(0);
        assert(x == orig[n as int]);
        assert(rest@ =~= orig.skip(n + 1));
        let mut k = r.len();
        while k > 0 && before(&x, &r[k - 1])
            invariant
                k <= r@.len(),
                forall|j: int| k <= j < r@.len() ==> entry_before(x, #[trigger] r@[j]),
            decreases k,
        {
            k -= 1;
        }
        proof {
            lemma_insert_at(r@, x, k as int);
            assert(orig.take(n + 1).drop_last() =~= orig.take(n as int));
        }
        r.insert(k, x);
        n += 1;
    }
    assert(orig.take(n as int) =~= orig);
    r
}

proof fn lemma_bytes_lt_asymmetric(a: Seq<u8>, b: Seq<u8>)
    ensures
        bytes_lt(a, b) ==> !bytes_lt(b, a),
    decreases a.len(),
{
    if a.len() > 0 && b.len() > 0 && a[0] == b[0] {
        lemma_bytes_lt_asymmetric(a.drop_first(), b.drop_first());
    }
}

proof fn lemma_bytes_lt_total(a: Seq<u8>, b: Seq<u8>)
    ensures
        !bytes_lt(a, b) && !bytes_lt(b, a) ==> a == b,
    decreases a.len(),
{
    if a.len() > 0 && b.len() > 0 && a[0] == b[0] {
        lemma_bytes_lt_total(a.drop_first(), b.drop_first());
        if !bytes_lt(a, b) && !bytes_lt(b, a) {
            assert(a =~= seq![a[0]] + a.drop_first());
            assert(b =~= seq![b[0]] + b.drop_first());
        }
    } else if a.len() == 0 && b.len() == 0 {
        assert(a =~= b);
    }
}

proof fn lemma_bytes_lt_transitive(a: Seq<u8>, b: Seq<u8>, c: Seq<u8>)
    ensures
        bytes_lt(a, b) && bytes_lt(b, c) ==> bytes_lt(a, c),
    decreases a.len(),
{
    if a.len() > 0 && b.len() > 0 && c.len() > 0 && a[0] == b[0] && b[0] == c[0] {
        lemma_bytes_lt_transitive(a.drop_first(), b.drop_first(), c.drop_first());
    }
}

/// Listing order is a strict weak order: never both ways, and "not before"
/// is transitive.
proof fn lemma_entry_order(a: TreeEntry, b: TreeEntry, c: TreeEntry)
    ensures
        entry_before(a, b) ==> !entry_before(b, a),
        !entry_before(a, b) && !entry_before(b, c) ==> !entry_before(a, c),
{
    lemma_bytes_lt_asymmetric(a.name@, b.name@);
    lemma_bytes_lt_total(a.name@, b.name@);
    lemma_bytes_lt_total(b.name@, c.name@);
    lemma_bytes_lt_transitive(b.name@, a.name@, c.name@);
    lemma_bytes_lt_transitive(a.name@, c.name@, b.name@);
}

/// No entry of the listing comes before an earlier one.
pub open spec fn in_listing_order(s: Seq<TreeEntry>) -> bool {
    forall|i: int, j: int| 0 <= i < j < s.len() ==> !entry_before(#[trigger] s[j], #[trigger] s[i])
}

proof fn lemma_insert_entry_multiset(s: Seq<TreeEntry>, x: TreeEntry)
    ensures
        insert_entry(s, x).to_multiset() == s.to_multiset().insert(x),
    decreases s.len(),
{
    broadcast use vstd::seq_lib::group_to_multiset_ensures;

    if s.len() == 0 {
        assert(seq![x] =~= Seq::<TreeEntry>::empty().push(x));
    } else if entry_before(x, s.last()) {
        lemma_insert_entry_multiset(s.drop_last(), x);
        assert(s.drop_last().push(s.last()) =~= s);
    }
}

proof fn lemma_insert_entry_sorted(s: Seq<TreeEntry>, x: TreeEntry)
    requires
        in_listing_order(s),
    ensures
        in_listing_order(insert_entry(s, x)),
    decreases s.len(),
{
    broadcast use vstd::seq_lib::group_to_multiset_ensures;

    if s.len() > 0 {
        let last = s.last();
        if entry_before(x, last) {
            let t = insert_entry(s.drop_last(), x);
            lemma_insert_entry_sorted(s.drop_last(), x);
            lemma_insert_entry_multiset(s.drop_last(), x);
            let r = t.push(last);
            assert forall|i: int, j: int| 0 <= i < j < r.len() implies !entry_before(
                #[trigger] r[j],
                #[trigger] r[i],
            ) by {
                if j == r.len() - 1 {
                    let e = t[i];
                    assert(t.to_multiset().count(e) > 0);
                    assert(s.drop_last().to_multiset().insert(x).count(e) > 0);
                    if e == x {
                        lemma_entry_order(x, last, x);
                    } else {
                        assert(s.drop_last().to_multiset().count(e) > 0);
                        assert(s.drop_last().contains(e));
                        let k = choose|k: int| 0 <= k < s.drop_last().len() && s.drop_last()[k] == e;
                        assert(s[k] == e);
                        assert(!entry_before(s[s.len() - 1], s[k]));
                    }
                }
            }
        } else {
            let r = s.push(x);
            assert forall|i: int, j: int| 0 <= i < j < r.len() implies !entry_before(
                #[trigger] r[j],
                #[trigger] r[i],
            ) by {
                if j == r.len() - 1 && i < s.len() - 1 {
                    assert(!entry_before(s[s.len() - 1], s[i]));
                    lemma_entry_order(x, last, s[i]);
                }
            }
        }
    }
}

/// Law: the listing holds the same entries as the tree (a permutation of
/// them) and never shows an entry before one that sorts ahead of it.
pub proof fn lemma_sorted_entries(s: Seq<TreeEntry>)
    ensures
        sorted_entries(s).to_multiset() == s.to_multiset(),
        in_listing_order(sorted_entries(s)),
    decreases s.len(),
{
    broadcast use vstd::seq_lib::group_to_multiset_ensures;

    if s.len() > 0 {
        lemma_sorted_entries(s.drop_last());
        lemma_insert_entry_multiset(sorted_entries(s.drop_last()), s.last());
        lemma_insert_entry_sorted(sorted_entries(s.drop_last()), s.last());
        assert(s.drop_last().push(s.last()) =~= s);
    }
}

/// The name shown for an entry: its file name if it is valid UTF-8,
/// otherwise `"Invalid file name"`.
pub open spec fn display_name(name: Seq<u8>) -> Seq<char> {
    if valid_utf8(name) {
        decode_utf8(name)
    } else {
        "Invalid file name"@
    }
}

/// The name an entry is listed under.
pub fn entry_display_name(name: &Vec<u8>) -> (r: String)
    ensures
        r@ == display_name(name@),
{
    match str_from_utf8(name.as_slice()) {
        Some(t) => String::from_str(t),
        None => String::from_str("Invalid file name"),
    }
}

/// The path of an entry below a directory path: the name alone at the root,
/// otherwise `prefix/name`.
pub open spec fn joined_path(prefix: Seq<char>, name: Seq<char>) -> Seq<char> {
    if prefix.len() == 0 {
        name
    } else {
        prefix + "/"@ + name
    }
}

/// Joins a directory path and an entry name.
pub fn join_path(prefix: &str, name: &str) -> (r: String)
    ensures
        r@ == joined_path(prefix@, name@),
{
    if prefix.is_empty() {
        String::from_str(name)
    } else {
        let mut r = String::from_str(prefix);
        r.append("/");
        r.append(name);
        r
    }
}

/// The first component of a path and the rest after the first `/`, as
/// `split_once('/')` gives them.
pub open spec fn path_head(p: Seq<char>) -> (Seq<char>, Option<Seq<char>>) {
    match char_from(p, 0, '/') {
        Some(k) => (p.take(k), Some(p.skip(k + 1))),
        None => (p, None),
    }
}

/// Index of the first entry, at or after `i`, whose file name is `name`.
pub open spec fn entry_named_from(entries: Seq<TreeEntry>, name: Seq<u8>, i: int) -> Option<int>
    decreases entries.len() - i,
{
    if i < 0 || i >= entries.len() {
        None
    } else if entries[i].name@ == name {
        Some(i)
    } else {
        entry_named_from(entries, name, i + 1)
    }
}

/// What a path lookup in a tree is after.
#[derive(Clone, Copy, PartialEq, Eq, Structural, Debug)]
pub enum Want {
    /// A file (regular or executable) whose content is read
    File,
    /// A directory whose listing is shown
    Directory,
}

/// The next move of a lookup in one tree.
pub enum LookupStep {
    /// Go into the directory entry at `index` and look up `rest` there
    Descend { index: usize, rest: String },
    /// The file is the entry at this index
    Found(usize),
    /// The current tree is the directory looked for
    Here,
}

/// Why a lookup fails.
#[derive(Clone, Copy, PartialEq, Eq, Structural, Debug)]
pub enum LookupError {
    /// No such entry, or a file where the path goes on (not found)
    NotFound,
    /// The entry is not of the kind looked for (bad request)
    WrongKind,
}

/// Mathematical view of a [`LookupStep`].
pub enum StepModel {
    Descend(int, Seq<char>),
    Found(int),
    Here,
}

/// The next move of a lookup of `path` in a tree with these entries. A file
/// lookup takes the first path component: it must name an entry; if more
/// path follows, that entry must be a directory; otherwise it must be a
/// file. A directory lookup (whose paths end in `/`) stops here when no `/`
/// is left, and otherwise descends into the named entry, which must be a
/// directory.
pub open spec fn lookup(entries: Seq<TreeEntry>, path: Seq<char>, want: Want) -> Result<StepModel, LookupError> {
    let (head, rest) = path_head(path);
    let named = entry_named_from(entries, encode_utf8(head), 0);
    match want {
        Want::File => match named {
            None => Err(LookupError::NotFound),
            Some(i) => match rest {
                Some(r) => if entries[i].kind == EntryKind::Tree {
                    Ok(StepModel::Descend(i, r))
                } else {
                    Err(LookupError::NotFound)
                },
                None => if entries[i].kind == EntryKind::Blob || entries[i].kind
                    == EntryKind::BlobExecutable {
                    Ok(StepModel::Found(i))
                } else {
                    Err(LookupError::WrongKind)
                },
            },
        },
        Want::Directory => match rest {
            None => Ok(StepModel::Here),
            Some(r) => match named {
                None => Err(LookupError::NotFound),
                Some(i) => if entries[i].kind == EntryKind::Tree {
                    Ok(StepModel::Descend(i, r))
                } else {
                    Err(LookupError::WrongKind)
                },
            },
        },
    }
}

fn bytes_equal(a: &Vec<u8>, b: &[u8]) -> (r: bool)
    ensures
        r == (a@ == b@),
{
    if a.len() != b.len() {
        return false;
    }
    let mut i: usize = 0;
    while i < a.len()
        invariant
            i <= a@.len() == b@.len(),
            forall|k: int| 0 <= k < i ==> a@[k] == b@[k],
        decreases a@.len() - i,
    {
        if a[i] != b[i] {
            return false;
        }
        i += 1;
    }
    assert(a@ =~= b@);
    true
}

fn find_entry(entries: &[TreeEntry], name: &[u8]) -> (r: Option<usize>)
    ensures
        r matches Some(i) ==> entry_named_from(entries@, name@, 0) == Some(i as int) && i
            < entries@.len(),
        r is None ==> entry_named_from(entries@, name@, 0) is None,
{
    let mut i: usize = 0;
    while i < entries.len()
        invariant
            i <= entries@.len(),
            entry_named_from(entries@, name@, 0) == entry_named_from(entries@, name@, i as int),
        decreases entries@.len() - i,
    {
        if bytes_equal(&entries[i].name, name) {
            return Some(i);
        }
        i += 1;
    }
    None
}

/// One step of resolving a path inside a tree.
pub fn lookup_step(entries: &[TreeEntry], path: &str, want: Want) -> (r: Result<LookupStep, LookupError>)
    ensures
        match lookup(entries@, path@, want) {
            Ok(StepModel::Descend(i, rest)) => r matches Ok(LookupStep::Descend { index, rest: x })
                && index == i && x@ == rest,
            Ok(StepModel::Found(i)) => r matches Ok(LookupStep::Found(index)) && index == i,
            Ok(StepModel::Here) => r matches Ok(LookupStep::Here),
            Err(e) => r matches Err(x) && x == e,
        },
{
    let cs = chars_of(path);
    let split = find_char(&cs, 0, '/');
    let head_end = match split {
        Some(k) => k,
        None => cs.len(),
    };
    assert(cs@.subrange(0, head_end as int) =~= path_head(path@).0);
    let head = string_of_range(&cs, 0, head_end);
    let named = find_entry(entries, head.as_str().as_bytes());
    match want {
        Want::File => {
            let i = match named {
                Some(i) => i,
                None => return Err(LookupError::NotFound),
            };
            match split {
                Some(k) => {
                    if entries[i].kind == EntryKind::Tree {
                        assert(cs@.subrange(k + 1, cs@.len() as int) =~= cs@.skip(k + 1));
                        Ok(LookupStep::Descend { index: i, rest: string_of_range(&cs, k + 1, cs.len()) })
                    } else {
                        Err(LookupError::NotFound)
                    }
                },
                None => {
                    if entries[i].kind == EntryKind::Blob || entries[i].kind == EntryKind::BlobExecutable {
                        Ok(LookupStep::Found(i))
                    } else {
                        Err(LookupError::WrongKind)
                    }
                },
            }
        },
        Want::Directory => {
            match split {
                None => Ok(LookupStep::Here),
                Some(k) => {
                    let i = match named {
                        Some(i) => i,
                        None => return Err(LookupError::NotFound),
                    };
                    if entries[i].kind == EntryKind::Tree {
                        assert(cs@.subrange(k + 1, cs@.len() as int) =~= cs@.skip(k + 1));
                        Ok(LookupStep::Descend { index: i, rest: string_of_range(&cs, k + 1, cs.len()) })
                    } else {
                        Err(LookupError::WrongKind)
                    }
                },
            }
        },
    }
}

} // verus!
