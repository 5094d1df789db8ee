//! Finding the README of a tree: the first entry whose name, lowercased,
//! starts with `readme`.

use vstd::prelude::*;
use vstd::utf8::*;
use vstd::string::StringExecFns;
use bstr::ByteSlice;
use crate::text::str_from_utf8;
use crate::tree::{display_name, entry_display_name, TreeEntry};

verus! {

/// The lowercase form of a byte string as `bstr` makes it: each character
/// lowercased, invalid UTF-8 left as it is.
pub uninterp spec fn bytes_lowercase(bytes: Seq<u8>) -> Seq<u8>;

/// `ByteSlice::to_lowercase` of the `bstr` crate; its result is named by
/// [`bytes_lowercase`].
#[verifier::external_body]
fn lowercase_bytes(bytes: &[u8]) -> (r: Vec<u8>)
    ensures
        r@ == bytes_lowercase(bytes@),
{
    bytes.to_lowercase()
}

/// The bytes of `readme`.
pub open spec fn readme_prefix() -> Seq<u8> {
    seq![0x72u8, 0x65u8, 0x61u8, 0x64u8, 0x6du8, 0x65u8]
}

/// Whether a file name is that of a README: lowercased, it starts with `readme`.
pub open spec fn is_readme_name(name: Seq<u8>) -> bool {
    let l = bytes_lowercase(name);
    l.len() >= 6 && l.take(6) == readme_prefix()
}

/// The index of the first README among entries, from index `i` on.
pub open spec fn readme_from(entries: Seq<TreeEntry>, i: int) -> Option<int>
    decreases entries.len() - i,
{
    if i < 0 || i >= entries.len() {
        None
    } else if is_readme_name(entries[i].name@) {
        Some(i)
    } else {
        readme_from(entries, i + 1)
    }
}

proof fn lemma_readme_from_in_bounds(entries: Seq<TreeEntry>, j: int)
    ensures
        readme_from(entries, j) matches Some(i) ==> j <= i < entries.len(),
    decreases entries.len() - j,
{
    if 0 <= j < entries.len() && !is_readme_name(entries[j].name@) {
        lemma_readme_from_in_bounds(entries, j + 1);
    }
}

fn readme_name(name: &Vec<u8>) -> (r: bool)
    ensures
        r == is_readme_name(name@),
{
    let l = lowercase_bytes(name.as_slice());
    if l.len() < 6 {
        return false;
    }
    let r = l[0] == 0x72 && l[1] == 0x65 && l[2] == 0x61 && l[3] == 0x64 && l[4] == 0x6d && l[5] == 0x65;
    assert(r == (l@.take(6) =~= readme_prefix()));
    r
}

/// The index of the first entry that is a README, in the order of the tree.
pub fn find_readme(entries: &[TreeEntry]) -> (r: Option<usize>)
    ensures
        match readme_from(entries@, 0) {
            Some(i) => r == Some(i as usize),
            None => r is None,
        },
        r matches Some(i) ==> i < entries@.len(),
{
    proof {
        lemma_readme_from_in_bounds(entries@, 0);
    }
    let mut i: usize = 0;
    while i < entries.len()
        invariant
            i <= entries@.len(),
            readme_from(entries@, 0) == readme_from(entries@, i as int),
        decreases entries@.len() - i,
    {
        if readme_name(&entries[i].name) {
            return Some(i);
        }
        i += 1;
    }
    None
}

/// The README shown for a tree: the name of its first README entry (or
/// `Invalid file name` when that name is not UTF-8), and the entry's index;
/// nothing when the tree has no README.
pub fn readme_entry(entries: &[TreeEntry]) -> (r: Option<(usize, String)>)
    ensures
        match readme_from(entries@, 0) {
            Some(i) => r matches Some((k, n)) && k == i && n@ == display_name(entries@[i].name@),
            None => r is None,
        },
{
    proof {
        lemma_readme_from_in_bounds(entries@, 0);
    }
    match find_readme(entries) {
        Some(i) => Some((i, entry_display_name(&entries[i].name))),
        None => None,
    }
}

/// Whether a repository is empty and the name of its README, as its
/// overview reports them: a repository whose default branch does not exist
/// is empty; otherwise the first README entry of its tree is named when
/// that name is valid UTF-8.
pub fn readme_overview(branch_found: bool, entries: &[TreeEntry]) -> (r: (bool, Option<String>))
    ensures
        !branch_found ==> r.0 && r.1 is None,
        branch_found ==> !r.0 && match readme_from(entries@, 0) {
            Some(i) => if valid_utf8(entries@[i].name@) {
                r.1 matches Some(n) && n@ == decode_utf8(entries@[i].name@)
            } else {
                r.1 is None
            },
            None => r.1 is None,
        },
{
    if !branch_found {
        return (true, None);
    }
    proof {
        lemma_readme_from_in_bounds(entries@, 0);
    }
    match find_readme(entries) {
        Some(i) => match str_from_utf8(entries[i].name.as_slice()) {
            Some(t) => (false, Some(String::from_str(t))),
            None => (false, None),
        },
        None => (false, None),
    }
}

/// Law: the README found is the first entry, in tree order, whose name is
/// that of a README: every entry before it is not one, and when none is
/// found no entry is one.
pub proof fn lemma_first_readme(entries: Seq<TreeEntry>)
    ensures
        readme_from(entries, 0) matches Some(i) ==> 0 <= i < entries.len() && is_readme_name(entries[i].name@)
            && forall|j: int| 0 <= j < i ==> !is_readme_name(#[trigger] entries[j].name@),
        readme_from(entries, 0) is None ==> forall|j: int| 0 <= j < entries.len() ==> !is_readme_name(
            #[trigger] entries[j].name@,
        ),
{
    lemma_readme_from_first(entries, 0);
}

proof fn lemma_readme_from_first(entries: Seq<TreeEntry>, k: int)
    requires
        0 <= k,
    ensures
        readme_from(entries, k) matches Some(i) ==> k <= i < entries.len() && is_readme_name(entries[i].name@)
            && forall|j: int| k <= j < i ==> !is_readme_name(#[trigger] entries[j].name@),
        readme_from(entries, k) is None ==> forall|j: int| k <= j < entries.len() ==> !is_readme_name(
            #[trigger] entries[j].name@,
        ),
    decreases entries.len() - k,
{
    if k < entries.len() && !is_readme_name(entries[k].name@) {
        lemma_readme_from_first(entries, k + 1);
    }
}

} // verus!
