//! Tags of a repository: which references are tags, their names, and the
//! order the tag list is shown in (newest first).

use vstd::prelude::*;
use vstd::string::StringExecFns;
use crate::contributions::{day_in_range, epoch_day};
use crate::text::{chars_of, string_from_utf8_lossy, string_of_range, utf8_lossy};

verus! {

/// `s` without the prefix `p`, if it starts with it.
pub open spec fn strip_prefix(s: Seq<char>, p: Seq<char>) -> Option<Seq<char>> {
    if p.len() <= s.len() && s.take(p.len() as int) == p {
        Some(s.skip(p.len() as int))
    } else {
        None
    }
}

/// The name of a tag from its reference name (as raw bytes, read as UTF-8
/// with invalid sequences replaced): what follows `refs/tags/`, or nothing
/// for a reference that is not a tag.
pub fn tag_name(reference: &[u8]) -> (r: Option<String>)
    ensures
        match strip_prefix(utf8_lossy(reference@), "refs/tags/"@) {
            Some(n) => r matches Some(s) && s@ == n,
            None => r is None,
        },
{
    let text = string_from_utf8_lossy(reference);
    let cs = chars_of(text.as_str());
    let prefix = chars_of("refs/tags/");
    if prefix.len() > cs.len() {
        return None;
    }
    let mut i: usize = 0;
    while i < prefix.len()
        invariant
            i <= prefix@.len() <= cs@.len(),
            prefix@ == "refs/tags/"@,
            cs@ == utf8_lossy(reference@),
            forall|k: int| 0 <= k < i ==> cs@[k] == prefix@[k],
        decreases prefix@.len() - i,
    {
        if cs[i] != prefix[i] {
            assert(cs@.take(prefix@.len() as int)[i as int] != prefix@[i as int]);
            return None;
        }
        i += 1;
    }
    assert(cs@.take(prefix@.len() as int) =~= prefix@);
    assert(cs@.subrange(prefix@.len() as int, cs@.len() as int) =~= cs@.skip(prefix@.len() as int));
    Some(string_of_range(cs.as_slice(), prefix.len(), cs.len()))
}

/// The reference of a tag to delete: `refs/tags/` and its name.
pub fn tag_reference_name(tag: &str) -> (r: String)
    ensures
        r@ == "refs/tags/"@ + tag@,
{
    let mut s = String::from_str("refs/tags/");
    s.append(tag);
    s
}

/// A tag as the tag list shows it.
pub struct TagInfo {
    pub name: String,
    /// The id of the commit it points to
    pub commit: String,
    /// The first line of that commit's message
    pub commit_message: String,
    pub author_name: String,
    pub author_email: String,
    /// The commit time, in seconds since 1970
    pub timestamp: i64,
    /// Whether it is an annotated tag (rather than a lightweight one)
    pub annotated: bool,
    /// The message of an annotated tag
    pub message: Option<String>,
}

/// The time a tag is dated at, in seconds since 1970: its commit time, or
/// 1970 itself when that time is beyond what `chrono` can represent (as
/// `timestamp_opt(..).single().unwrap_or(UNIX_EPOCH)` gives it).
pub open spec fn tag_date(timestamp: int) -> int {
    if day_in_range(timestamp / 86_400 + epoch_day()) {
        timestamp
    } else {
        0
    }
}

/// The date of a tag; see [`tag_date`].
pub fn tag_date_of(timestamp: i64) -> (r: i64)
    ensures
        r == tag_date(timestamp as int),
{
    let days: i64 = timestamp / 86_400 - (if timestamp % 86_400 < 0 { 1i64 } else { 0i64 });
    assert(days == timestamp as int / 86_400);
    if days + 719_163 >= -95_746_129 && days + 719_163 < 95_745_400 {
        timestamp
    } else {
        0
    }
}

/// Whether tag `a` is listed before tag `b`: it is strictly newer.
pub open spec fn tag_before(a: TagInfo, b: TagInfo) -> bool {
    tag_date(a.timestamp as int) > tag_date(b.timestamp as int)
}

/// Inserts `x` into a tag list after every tag it is not newer than.
pub open spec fn insert_tag(s: Seq<TagInfo>, x: TagInfo) -> Seq<TagInfo>
    decreases s.len(),
{
    if s.len() == 0 {
        seq![x]
    } else if tag_before(x, s.last()) {
        insert_tag(s.drop_last(), x).push(s.last())
    } else {
        s.push(x)
    }
}

/// The order of the tag list: a stable sort, newest first, as `sort_by`
/// with the dates compared in reverse gives it.
pub open spec fn sorted_tags(s: Seq<TagInfo>) -> Seq<TagInfo>
    decreases s.len(),
{
    if s.len() == 0 {
        s
    } else {
        insert_tag(sorted_tags(s.drop_last()), s.last())
    }
}

proof fn lemma_insert_tag_at(s: Seq<TagInfo>, x: TagInfo, k: int)
    requires
        0 <= k <= s.len(),
        forall|j: int| k <= j < s.len() ==> tag_before(x, #[trigger] s[j]),
        k > 0 ==> !tag_before(x, s[k - 1]),
    ensures
        insert_tag(s, x) == s.insert(k, x),
    decreases s.len(),
{
    if s.len() == 0 {
        assert(s.insert(k, x) =~= seq![x]);
    } else if k == s.len() {
        assert(s.insert(k, x) =~= s.push(x));
    } else {
        assert(tag_before(x, s[s.len() - 1]));
        lemma_insert_tag_at(s.drop_last(), x, k);
        assert(s.drop_last().insert(k, x).push(s.last()) =~= s.insert(k, x));
    }
}

/// Sorts the tag list newest first; tags of the same date keep their order.
pub fn sort_tags(tags: Vec<TagInfo>) -> (r: Vec<TagInfo>)
    ensures
        r@ == sorted_tags(tags@),
{
    let ghost orig = tags@;
    let total = tags.len();
    let mut rest = tags;
    let mut r: Vec<TagInfo> = Vec::new();
    let mut n: usize = 0;
    assert(orig.take(0) =~= Seq::<TagInfo>::empty());
    while rest.len() > 0
        invariant
            n + rest@.len() == orig.len(),
            orig.len() == total,
            rest@ == orig.skip(n as int),
            r@ == sorted_tags(orig.take(n as int)),
        decreases rest@.len(),
    {
        let x = rest.remove(0);
        assert(x == orig[n as int]);
        assert(rest@ =~= orig.skip(n + 1));
        let xd = tag_date_of(x.timestamp);
        let mut k = r.len();
        while k > 0 && xd > tag_date_of(r[k - 1].timestamp)
            invariant
                k <= r@.len(),
                xd == tag_date(x.timestamp as int),
                forall|j: int| k <= j < r@.len() ==> tag_before(x, #[trigger] r@[j]),
            decreases k,
        {
            k -= 1;
        }
        proof {
            lemma_insert_tag_at(r@, x, k as int);
            assert(orig.take(n + 1).drop_last() =~= orig.take(n as int));
        }
        r.insert(k, x);
        n += 1;
    }
    assert(orig.take(n as int) =~= orig);
    r
}

/// Whether a tag list is newest first.
pub open spec fn newest_first(s: Seq<TagInfo>) -> bool {
    forall|i: int, j: int| 0 <= i < j < s.len() ==> tag_date((#[trigger] s[i]).timestamp as int) >= tag_date((#[trigger] s[j]).timestamp as int)
}

proof fn lemma_insert_tag_multiset(s: Seq<TagInfo>, x: TagInfo)
    ensures
        insert_tag(s, x).to_multiset() == s.to_multiset().insert(x),
    decreases s.len(),
{
    broadcast use vstd::seq_lib::group_to_multiset_ensures;

    if s.len() == 0 {
        assert(seq![x] =~= Seq::<TagInfo>::empty().push(x));
    } else if tag_before(x, s.last()) {
        lemma_insert_tag_multiset(s.drop_last(), x);
        assert(s.drop_last().push(s.last()) =~= s);
    }
}

proof fn lemma_insert_tag_sorted(s: Seq<TagInfo>, x: TagInfo)
    requires
        newest_first(s),
    ensures
        newest_first(insert_tag(s, x)),
    decreases s.len(),
{
    broadcast use vstd::seq_lib::group_to_multiset_ensures;

    if s.len() > 0 {
        let last = s.last();
        if tag_before(x, last) {
            let t = insert_tag(s.drop_last(), x);
            lemma_insert_tag_sorted(s.drop_last(), x);
            lemma_insert_tag_multiset(s.drop_last(), x);
            let r = t.push(last);
            assert forall|i: int, j: int| 0 <= i < j < r.len() implies tag_date((#[trigger] r[i]).timestamp as int) >= tag_date(
                (#[trigger] r[j]).timestamp as int,
            ) by {
                if j == r.len() - 1 {
                    let e = t[i];
                    assert(t.to_multiset().count(e) > 0);
                    assert(s.drop_last().to_multiset().insert(x).count(e) > 0);
                    if e != x {
                        assert(s.drop_last().to_multiset().count(e) > 0);
                        assert(s.drop_last().contains(e));
                        let k = choose|k: int| 0 <= k < s.drop_last().len() && s.drop_last()[k] == e;
                        assert(s[k] == e);
                        assert(tag_date(s[k].timestamp as int) >= tag_date(s[s.len() - 1].timestamp as int));
                    }
                }
            }
        } else {
            let r = s.push(x);
            assert forall|i: int, j: int| 0 <= i < j < r.len() implies tag_date((#[trigger] r[i]).timestamp as int) >= tag_date(
                (#[trigger] r[j]).timestamp as int,
            ) by {
                if j == r.len() - 1 && i < s.len() - 1 {
                    assert(tag_date(s[i].timestamp as int) >= tag_date(s[s.len() - 1].timestamp as int));
                }
            }
        }
    }
}

/// Sorting keeps the tags (the list is a reordering of them) and lists
/// them newest first.
pub proof fn lemma_sorted_tags(s: Seq<TagInfo>)
    ensures
        sorted_tags(s).to_multiset() == s.to_multiset(),
        newest_first(sorted_tags(s)),
    decreases s.len(),
{
    broadcast use vstd::seq_lib::group_to_multiset_ensures;

    if s.len() > 0 {
        lemma_sorted_tags(s.drop_last());
        lemma_insert_tag_multiset(sorted_tags(s.drop_last()), s.last());
        lemma_insert_tag_sorted(sorted_tags(s.drop_last()), s.last());
        assert(s.drop_last().push(s.last()) =~= s);
    }
}

/// The reference a tag is deleted by is the one its name is read from:
/// reading the name back from the reference of a tag gives the tag.
pub proof fn lemma_tag_reference_round_trip(tag: Seq<char>)
    ensures
        strip_prefix("refs/tags/"@ + tag, "refs/tags/"@) == Some(tag),
{
    let p = "refs/tags/"@;
    assert((p + tag).take(p.len() as int) =~= p);
    assert((p + tag).skip(p.len() as int) =~= tag);
}

/// Law: stripping a prefix gives the rest exactly when the text is the
/// prefix followed by that rest.
pub proof fn lemma_strip_prefix(s: Seq<char>, p: Seq<char>, r: Seq<char>)
    ensures
        strip_prefix(s, p) == Some(r) <==> s == p + r,
{
    if s == p + r {
        assert(s.take(p.len() as int) =~= p);
        assert(s.skip(p.len() as int) =~= r);
    }
    if strip_prefix(s, p) == Some(r) {
        assert(s =~= s.take(p.len() as int) + s.skip(p.len() as int));
    }
}

} // verus!
