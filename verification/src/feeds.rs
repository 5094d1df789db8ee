//! Who sees which events: the visibility conditions of the user feed and
//! the contribution calendar, and who may read an organisation's audit log.

use vstd::prelude::*;
use vstd::string::StringExecFns;
use crate::org::{role_allows, OrgRole};
use crate::releases::hex_text;

verus! {

/// The text of a UUID as `Display` writes it: lowercase hexadecimal in
/// groups of 8, 4, 4, 4 and 12 digits joined by `-`.
pub open spec fn hyphenated(b: Seq<u8>) -> Seq<char> {
    hex_text(b.subrange(0, 4)) + "-"@ + hex_text(b.subrange(4, 6)) + "-"@ + hex_text(b.subrange(6, 8)) + "-"@
        + hex_text(b.subrange(8, 10)) + "-"@ + hex_text(b.subrange(10, 16))
}

/// `Uuid::from_bytes` written with `to_string`: the hyphenated lowercase
/// form, as the `uuid` documentation shows it.
#[verifier::external_body]
fn uuid_text(id: [u8; 16]) -> (r: String)
    ensures
        r@ == hyphenated(id@),
{
    uuid::Uuid::from_bytes(id).to_string()
}

/// Whose events a viewer looks at, as the feeds tell them apart.
pub enum Audience {
    /// The user looks at their own events
    Own,
    /// Another signed-in user, by id
    SignedIn([u8; 16]),
    /// An anonymous visitor
    Anonymous,
}

/// Who a viewer is to the user whose events are shown.
pub fn audience(viewer: Option<[u8; 16]>, target: [u8; 16]) -> (r: Audience)
    ensures
        match viewer {
            None => r is Anonymous,
            Some(v) => if v@ == target@ {
                r is Own
            } else {
                r matches Audience::SignedIn(x) && x@ == v@
            },
        },
{
    match viewer {
        None => Audience::Anonymous,
        Some(v) => {
            let mut i: usize = 0;
            while i < 16
                invariant
                    i <= 16,
                    viewer == Some(v),
                    forall|k: int| 0 <= k < i ==> v@[k] == target@[k],
                decreases 16 - i,
            {
                if v[i] != target[i] {
                    assert(v@[i as int] != target@[i as int]);
                    return Audience::SignedIn(v);
                }
                i += 1;
            }
            assert(v@ =~= target@);
            Audience::Own
        },
    }
}

/// The condition on the repository of an event in a user's feed: the user
/// sees everything; another signed-in user sees events without repository
/// and those of public and internal repositories, and of private ones they
/// own, belong to through an organisation or collaborate on; anonymous
/// visitors only events without repository or of public ones. `vid` is the
/// text of the signed-in viewer's id.
pub open spec fn feed_clause(a: Audience, vid: Seq<char>) -> Seq<char> {
    match a {
        Audience::Own => Seq::empty(),
        Audience::SignedIn(_) => "and (r.visibility is null or r.visibility = 'public' or (r.visibility = 'internal') or (r.visibility = 'private' and (r.owner_user = '"@
            + vid + "' or exists (select 1 from organization_members om join repositories ro on ro.owner_org = om.org_id where om.user_id = '"@
            + vid + "' and ro.id = e.subject_id_repo) or exists (select 1 from privileges p where p.repo_id = e.subject_id_repo and p.user_id = '"@
            + vid + "'))))"@,
        Audience::Anonymous => "and (r.visibility is null or r.visibility = 'public')"@,
    }
}

/// The visibility condition of the user feed query; see [`feed_clause`].
pub fn feed_privacy_clause(a: &Audience) -> (r: String)
    ensures
        r@ == feed_clause(*a, match a {
            Audience::SignedIn(v) => hyphenated(v@),
            _ => Seq::empty(),
        }),
{
    match a {
        Audience::Own => String::new(),
        Audience::SignedIn(v) => {
            let vid = uuid_text(*v);
            let mut s = String::from_str("and (r.visibility is null or r.visibility = 'public' or (r.visibility = 'internal') or (r.visibility = 'private' and (r.owner_user = '");
            s.append(vid.as_str());
            s.append("' or exists (select 1 from organization_members om join repositories ro on ro.owner_org = om.org_id where om.user_id = '");
            s.append(vid.as_str());
            s.append("' and ro.id = e.subject_id_repo) or exists (select 1 from privileges p where p.repo_id = e.subject_id_repo and p.user_id = '");
            s.append(vid.as_str());
            s.append("'))))");
            s
        },
        Audience::Anonymous => String::from_str("and (r.visibility is null or r.visibility = 'public')"),
    }
}

/// The condition on the repository of a contribution, whose repository id
/// is in `column`: the user sees everything; another signed-in user sees
/// contributions without repository and to repositories that are not
/// private, and to private ones they own, belong to through an
/// organisation or collaborate on; anonymous visitors everything but
/// private repositories.
pub open spec fn contribution_clause(a: Audience, vid: Seq<char>, column: Seq<char>) -> Seq<char> {
    match a {
        Audience::Own => Seq::empty(),
        Audience::SignedIn(_) => "and (r.visibility is null or r.visibility != 'private' or r.owner_user = '"@ + vid
            + "' or exists (select 1 from organization_members om join repositories ro on ro.owner_org = om.org_id where om.user_id = '"@
            + vid + "' and ro.id = "@ + column + ") or exists (select 1 from privileges p where p.repo_id = "@ + column
            + " and p.user_id = '"@ + vid + "'))"@,
        Audience::Anonymous => "and (r.visibility is null or r.visibility != 'private')"@,
    }
}

/// The visibility condition of the contribution queries, for events
/// (`e.subject_id_repo`) and for commits (`cc.repo_id`); see
/// [`contribution_clause`].
pub fn contribution_privacy_clause(a: &Audience, column: &str) -> (r: String)
    ensures
        r@ == contribution_clause(*a, match a {
            Audience::SignedIn(v) => hyphenated(v@),
            _ => Seq::empty(),
        }, column@),
{
    match a {
        Audience::Own => String::new(),
        Audience::SignedIn(v) => {
            let vid = uuid_text(*v);
            let mut s = String::from_str("and (r.visibility is null or r.visibility != 'private' or r.owner_user = '");
            s.append(vid.as_str());
            s.append("' or exists (select 1 from organization_members om join repositories ro on ro.owner_org = om.org_id where om.user_id = '");
            s.append(vid.as_str());
            s.append("' and ro.id = ");
            s.append(column);
            s.append(") or exists (select 1 from privileges p where p.repo_id = ");
            s.append(column);
            s.append(" and p.user_id = '");
            s.append(vid.as_str());
            s.append("'))");
            s
        },
        Audience::Anonymous => String::from_str("and (r.visibility is null or r.visibility != 'private')"),
    }
}

/// The event types that count as contributions.
pub open spec fn contribution_types() -> Seq<Seq<char>> {
    seq!["issue.opened"@, "issue.closed"@, "pr.opened"@, "pr.merged"@, "pr.reviewed"@]
}

/// The list of contribution types as the event query writes it: each in
/// single quotes, joined by `, `.
pub fn contribution_type_list() -> (r: String)
    ensures
        r@ == "'"@ + contribution_types()[0] + "', '"@ + contribution_types()[1] + "', '"@ + contribution_types()[2] + "', '"@
            + contribution_types()[3] + "', '"@ + contribution_types()[4] + "'"@,
{
    let mut s = String::from_str("'");
    s.append("issue.opened");
    s.append("', '");
    s.append("issue.closed");
    s.append("', '");
    s.append("pr.opened");
    s.append("', '");
    s.append("pr.merged");
    s.append("', '");
    s.append("pr.reviewed");
    s.append("'");
    s
}

/// Whether a member may read an organisation's audit log: admins and owners.
pub fn may_read_org_audit_log(role: Option<OrgRole>) -> (r: bool)
    ensures
        r == role_allows(role, OrgRole::Admin),
{
    match role {
        Some(OrgRole::Owner) | Some(OrgRole::Admin) => true,
        _ => false,
    }
}

/// Law: users see all of their own events and contributions, unfiltered,
/// and what anonymous visitors see does not depend on any viewer id.
pub proof fn lemma_audiences(v: Seq<char>, w: Seq<char>, column: Seq<char>, id: [u8; 16])
    ensures
        feed_clause(Audience::Own, v).len() == 0,
        contribution_clause(Audience::Own, v, column).len() == 0,
        feed_clause(Audience::Anonymous, v) == feed_clause(Audience::Anonymous, w),
        contribution_clause(Audience::Anonymous, v, column) == contribution_clause(Audience::Anonymous, w, column),
        feed_clause(Audience::SignedIn(id), v) != feed_clause(Audience::Anonymous, v),
{
    reveal_strlit("and (r.visibility is null or r.visibility = 'public')");
    reveal_strlit("and (r.visibility is null or r.visibility = 'public' or (r.visibility = 'internal') or (r.visibility = 'private' and (r.owner_user = '");
    let a = feed_clause(Audience::SignedIn(id), v);
    let b = feed_clause(Audience::Anonymous, v);
    assert(a[50] != b[50] || a.len() != b.len());
}

} // verus!
