//! Finding a repository: whose namespace a name is, where a repository
//! lives on disk, and when a repository is reported as missing.

use vstd::prelude::*;
use vstd::string::StringExecFns;

verus! {

/// The owner of a repository: its owning user, else its owning organisation.
pub fn repo_owner(owner_user: Option<u128>, owner_org: Option<u128>) -> (r: Option<u128>)
    ensures
        r == (if owner_user is Some {
            owner_user
        } else {
            owner_org
        }),
{
    match owner_user {
        Some(u) => Some(u),
        None => owner_org,
    }
}

/// The owner a namespace names: a user of that name, else an organisation
/// of that name, else nobody.
pub fn namespace_owner(user: Option<u128>, organization: Option<u128>) -> (r: Option<u128>)
    ensures
        r == (if user is Some {
            user
        } else {
            organization
        }),
{
    match user {
        Some(u) => Some(u),
        None => organization,
    }
}

/// The directory of a repository: the base directory, the namespace and
/// the repository's name, joined by `/`.
pub open spec fn repo_dir(base_dir: Seq<char>, namespace: Seq<char>, name: Seq<char>) -> Seq<char> {
    base_dir + "/"@ + namespace + "/"@ + name
}

/// Writes the directory of a repository; see [`repo_dir`].
pub fn repo_fs_path(base_dir: &str, namespace: &str, name: &str) -> (r: String)
    ensures
        r@ == repo_dir(base_dir@, namespace@, name@),
{
    let mut s = String::from_str(base_dir);
    s.append("/");
    s.append(namespace);
    s.append("/");
    s.append(name);
    s
}

/// Whether a looked-up repository is handed to a request: it must exist
/// and the requester must have access; a repository the requester may not
/// see is reported exactly as a missing one.
pub fn repo_visible(found: bool, has_access: bool) -> (r: bool)
    ensures
        r == (found && has_access),
{
    found && has_access
}

/// The credentials an import clones with: the username and password when
/// both are given, else none (the default credentials).
pub fn import_credentials(username: Option<String>, password: Option<String>) -> (r: Option<(String, String)>)
    ensures
        match (username, password) {
            (Some(u), Some(p)) => r matches Some((a, b)) && a@ == u@ && b@ == p@,
            _ => r is None,
        },
{
    match (username, password) {
        (Some(u), Some(p)) => Some((u, p)),
        _ => None,
    }
}

/// How often a failed import is retried.
pub fn import_max_retries() -> (r: i32)
    ensures
        r == 3,
{
    3
}

/// The event recorded when a repository is archived or brought back.
pub fn archive_event(archive: bool) -> (r: &'static str)
    ensures
        r@ == (if archive {
            "repo.archived"@
        } else {
            "repo.unarchived"@
        }),
{
    if archive {
        "repo.archived"
    } else {
        "repo.unarchived"
    }
}

/// Law: a repository's directory lies below the base directory, in the
/// directory of its namespace, under the repository's name.
pub proof fn lemma_repo_dir(base_dir: Seq<char>, namespace: Seq<char>, name: Seq<char>)
    ensures
        ({
            let p = repo_dir(base_dir, namespace, name);
            &&& p.take(base_dir.len() as int) == base_dir
            &&& p[base_dir.len() as int] == '/'
            &&& p.subrange(base_dir.len() + 1int, base_dir.len() + 1int + namespace.len()) == namespace
            &&& p[base_dir.len() + 1int + namespace.len()] == '/'
            &&& p.skip(p.len() - name.len()) == name
            &&& p.len() == base_dir.len() + namespace.len() + name.len() + 2
        }),
{
    reveal_strlit("/");
    let p = repo_dir(base_dir, namespace, name);
    assert(p.take(base_dir.len() as int) =~= base_dir);
    assert(p.subrange(base_dir.len() + 1int, base_dir.len() + 1int + namespace.len()) =~= namespace);
    assert(p.skip(p.len() - name.len()) =~= name);
}

} // verus!
