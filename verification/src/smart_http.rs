//! The smart HTTP transport of Git: which service a client asks for, the
//! headers each request must carry, and who may fetch or push.

use vstd::prelude::*;
use crate::text::{chars_of, text_is, trim, trimmed};

verus! {

/// Why a Git HTTP request is refused.
#[derive(Clone, Copy, PartialEq, Eq, Structural, Debug)]
pub enum GitHttpError {
    /// The client named no service ("Dumb clients are not supported")
    DumbClient,
    /// The service is neither upload-pack nor receive-pack
    ServiceNotFound,
    /// The content type or accepted type is not the service's
    BadRequest,
    /// The client does not speak protocol version 2
    UnsupportedProtocol,
    /// No such repository, or the user may not see it
    NotFound,
    /// The user may see the repository but not push to it
    NoPushPermission,
    /// The repository is archived and read-only
    ArchivedReadOnly,
}

/// A Git service.
#[derive(Clone, Copy, PartialEq, Eq, Structural, Debug)]
pub enum GitService {
    UploadPack,
    ReceivePack,
}

/// The service a `service` query parameter asks for, trimmed.
pub open spec fn service_named(service: Option<Seq<char>>) -> Result<GitService, GitHttpError> {
    match service {
        None => Err(GitHttpError::DumbClient),
        Some(s) => if trim(s) == "git-upload-pack"@ {
            Ok(GitService::UploadPack)
        } else if trim(s) == "git-receive-pack"@ {
            Ok(GitService::ReceivePack)
        } else {
            Err(GitHttpError::ServiceNotFound)
        },
    }
}

/// The service of a reference advertisement request; see [`service_named`].
pub fn git_service(service: Option<&str>) -> (r: Result<GitService, GitHttpError>)
    ensures
        r == service_named(match service {
            Some(s) => Some(s@),
            None => None,
        }),
{
    match service {
        None => Err(GitHttpError::DumbClient),
        Some(s) => {
            let t = trimmed(s);
            let cs = chars_of(t.as_str());
            if text_is(cs.as_slice(), "git-upload-pack") {
                Ok(GitService::UploadPack)
            } else if text_is(cs.as_slice(), "git-receive-pack") {
                Ok(GitService::ReceivePack)
            } else {
                Err(GitHttpError::ServiceNotFound)
            }
        },
    }
}

/// The text of an optional header, or the empty text when it is absent.
pub open spec fn header_text(h: Option<&str>) -> Seq<char> {
    match h {
        Some(v) => v@,
        None => Seq::empty(),
    }
}

fn header_is(h: Option<&str>, expected: &str) -> (r: bool)
    ensures
        r == (header_text(h) == expected@),
{
    match h {
        Some(v) => {
            let cs = chars_of(v);
            text_is(cs.as_slice(), expected)
        },
        None => {
            let cs: Vec<char> = Vec::new();
            assert(cs@ =~= Seq::<char>::empty());
            text_is(cs.as_slice(), expected)
        },
    }
}

/// Whether a client speaks protocol version 2 (`git-protocol: version=2`).
pub fn speaks_v2(git_protocol: Option<&str>) -> (r: bool)
    ensures
        r == (header_text(git_protocol) == "version=2"@),
{
    header_is(git_protocol, "version=2")
}

/// Checks the headers of an upload-pack (fetch) request: the request and
/// result types of upload-pack, then protocol version 2.
pub fn check_upload_pack_headers(content_type: Option<&str>, accept: Option<&str>, git_protocol: Option<&str>) -> (r: Result<(), GitHttpError>)
    ensures
        r == (if header_text(content_type) != "application/x-git-upload-pack-request"@ || header_text(accept)
            != "application/x-git-upload-pack-result"@ {
            Err(GitHttpError::BadRequest)
        } else if header_text(git_protocol) != "version=2"@ {
            Err(GitHttpError::UnsupportedProtocol)
        } else {
            Ok(())
        }),
{
    if !header_is(content_type, "application/x-git-upload-pack-request") || !header_is(accept, "application/x-git-upload-pack-result") {
        Err(GitHttpError::BadRequest)
    } else if !speaks_v2(git_protocol) {
        Err(GitHttpError::UnsupportedProtocol)
    } else {
        Ok(())
    }
}

/// Checks the headers of a receive-pack (push) request: the request and
/// result types of receive-pack.
pub fn check_receive_pack_headers(content_type: Option<&str>, accept: Option<&str>) -> (r: Result<(), GitHttpError>)
    ensures
        r == (if header_text(content_type) != "application/x-git-receive-pack-request"@ || header_text(accept)
            != "application/x-git-receive-pack-result"@ {
            Err(GitHttpError::BadRequest)
        } else {
            Ok(())
        }),
{
    if !header_is(content_type, "application/x-git-receive-pack-request") || !header_is(accept, "application/x-git-receive-pack-result") {
        Err(GitHttpError::BadRequest)
    } else {
        Ok(())
    }
}

/// Who may push: the repository must exist and be visible to the user
/// (otherwise it is reported as missing, so that its existence does not
/// leak), the user must be allowed to push, and it must not be archived.
pub open spec fn push_outcome(found: bool, has_access: bool, can_push: bool, archived: bool) -> Result<(), GitHttpError> {
    if !found || !has_access {
        Err(GitHttpError::NotFound)
    } else if !can_push {
        Err(GitHttpError::NoPushPermission)
    } else if archived {
        Err(GitHttpError::ArchivedReadOnly)
    } else {
        Ok(())
    }
}

/// Decides a push; see [`push_outcome`].
pub fn check_push(found: bool, has_access: bool, can_push: bool, archived: bool) -> (r: Result<(), GitHttpError>)
    ensures
        r == push_outcome(found, has_access, can_push, archived),
{
    if !found || !has_access {
        Err(GitHttpError::NotFound)
    } else if !can_push {
        Err(GitHttpError::NoPushPermission)
    } else if archived {
        Err(GitHttpError::ArchivedReadOnly)
    } else {
        Ok(())
    }
}

/// Decides a fetch: the repository must exist and be visible to the user,
/// and is reported as missing otherwise.
pub fn check_fetch(found: bool, has_access: bool) -> (r: Result<(), GitHttpError>)
    ensures
        r == (if found && has_access {
            Ok(())
        } else {
            Err(GitHttpError::NotFound)
        }),
{
    if found && has_access {
        Ok(())
    } else {
        Err(GitHttpError::NotFound)
    }
}

/// Decides a receive-pack reference advertisement: only for an existing
/// repository the user may push to; anything else is reported as missing.
pub fn check_receive_advertisement(found: bool, can_push: bool) -> (r: Result<(), GitHttpError>)
    ensures
        r == (if found && can_push {
            Ok(())
        } else {
            Err(GitHttpError::NotFound)
        }),
{
    if found && can_push {
        Ok(())
    } else {
        Err(GitHttpError::NotFound)
    }
}

/// A user who may not see a repository is answered exactly as if it did not
/// exist, whatever else holds, when pushing and when fetching.
pub proof fn lemma_hidden_repositories_look_missing(can_push: bool, archived: bool)
    ensures
        push_outcome(true, false, can_push, archived) == push_outcome(false, false, can_push, archived),
        push_outcome(true, false, can_push, archived) == Err::<(), GitHttpError>(GitHttpError::NotFound),
{
}

/// Law: a push is accepted only for a repository that exists, that the
/// user may see and push to, and that is not archived; a fetch only for one
/// that exists and that the user may see.
pub proof fn lemma_transport_rules(found: bool, has_access: bool, can_push: bool, archived: bool, service: Option<Seq<char>>)
    ensures
        push_outcome(found, has_access, can_push, archived) is Ok <==> (found && has_access && can_push && !archived),
        !found ==> push_outcome(found, has_access, can_push, archived) == Err::<(), GitHttpError>(GitHttpError::NotFound),
        found && has_access && !can_push ==> push_outcome(found, has_access, can_push, archived) == Err::<(), GitHttpError>(
            GitHttpError::NoPushPermission,
        ),
        service is None ==> service_named(service) == Err::<GitService, GitHttpError>(GitHttpError::DumbClient),
        service matches Some(s) ==> (service_named(service) == Ok::<GitService, GitHttpError>(GitService::UploadPack)
            <==> trim(s) == "git-upload-pack"@),
        service matches Some(s) ==> (service_named(service) == Ok::<GitService, GitHttpError>(GitService::ReceivePack)
            <==> trim(s) == "git-receive-pack"@),
{
    reveal_strlit("git-upload-pack");
    reveal_strlit("git-receive-pack");
    assert("git-upload-pack"@ != "git-receive-pack"@) by {
        assert("git-upload-pack"@[4] != "git-receive-pack"@[4]);
    }
}

} // verus!
