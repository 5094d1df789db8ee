//! Rules for creating, importing, forking and validating repositories:
//! names, descriptions, namespaces, import sources and the texts written
//! for a new repository.

use vstd::prelude::*;
use vstd::string::StringExecFns;
use crate::text::{chars_of, text_is};
use crate::url::{parse_url, parsed_url};

verus! {

/// Why a repository cannot be created, imported or forked as asked.
#[derive(Clone, Copy, PartialEq, Eq, Structural, Debug)]
pub enum RepoError {
    /// Importing is switched off on this instance
    ImportDisabled,
    /// The name is empty, longer than 32 characters, or has a character
    /// other than `a-z`, `0-9`, `_`, `-`
    MalformedName,
    /// The name is reserved
    ReservedName,
    /// The name cannot be a directory name
    IllegalName,
    /// The description is longer than 256 bytes
    DescriptionTooLong,
    /// The import URL does not parse
    UnparsableUrl,
    /// The import URL is neither `http` nor `https`
    UnsupportedScheme,
    /// The import URL carries a username or password
    CredentialsInUrl,
    /// Mirroring was asked for
    MirrorNotImplemented,
    /// Only one of username and password was given
    PartialCredentials,
    /// The namespace is an organisation that the user is not a member of
    NotOrgMember,
    /// The namespace is neither the user nor an organisation
    NamespaceNotFound,
    /// The namespace already has a repository of that name
    NameInUse,
    /// A repository would be forked into its own namespace
    ForkIntoOwnNamespace,
    /// The namespace a fork goes into already has a repository of that name
    ForkNameInUse,
}

/// The message that the service answers an error with.
pub open spec fn error_message(e: RepoError) -> Seq<char> {
    match e {
        RepoError::ImportDisabled => "Importing is disabled on this instance"@,
        RepoError::MalformedName => "Repository name must be between 1 and 32 characters long and may only contain a-z, 0-9, _ or -"@,
        RepoError::ReservedName => "Repository name is a reserved identifier"@,
        RepoError::IllegalName => "Repository name is illegal"@,
        RepoError::DescriptionTooLong => "Description may only be up to 256 characters long"@,
        RepoError::UnparsableUrl => "Unable to parse import url"@,
        RepoError::UnsupportedScheme => "Importing is only supported from `http` or `https` urls"@,
        RepoError::CredentialsInUrl => "Username and password is not allowed directly in the clone url"@,
        RepoError::MirrorNotImplemented => "Mirroring is not yet implemented"@,
        RepoError::PartialCredentials => "Either provide both username or password or leave both blank"@,
        RepoError::NotOrgMember => "You are not a member of this organization"@,
        RepoError::NamespaceNotFound => "Namespace not found or you do not have access to it"@,
        RepoError::NameInUse => "Repository name already in use for this namespace"@,
        RepoError::ForkIntoOwnNamespace => "Cannot fork your own repository into the same namespace"@,
        RepoError::ForkNameInUse => "Repository name already in use in this namespace"@,
    }
}

impl RepoError {
    /// The message that the service answers this error with.
    pub fn message(&self) -> (r: String)
        ensures
            r@ == error_message(*self),
    {
        String::from_str(match self {
            RepoError::ImportDisabled => "Importing is disabled on this instance",
            RepoError::MalformedName => "Repository name must be between 1 and 32 characters long and may only contain a-z, 0-9, _ or -",
            RepoError::ReservedName => "Repository name is a reserved identifier",
            RepoError::IllegalName => "Repository name is illegal",
            RepoError::DescriptionTooLong => "Description may only be up to 256 characters long",
            RepoError::UnparsableUrl => "Unable to parse import url",
            RepoError::UnsupportedScheme => "Importing is only supported from `http` or `https` urls",
            RepoError::CredentialsInUrl => "Username and password is not allowed directly in the clone url",
            RepoError::MirrorNotImplemented => "Mirroring is not yet implemented",
            RepoError::PartialCredentials => "Either provide both username or password or leave both blank",
            RepoError::NotOrgMember => "You are not a member of this organization",
            RepoError::NamespaceNotFound => "Namespace not found or you do not have access to it",
            RepoError::NameInUse => "Repository name already in use for this namespace",
            RepoError::ForkIntoOwnNamespace => "Cannot fork your own repository into the same namespace",
            RepoError::ForkNameInUse => "Repository name already in use in this namespace",
        })
    }
}

/// The characters a repository name may hold: `a-z`, `0-9`, `_` and `-`.
pub open spec fn is_name_char(c: char) -> bool {
    ('a' <= c && c <= 'z') || ('0' <= c && c <= '9') || c == '_' || c == '-'
}

/// Whether a repository name has 1 to 32 characters, all of them allowed.
pub open spec fn name_well_formed(name: Seq<char>) -> bool {
    0 < name.len() <= 32 && forall|i: int| 0 <= i < name.len() ==> #[trigger] is_name_char(name[i])
}

/// The first rule a repository name breaks, if any: its form, then whether
/// it is reserved, then whether it can be a directory name (`reserved` and
/// `fs_legal` are what the service's identifier rules say of the name).
pub open spec fn name_problem(name: Seq<char>, reserved: bool, fs_legal: bool) -> Option<RepoError> {
    if !name_well_formed(name) {
        Some(RepoError::MalformedName)
    } else if reserved {
        Some(RepoError::ReservedName)
    } else if !fs_legal {
        Some(RepoError::IllegalName)
    } else {
        None
    }
}

fn name_char(c: char) -> (b: bool)
    ensures
        b == is_name_char(c),
{
    ('a' <= c && c <= 'z') || ('0' <= c && c <= '9') || c == '_' || c == '-'
}

/// Checks a repository name; see [`name_problem`].
pub fn check_repo_name(name: &str, reserved: bool, fs_legal: bool) -> (r: Option<RepoError>)
    ensures
        r == name_problem(name@, reserved, fs_legal),
{
    let cs = chars_of(name);
    if cs.len() == 0 || cs.len() > 32 {
        return Some(RepoError::MalformedName);
    }
    let mut i: usize = 0;
    while i < cs.len()
        invariant
            i <= cs@.len(),
            cs@ == name@,
            forall|k: int| 0 <= k < i ==> #[trigger] is_name_char(cs@[k]),
        decreases cs@.len() - i,
    {
        if !name_char(cs[i]) {
            return Some(RepoError::MalformedName);
        }
        i += 1;
    }
    if reserved {
        Some(RepoError::ReservedName)
    } else if !fs_legal {
        Some(RepoError::IllegalName)
    } else {
        None
    }
}

/// Whether a description is at most 256 bytes long in UTF-8.
pub open spec fn description_fits(description: Seq<char>) -> bool {
    vstd::utf8::encode_utf8(description).len() <= 256
}

/// Checks the length of a description; see [`description_fits`].
pub fn check_description(description: &str) -> (b: bool)
    ensures
        b == description_fits(description@),
{
    description.as_bytes().len() <= 256
}

/// What a new repository's name and description are refused for, in the
/// order the service checks them.
pub open spec fn new_repo_problem(name: Seq<char>, reserved: bool, fs_legal: bool, description: Seq<char>) -> Option<RepoError> {
    match name_problem(name, reserved, fs_legal) {
        Some(e) => Some(e),
        None => if description_fits(description) {
            None
        } else {
            Some(RepoError::DescriptionTooLong)
        },
    }
}

/// Checks the name and description of a repository to be created.
pub fn check_new_repo(name: &str, reserved: bool, fs_legal: bool, description: &str) -> (r: Result<(), RepoError>)
    ensures
        match new_repo_problem(name@, reserved, fs_legal, description@) {
            Some(e) => r == Err::<(), RepoError>(e),
            None => r is Ok,
        },
{
    match check_repo_name(name, reserved, fs_legal) {
        Some(e) => Err(e),
        None => if check_description(description) {
            Ok(())
        } else {
            Err(RepoError::DescriptionTooLong)
        },
    }
}

/// Whose namespace a repository is created in.
#[derive(Clone, Copy, PartialEq, Eq, Structural, Debug)]
pub enum Namespace {
    /// The signed-in user's own
    User,
    /// An organisation's
    Organization,
}

/// Decides the namespace of a new repository: the user's own when it is
/// named by the user's name; otherwise an organisation of that name, which
/// the user must be a member of. `organization` is `None` when no
/// organisation has that name, else whether the user is a member of it.
pub fn choose_namespace(namespace: &str, username: &str, organization: Option<bool>) -> (r: Result<Namespace, RepoError>)
    ensures
        namespace@ == username@ ==> r == Ok::<Namespace, RepoError>(Namespace::User),
        namespace@ != username@ ==> r == match organization {
            Some(true) => Ok::<Namespace, RepoError>(Namespace::Organization),
            Some(false) => Err(RepoError::NotOrgMember),
            None => Err(RepoError::NamespaceNotFound),
        },
{
    let ns = chars_of(namespace);
    if text_is(ns.as_slice(), username) {
        Ok(Namespace::User)
    } else {
        match organization {
            Some(true) => Ok(Namespace::Organization),
            Some(false) => Err(RepoError::NotOrgMember),
            None => Err(RepoError::NamespaceNotFound),
        }
    }
}

/// What the service makes of an import request before it touches the
/// database: the name and description rules, then the import URL (it must
/// parse, be `http` or `https` and carry no credentials), then no mirroring
/// (`mirror` is whether mirroring is asked for; false asks for a plain import),
/// then username and password both given or both absent. The source that is
/// imported is the URL as the `url` crate writes it.
pub open spec fn import_outcome(
    enabled: bool,
    name: Seq<char>,
    reserved: bool,
    fs_legal: bool,
    description: Seq<char>,
    url: Seq<char>,
    mirror: bool,
    has_username: bool,
    has_password: bool,
) -> Result<Seq<char>, RepoError> {
    if !enabled {
        Err(RepoError::ImportDisabled)
    } else if new_repo_problem(name, reserved, fs_legal, description) is Some {
        Err(new_repo_problem(name, reserved, fs_legal, description).unwrap())
    } else {
        match parsed_url(url) {
            None => Err(RepoError::UnparsableUrl),
            Some((serialization, scheme, username, password, _, _)) => if scheme != "http"@ && scheme != "https"@ {
                Err(RepoError::UnsupportedScheme)
            } else if username.len() != 0 || password {
                Err(RepoError::CredentialsInUrl)
            } else if mirror {
                Err(RepoError::MirrorNotImplemented)
            } else if has_username != has_password {
                Err(RepoError::PartialCredentials)
            } else {
                Ok(serialization)
            },
        }
    }
}

/// Checks an import request (see [`import_outcome`]) and gives the source
/// URL to import from.
pub fn check_import(
    enabled: bool,
    name: &str,
    reserved: bool,
    fs_legal: bool,
    description: &str,
    import_url: &str,
    mirror: Option<bool>,
    username: Option<&str>,
    password: Option<&str>,
) -> (r: Result<String, RepoError>)
    ensures
        match import_outcome(enabled, name@, reserved, fs_legal, description@, import_url@, mirror == Some(true), username is Some, password is Some) {
            Ok(s) => r matches Ok(t) && t@ == s,
            Err(e) => r == Err::<String, RepoError>(e),
        },
{
    if !enabled {
        return Err(RepoError::ImportDisabled);
    }
    match check_new_repo(name, reserved, fs_legal, description) {
        Err(e) => {
            return Err(e);
        },
        Ok(()) => {},
    }
    let url = match parse_url(import_url) {
        Some(u) => u,
        None => {
            return Err(RepoError::UnparsableUrl);
        },
    };
    let scheme = chars_of(url.scheme.as_str());
    if !text_is(scheme.as_slice(), "http") && !text_is(scheme.as_slice(), "https") {
        return Err(RepoError::UnsupportedScheme);
    }
    if !url.username.as_str().is_empty() || url.has_password {
        return Err(RepoError::CredentialsInUrl);
    }
    match mirror {
        Some(true) => {
            return Err(RepoError::MirrorNotImplemented);
        },
        _ => {},
    }
    if username.is_some() != password.is_some() {
        return Err(RepoError::PartialCredentials);
    }
    Ok(url.serialization)
}

/// The README written into a new repository: its name as a heading, then
/// its description.
pub open spec fn readme_text(name: Seq<char>, description: Seq<char>) -> Seq<char> {
    "# "@ + name + "\n\n"@ + description + "\n"@
}

/// Writes the README of a new repository; see [`readme_text`].
pub fn readme(name: &str, description: &str) -> (r: String)
    ensures
        r@ == readme_text(name@, description@),
{
    let mut s = String::from_str("# ");
    s.append(name);
    s.append("\n\n");
    s.append(description);
    s.append("\n");
    s
}

/// The address of a repository: the instance domain, the owner and the name.
pub open spec fn repo_address(domain: Seq<char>, owner: Seq<char>, name: Seq<char>) -> Seq<char> {
    domain + "/"@ + owner + "/"@ + name
}

/// Writes the address of a repository; see [`repo_address`].
pub fn repo_url(domain: &str, owner: &str, name: &str) -> (r: String)
    ensures
        r@ == repo_address(domain@, owner@, name@),
{
    let mut s = String::from_str(domain);
    s.append("/");
    s.append(owner);
    s.append("/");
    s.append(name);
    s
}

/// Decides whether a fork may go into the target namespace: not into the
/// namespace that owns the repository. The fork belongs to an organisation
/// when the target is not the user; the result says whether it does.
pub fn fork_target(repo_owner: Option<u128>, target_id: u128, user_id: u128) -> (r: Result<bool, RepoError>)
    ensures
        repo_owner == Some(target_id) ==> r == Err::<bool, RepoError>(RepoError::ForkIntoOwnNamespace),
        repo_owner != Some(target_id) ==> r == Ok::<bool, RepoError>(target_id != user_id),
{
    match repo_owner {
        Some(o) => if o == target_id {
            return Err(RepoError::ForkIntoOwnNamespace);
        },
        None => {},
    }
    Ok(target_id != user_id)
}

/// The query that tells whether a namespace (its id bound as `$1`) already
/// has a repository of a name (bound as `$2`), compared case-insensitively:
/// among the repositories of an organisation or of a user.
pub open spec fn name_in_use_query_text(org: bool) -> Seq<char> {
    "select exists(select 1 from repositories where "@ + (if org {
        "owner_org"@
    } else {
        "owner_user"@
    }) + " = $1 and lower(name) = lower($2) limit 1)"@
}

/// Writes the name-in-use query; see [`name_in_use_query_text`].
pub fn name_in_use_query(org: bool) -> (r: String)
    ensures
        r@ == name_in_use_query_text(org),
{
    let mut s = String::from_str("select exists(select 1 from repositories where ");
    if org {
        s.append("owner_org");
    } else {
        s.append("owner_user");
    }
    s.append(" = $1 and lower(name) = lower($2) limit 1)");
    s
}

/// What a fork request comes to: refused into the namespace that owns the
/// repository, then refused when the target namespace already has a
/// repository of the same name (case-insensitively, as
/// [`name_in_use_query_text`] asks it for an organisation when the target
/// is not the user); otherwise whether the fork belongs to an organisation.
pub open spec fn fork_outcome(repo_owner: Option<u128>, target_id: u128, user_id: u128, name_taken: bool) -> Result<bool, RepoError> {
    if repo_owner == Some(target_id) {
        Err(RepoError::ForkIntoOwnNamespace)
    } else if name_taken {
        Err(RepoError::ForkNameInUse)
    } else {
        Ok(target_id != user_id)
    }
}

/// Decides a fork request; see [`fork_outcome`]. `name_taken` is the
/// answer of the name-in-use query for the target namespace and the
/// repository's name.
pub fn check_fork(repo_owner: Option<u128>, target_id: u128, user_id: u128, name_taken: bool) -> (r: Result<bool, RepoError>)
    ensures
        r == fork_outcome(repo_owner, target_id, user_id, name_taken),
{
    let org = fork_target(repo_owner, target_id, user_id)?;
    if name_taken {
        Err(RepoError::ForkNameInUse)
    } else {
        Ok(org)
    }
}

/// The answer to a validation request: per-field messages, if any.
pub struct ValidateResponse {
    pub valid: bool,
    pub name: Option<String>,
    pub description: Option<String>,
}

/// The message for the name field: the first rule it breaks, or, when it
/// breaks none, that it is taken (`taken` is whether the namespace already
/// has a repository of that name).
pub open spec fn name_field_error(name: Seq<char>, reserved: bool, fs_legal: bool, taken: bool) -> Option<Seq<char>> {
    match name_problem(name, reserved, fs_legal) {
        Some(e) => Some(error_message(e)),
        None => if taken {
            Some(error_message(RepoError::NameInUse))
        } else {
            None
        },
    }
}

/// The message for the description field, which is only checked when given.
pub open spec fn description_field_error(description: Option<&str>) -> Option<Seq<char>> {
    match description {
        Some(d) => if description_fits(d@) {
            None
        } else {
            Some(error_message(RepoError::DescriptionTooLong))
        },
        None => None,
    }
}

/// Validates a candidate name and description, per field.
pub fn validate(name: &str, reserved: bool, fs_legal: bool, taken: bool, description: Option<&str>) -> (r: ValidateResponse)
    ensures
        (match r.name {
            Some(m) => Some(m@),
            None => None,
        }) == name_field_error(name@, reserved, fs_legal, taken),
        (match r.description {
            Some(m) => Some(m@),
            None => None,
        }) == description_field_error(description),
        r.valid == (r.name is None && r.description is None),
{
    let name_error = match check_repo_name(name, reserved, fs_legal) {
        Some(e) => Some(e.message()),
        None => if taken {
            Some(RepoError::NameInUse.message())
        } else {
            None
        },
    };
    let description_error = match description {
        Some(d) => if check_description(d) {
            None
        } else {
            Some(RepoError::DescriptionTooLong.message())
        },
        None => None,
    };
    let valid = name_error.is_none() && description_error.is_none();
    ValidateResponse { valid, name: name_error, description: description_error }
}

/// Law: a repository name passes exactly when it has 1 to 32 characters,
/// each a lowercase ASCII letter, a digit, `_` or `-`, and it is neither
/// reserved nor unusable as a directory name; an uppercase letter or a
/// space anywhere makes it malformed.
pub proof fn lemma_repo_name_rules(name: Seq<char>, reserved: bool, fs_legal: bool)
    ensures
        name_problem(name, reserved, fs_legal) is None <==> (1 <= name.len() <= 32 && (forall|i: int|
            0 <= i < name.len() ==> ('a' <= #[trigger] name[i] <= 'z') || ('0' <= name[i] <= '9') || name[i]
                == '_' || name[i] == '-') && !reserved && fs_legal),
        (exists|i: int| 0 <= i < name.len() && (('A' <= #[trigger] name[i] <= 'Z') || name[i] == ' ')) ==> name_problem(
            name,
            reserved,
            fs_legal,
        ) == Some(RepoError::MalformedName),
        name.len() == 0 || name.len() > 32 ==> name_problem(name, reserved, fs_legal) == Some(RepoError::MalformedName),
{
    if exists|i: int| 0 <= i < name.len() && (('A' <= #[trigger] name[i] <= 'Z') || name[i] == ' ') {
        let i = choose|i: int| 0 <= i < name.len() && (('A' <= #[trigger] name[i] <= 'Z') || name[i] == ' ');
        assert(!is_name_char(name[i]));
    }
    if 1 <= name.len() <= 32 && (forall|i: int|
        0 <= i < name.len() ==> ('a' <= #[trigger] name[i] <= 'z') || ('0' <= name[i] <= '9') || name[i] == '_'
            || name[i] == '-') {
        assert forall|i: int| 0 <= i < name.len() implies #[trigger] is_name_char(name[i]) by {
            assert(('a' <= name[i] <= 'z') || ('0' <= name[i] <= '9') || name[i] == '_' || name[i] == '-');
        }
    }
    if name_well_formed(name) {
        assert forall|i: int| 0 <= i < name.len() implies ('a' <= #[trigger] name[i] <= 'z') || ('0' <= name[i]
            <= '9') || name[i] == '_' || name[i] == '-' by {
            assert(is_name_char(name[i]));
        }
    }
}

/// Law: an import is accepted only when importing is on, the name and
/// description pass, the URL parses as an `http` or `https` URL without
/// credentials, mirroring is not asked for, and username and password are
/// both given or both absent; the source is then the URL as written by the
/// `url` crate. Asking for no mirror never refuses as mirroring.
pub proof fn lemma_import_rules(
    enabled: bool,
    name: Seq<char>,
    reserved: bool,
    fs_legal: bool,
    description: Seq<char>,
    url: Seq<char>,
    mirror: bool,
    has_username: bool,
    has_password: bool,
)
    ensures
        ({
            let r = import_outcome(enabled, name, reserved, fs_legal, description, url, mirror, has_username, has_password);
            &&& !enabled ==> r == Err::<Seq<char>, RepoError>(RepoError::ImportDisabled)
            &&& r matches Ok(src) ==> {
                &&& enabled
                &&& new_repo_problem(name, reserved, fs_legal, description) is None
                &&& !mirror
                &&& has_username == has_password
                &&& parsed_url(url) matches Some(p) && (p.1 == "http"@ || p.1 == "https"@) && p.2.len() == 0 && !p.3
                    && src == p.0
            }
            &&& !mirror ==> r != Err::<Seq<char>, RepoError>(RepoError::MirrorNotImplemented)
        }),
{
}

/// Law: a fork is accepted only outside the namespace that owns the
/// repository and when that namespace has no repository of the name; it
/// then belongs to an organisation exactly when the target is not the user.
pub proof fn lemma_fork_rules(repo_owner: Option<u128>, target_id: u128, user_id: u128, name_taken: bool)
    ensures
        fork_outcome(repo_owner, target_id, user_id, name_taken) matches Ok(org) ==> repo_owner != Some(target_id)
            && !name_taken && (org <==> target_id != user_id),
        repo_owner == Some(target_id) ==> fork_outcome(repo_owner, target_id, user_id, name_taken) is Err,
        name_taken ==> fork_outcome(repo_owner, target_id, user_id, name_taken) is Err,
{
}

} // verus!
