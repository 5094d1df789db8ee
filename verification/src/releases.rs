//! Releases and their assets: the checks in front of each request, the
//! tag a release is made from, how an update changes a release, and the
//! hash recorded for an uploaded asset.

use vstd::prelude::*;
use vstd::string::StringExecFns;
use sha2::Digest;

verus! {

/// Why a release or asset request is refused.
#[derive(Clone, Copy, PartialEq, Eq, Structural, Debug)]
pub enum ReleaseError {
    /// The repository is archived and read-only
    Archived,
    /// The user may not push to the repository
    InsufficientPermissions,
    /// Object storage is not configured
    StorageUnavailable,
    /// There is no such release in the repository
    ReleaseNotFound,
    /// There is no such asset (or its release is not in the repository)
    AssetNotFound,
    /// The repository has no release that is not a pre-release
    NoRelease,
    /// The asset has not been uploaded yet
    NotUploaded,
}

/// Checks a change to a release (create, update, delete): not in an
/// archived repository, and only by those who may push; updates and
/// deletions also need the release to exist (`exists` is `None` for a new
/// release).
pub fn check_release_change(archived: bool, can_push: bool, exists: Option<bool>) -> (r: Result<(), ReleaseError>)
    ensures
        r == (if archived {
            Err(ReleaseError::Archived)
        } else if !can_push {
            Err(ReleaseError::InsufficientPermissions)
        } else if exists == Some(false) {
            Err(ReleaseError::ReleaseNotFound)
        } else {
            Ok(())
        }),
{
    if archived {
        Err(ReleaseError::Archived)
    } else if !can_push {
        Err(ReleaseError::InsufficientPermissions)
    } else if exists == Some(false) {
        Err(ReleaseError::ReleaseNotFound)
    } else {
        Ok(())
    }
}

/// The reference of a tag: `refs/tags/` and its name.
pub open spec fn tag_reference(tag: Seq<char>) -> Seq<char> {
    "refs/tags/"@ + tag
}

/// Writes the reference of a tag; see [`tag_reference`].
pub fn tag_ref(tag: &str) -> (r: String)
    ensures
        r@ == tag_reference(tag@),
{
    let mut s = String::from_str("refs/tags/");
    s.append(tag);
    s
}

/// The message of the tag made for a new release: its description, or its
/// title when it has none.
pub fn tag_message<'a>(title: &'a str, description: Option<&'a str>) -> (r: &'a str)
    ensures
        r@ == match description {
            Some(d) => d@,
            None => title@,
        },
{
    match description {
        Some(d) => d,
        None => title,
    }
}

/// Whether a new release is a pre-release: only when asked.
pub fn pre_release_of(asked: Option<bool>) -> (r: bool)
    ensures
        r == (asked == Some(true)),
{
    match asked {
        Some(b) => b,
        None => false,
    }
}

/// Whether a release is the latest one: the newest that is not a
/// pre-release, if any.
pub fn is_latest(latest_id: Option<u128>, id: u128) -> (r: bool)
    ensures
        r == (latest_id == Some(id)),
{
    match latest_id {
        Some(l) => l == id,
        None => false,
    }
}

/// A field that an update of a release changes.
#[derive(Clone, Copy, PartialEq, Eq, Structural, Debug)]
pub enum ReleaseChange {
    Title,
    Description,
    PreRelease,
}

/// The changes an update asks for, in the order they are written: title,
/// description, pre-release flag, each when given.
pub fn release_changes(title: bool, description: bool, pre_release: bool) -> (r: Vec<ReleaseChange>)
    ensures
        r@ == (if title {
            seq![ReleaseChange::Title]
        } else {
            Seq::empty()
        }) + (if description {
            seq![ReleaseChange::Description]
        } else {
            Seq::empty()
        }) + (if pre_release {
            seq![ReleaseChange::PreRelease]
        } else {
            Seq::empty()
        }),
{
    let mut r: Vec<ReleaseChange> = Vec::new();
    if title {
        r.push(ReleaseChange::Title);
    }
    if description {
        r.push(ReleaseChange::Description);
    }
    if pre_release {
        r.push(ReleaseChange::PreRelease);
    }
    assert(r@ =~= (if title {
        seq![ReleaseChange::Title]
    } else {
        Seq::empty()
    }) + (if description {
        seq![ReleaseChange::Description]
    } else {
        Seq::empty()
    }) + (if pre_release {
        seq![ReleaseChange::PreRelease]
    } else {
        Seq::empty()
    }));
    r
}

/// Checks a request to add an asset to a release: not in an archived
/// repository, with object storage, only by those who may push, to a
/// release of the repository.
pub fn check_create_asset(archived: bool, storage: bool, can_push: bool, release_exists: bool) -> (r: Result<(), ReleaseError>)
    ensures
        r == (if archived {
            Err(ReleaseError::Archived)
        } else if !storage {
            Err(ReleaseError::StorageUnavailable)
        } else if !can_push {
            Err(ReleaseError::InsufficientPermissions)
        } else if !release_exists {
            Err(ReleaseError::ReleaseNotFound)
        } else {
            Ok(())
        }),
{
    if archived {
        Err(ReleaseError::Archived)
    } else if !storage {
        Err(ReleaseError::StorageUnavailable)
    } else if !can_push {
        Err(ReleaseError::InsufficientPermissions)
    } else if !release_exists {
        Err(ReleaseError::ReleaseNotFound)
    } else {
        Ok(())
    }
}

/// Checks a request to confirm an uploaded asset: with object storage,
/// only by those who may push, for an asset of the given release where that
/// release belongs to the repository (`release_in_repo`), and whose object
/// has been uploaded. Archived repositories are not checked here.
pub fn check_confirm_asset(storage: bool, can_push: bool, release_in_repo: bool, asset_exists: bool, uploaded: bool) -> (r: Result<(), ReleaseError>)
    ensures
        r == (if !storage {
            Err(ReleaseError::StorageUnavailable)
        } else if !can_push {
            Err(ReleaseError::InsufficientPermissions)
        } else if !release_in_repo || !asset_exists {
            Err(ReleaseError::AssetNotFound)
        } else if !uploaded {
            Err(ReleaseError::NotUploaded)
        } else {
            Ok(())
        }),
{
    if !storage {
        Err(ReleaseError::StorageUnavailable)
    } else if !can_push {
        Err(ReleaseError::InsufficientPermissions)
    } else if !release_in_repo || !asset_exists {
        Err(ReleaseError::AssetNotFound)
    } else if !uploaded {
        Err(ReleaseError::NotUploaded)
    } else {
        Ok(())
    }
}

/// Checks a download of an asset: with object storage, for an available
/// asset of a release of the repository (anyone may download).
pub fn check_download_asset(storage: bool, asset_available: bool, release_exists: bool) -> (r: Result<(), ReleaseError>)
    ensures
        r == (if !storage {
            Err(ReleaseError::StorageUnavailable)
        } else if !asset_available || !release_exists {
            Err(ReleaseError::AssetNotFound)
        } else {
            Ok(())
        }),
{
    if !storage {
        Err(ReleaseError::StorageUnavailable)
    } else if !asset_available || !release_exists {
        Err(ReleaseError::AssetNotFound)
    } else {
        Ok(())
    }
}

/// Checks a request to delete an asset: not in an archived repository,
/// with object storage, only by those who may push, for an asset of a
/// release of the repository.
pub fn check_delete_asset(archived: bool, storage: bool, can_push: bool, release_exists: bool, asset_exists: bool) -> (r: Result<(), ReleaseError>)
    ensures
        r == (if archived {
            Err(ReleaseError::Archived)
        } else if !storage {
            Err(ReleaseError::StorageUnavailable)
        } else if !can_push {
            Err(ReleaseError::InsufficientPermissions)
        } else if !release_exists || !asset_exists {
            Err(ReleaseError::AssetNotFound)
        } else {
            Ok(())
        }),
{
    if archived {
        Err(ReleaseError::Archived)
    } else if !storage {
        Err(ReleaseError::StorageUnavailable)
    } else if !can_push {
        Err(ReleaseError::InsufficientPermissions)
    } else if !release_exists || !asset_exists {
        Err(ReleaseError::AssetNotFound)
    } else {
        Ok(())
    }
}

/// The SHA-256 digest of a byte string.
pub uninterp spec fn sha256_of(data: Seq<u8>) -> Seq<u8>;

/// `Sha256::digest` of the `sha2` crate: the 32-byte digest, named by
/// [`sha256_of`].
#[verifier::external_body]
fn sha256(data: &[u8]) -> (r: Vec<u8>)
    ensures
        r@ == sha256_of(data@),
        r@.len() == 32,
{
    sha2::Sha256::digest(data).to_vec()
}

/// The lowercase hexadecimal digit of a value below sixteen.
pub open spec fn hex_digit(v: int) -> char {
    if v < 10 {
        (48 + v) as char
    } else {
        (87 + v) as char
    }
}

/// The lowercase hexadecimal text of bytes: two digits per byte, high
/// half first.
pub open spec fn hex_text(bytes: Seq<u8>) -> Seq<char>
    decreases bytes.len(),
{
    if bytes.len() == 0 {
        Seq::empty()
    } else {
        hex_text(bytes.drop_last()) + seq![hex_digit((bytes.last() / 16) as int), hex_digit((bytes.last() % 16) as int)]
    }
}

/// `hex::encode`: lowercase hexadecimal, two digits per byte, as its
/// documentation states.
#[verifier::external_body]
fn hex_encode(data: &[u8]) -> (r: String)
    ensures
        r@ == hex_text(data@),
{
    hex::encode(data)
}

/// The hash recorded for an uploaded asset: the lowercase hexadecimal
/// SHA-256 digest of its bytes.
pub fn asset_hash(content: &[u8]) -> (r: String)
    ensures
        r@ == hex_text(sha256_of(content@)),
        r@.len() == 64,
{
    let digest = sha256(content);
    let r = hex_encode(digest.as_slice());
    proof {
        lemma_hex_text_len(digest@);
    }
    r
}

proof fn lemma_hex_text_len(bytes: Seq<u8>)
    ensures
        hex_text(bytes).len() == 2 * bytes.len(),
    decreases bytes.len(),
{
    if bytes.len() > 0 {
        lemma_hex_text_len(bytes.drop_last());
    }
}

/// Law: the hexadecimal text of bytes has two lowercase hex digits per
/// byte; the first pair spells the first byte, high half first.
pub proof fn lemma_hex_text_digits(bytes: Seq<u8>)
    ensures
        hex_text(bytes).len() == 2 * bytes.len(),
        forall|i: int|
            0 <= i < hex_text(bytes).len() ==> ('0' <= #[trigger] hex_text(bytes)[i] <= '9') || ('a' <= hex_text(
                bytes,
            )[i] <= 'f'),
        forall|i: int|
            0 <= i < bytes.len() ==> #[trigger] hex_text(bytes)[2 * i] == hex_digit((bytes[i] / 16) as int) && hex_text(
                bytes,
            )[2 * i + 1] == hex_digit((bytes[i] % 16) as int),
    decreases bytes.len(),
{
    lemma_hex_text_len(bytes);
    if bytes.len() > 0 {
        let init = bytes.drop_last();
        lemma_hex_text_digits(init);
        let t = hex_text(bytes);
        let last = seq![hex_digit((bytes.last() / 16) as int), hex_digit((bytes.last() % 16) as int)];
        assert(t == hex_text(init) + last);
        assert forall|i: int| 0 <= i < t.len() implies ('0' <= #[trigger] t[i] <= '9') || ('a' <= t[i] <= 'f') by {
            if i < hex_text(init).len() {
                assert(t[i] == hex_text(init)[i]);
            } else {
                assert(t[i] == last[i - hex_text(init).len()]);
            }
        }
        assert forall|i: int| 0 <= i < bytes.len() implies #[trigger] t[2 * i] == hex_digit((bytes[i] / 16) as int)
            && t[2 * i + 1] == hex_digit((bytes[i] % 16) as int) by {
            if i < init.len() {
                assert(t[2 * i] == hex_text(init)[2 * i]);
                assert(t[2 * i + 1] == hex_text(init)[2 * i + 1]);
                assert(init[i] == bytes[i]);
            }
        }
    }
}

} // verus!
