//! Source archives of a branch or tag (`.tar.gz` and `.zip`): which tree
//! entries go into them, under which path, with which file mode, time stamp
//! and size flag, and the name the download is offered under.

use vstd::prelude::*;
use vstd::string::StringExecFns;
use vstd::utf8::*;
use crate::tags::strip_prefix;
use crate::text::{chars_of, str_from_utf8, string_of_range};
use crate::tree::{join_path, joined_path, EntryKind};

verus! {

/// Mode of a regular file in an archive (`rw-rw-r--`).
pub const FILE_MODE: u32 = 0o664;

/// Mode of an executable file in an archive (`rwxrwxr-x`).
pub const EXECUTABLE_MODE: u32 = 0o775;

/// Unix permissions of a symbolic link in a zip archive (link type, `rwxrwxrwx`).
pub const ZIP_SYMLINK_PERMISSIONS: u32 = 0o120_777;

/// Size from which a zip entry is written with 64-bit sizes.
pub const ZIP_LARGE_FILE_SIZE: usize = 4_294_967_000;

/// What the tree walk that gathers the paths of an archive does with one entry.
#[derive(Debug, PartialEq, Eq)]
pub enum PathStep {
    /// The path is recorded and the directory is walked into.
    Directory(String),
    /// The path is recorded.
    File(String),
    /// Submodules are left out.
    Skip,
}

/// The path of an entry for the list of paths whose last commit is looked
/// up: its name at the root, `prefix/name` below, where a name that is not
/// UTF-8 aborts the archive (`None`).
pub fn path_step(prefix: &str, kind: EntryKind, name: &[u8]) -> (r: Option<PathStep>)
    ensures
        r is None <==> !valid_utf8(name@),
        r matches Some(step) ==> match kind {
            EntryKind::Tree => step matches PathStep::Directory(p)
                && p@ == joined_path(prefix@, decode_utf8(name@)),
            EntryKind::Commit => step is Skip,
            _ => step matches PathStep::File(p) && p@ == joined_path(prefix@, decode_utf8(name@)),
        },
{
    let name = match str_from_utf8(name) {
        Some(n) => n,
        None => return None,
    };
    match kind {
        EntryKind::Tree => Some(PathStep::Directory(join_path(prefix, name))),
        EntryKind::Commit => Some(PathStep::Skip),
        _ => Some(PathStep::File(join_path(prefix, name))),
    }
}

/// The key under which a written entry's time stamp is looked up: its path
/// without the leading `./` that tar paths start with.
pub open spec fn path_key_of(path: Seq<char>) -> Seq<char> {
    match strip_prefix(path, "./"@) {
        Some(rest) => rest,
        None => path,
    }
}

/// `path.strip_prefix("./").unwrap_or(path)`.
pub fn path_key(path: &str) -> (r: String)
    ensures
        r@ == path_key_of(path@),
{
    let cs = chars_of(path);
    if cs.len() >= 2 && cs[0] == '.' && cs[1] == '/' {
        proof {
            reveal_strlit("./");
            assert(cs@.take(2) =~= "./"@);
            assert(cs@.subrange(2, cs@.len() as int) =~= cs@.skip(2));
        }
        string_of_range(cs.as_slice(), 2, cs.len())
    } else {
        proof {
            reveal_strlit("./");
            if cs@.len() >= 2 {
                assert(cs@.take(2)[0] == cs@[0] && cs@.take(2)[1] == cs@[1]);
            }
        }
        assert(cs@.subrange(0, cs@.len() as int) =~= cs@);
        string_of_range(cs.as_slice(), 0, cs.len())
    }
}

/// What goes into a tar archive for one tree entry.
#[derive(Debug, PartialEq, Eq)]
pub enum TarEntry {
    /// The directory's entries are written in turn.
    Descend,
    /// A file entry with the given mode and modification time, owned by
    /// uid and gid 0; a symbolic link carries its target as link name.
    Append { mode: u32, mtime: u64, symlink: bool },
    /// Submodules are left out.
    Skip,
}

/// Modification time of a tar entry: the time of the last commit that touched
/// the file, 0 when none is known, and 0 for a time before 1970.
pub open spec fn tar_mtime_of(last_commit: Option<i64>) -> int {
    match last_commit {
        Some(t) => if t > 0 { t as int } else { 0 },
        None => 0,
    }
}

/// The tar entry written for a tree entry.
pub fn tar_entry(kind: EntryKind, last_commit: Option<i64>) -> (r: TarEntry)
    ensures
        match kind {
            EntryKind::Tree => r is Descend,
            EntryKind::Commit => r is Skip,
            _ => r matches TarEntry::Append { mode, mtime, symlink } && mode == (if kind
                == EntryKind::BlobExecutable {
                EXECUTABLE_MODE
            } else {
                FILE_MODE
            }) && mtime == tar_mtime_of(last_commit) && symlink == (kind == EntryKind::Link),
        },
{
    match kind {
        EntryKind::Tree => TarEntry::Descend,
        EntryKind::Commit => TarEntry::Skip,
        _ => {
            let t: i64 = match last_commit {
                Some(t) => t,
                None => 0,
            };
            let mtime: u64 = if t > 0 { t as u64 } else { 0 };
            let mode = if kind == EntryKind::BlobExecutable { EXECUTABLE_MODE } else { FILE_MODE };
            TarEntry::Append { mode, mtime, symlink: kind == EntryKind::Link }
        }
    }
}

/// What goes into a zip archive for one tree entry.
#[derive(Debug, PartialEq, Eq)]
pub enum ZipEntry {
    /// A directory entry, then the directory's entries.
    Directory,
    /// A file entry with the given Unix permissions, written with 64-bit
    /// sizes when `large_file`.
    File { unix_permissions: u32, large_file: bool },
    /// Nothing is written.
    Skip,
}

/// The zip entry written for a tree entry whose content (for files and
/// links) has `size` bytes. Symbolic links are written as files holding
/// their target when `with_symlinks`, and left out otherwise; submodules are
/// always left out.
pub fn zip_entry(kind: EntryKind, with_symlinks: bool, size: usize) -> (r: ZipEntry)
    ensures
        match kind {
            EntryKind::Tree => r is Directory,
            EntryKind::Blob => r == ZipEntry::File {
                unix_permissions: FILE_MODE,
                large_file: size >= ZIP_LARGE_FILE_SIZE,
            },
            EntryKind::BlobExecutable => r == ZipEntry::File {
                unix_permissions: EXECUTABLE_MODE,
                large_file: size >= ZIP_LARGE_FILE_SIZE,
            },
            EntryKind::Link => if with_symlinks {
                r == ZipEntry::File { unix_permissions: ZIP_SYMLINK_PERMISSIONS, large_file: false }
            } else {
                r is Skip
            },
            EntryKind::Commit => r is Skip,
        },
{
    match kind {
        EntryKind::Tree => ZipEntry::Directory,
        EntryKind::Blob => ZipEntry::File { unix_permissions: FILE_MODE, large_file: size >= ZIP_LARGE_FILE_SIZE },
        EntryKind::BlobExecutable => ZipEntry::File {
            unix_permissions: EXECUTABLE_MODE,
            large_file: size >= ZIP_LARGE_FILE_SIZE,
        },
        EntryKind::Link => if with_symlinks {
            ZipEntry::File { unix_permissions: ZIP_SYMLINK_PERMISSIONS, large_file: false }
        } else {
            ZipEntry::Skip
        },
        EntryKind::Commit => ZipEntry::Skip,
    }
}

/// The `Content-Disposition` value of an archive download:
/// `attachment; filename="<repo>-<tree>.<ext>"`, or `<repo>.<ext>` when no
/// tree name goes into it.
pub open spec fn attachment_of(repo: Seq<char>, tree: Option<Seq<char>>, extension: Seq<char>) -> Seq<char> {
    let stem = match tree {
        Some(t) => repo + "-"@ + t,
        None => repo,
    };
    "attachment; filename=\""@ + stem + "."@ + extension + "\""@
}

/// Builds the `Content-Disposition` value of an archive download.
pub fn attachment(repo: &str, tree: Option<&str>, extension: &str) -> (r: String)
    ensures
        r@ == attachment_of(repo@, match tree {
            Some(t) => Some(t@),
            None => None,
        }, extension@),
{
    let mut r = String::from_str("attachment; filename=\"");
    r.append(repo);
    match tree {
        Some(t) => {
            r.append("-");
            r.append(t);
        },
        None => {},
    }
    r.append(".");
    r.append(extension);
    r.append("\"");
    r
}

/// The path in a tar archive of what the path walk (which starts at the
/// root, ``) finds at `p`: the tar walk starts at `.`.
pub open spec fn tar_path(p: Seq<char>) -> Seq<char> {
    if p.len() == 0 {
        "."@
    } else {
        "./"@ + p
    }
}

/// The time stamps gathered under the paths of the path walk are found
/// again for the entries of a tar archive: walking into an entry keeps the
/// tar path that of the path walk, and the key of a tar path of an entry is
/// its path in the path walk.
pub proof fn lemma_tar_keys_match_paths(p: Seq<char>, name: Seq<char>)
    requires
        name.len() > 0,
    ensures
        joined_path(tar_path(p), name) == tar_path(joined_path(p, name)),
        path_key_of(tar_path(joined_path(p, name))) == joined_path(p, name),
{
    reveal_strlit(".");
    reveal_strlit("./");
    reveal_strlit("/");
    let q = joined_path(p, name);
    assert(q.len() > 0);
    if p.len() == 0 {
        assert(joined_path("."@, name) =~= "./"@ + name);
    } else {
        assert(joined_path("./"@ + p, name) =~= "./"@ + (p + "/"@ + name));
    }
    assert(("./"@ + q).take(2) =~= "./"@);
    assert(("./"@ + q).skip(2) =~= q);
}

/// Law: the time stamp key of a path is the path itself, or the path
/// without its leading `./`; a tar entry is never dated before 1970, and
/// is dated at the last commit's time when that time is after 1970.
pub proof fn lemma_keys_and_times(path: Seq<char>, last_commit: Option<i64>)
    ensures
        path_key_of(path) == path || (path.len() >= 2 && path[0] == '.' && path[1] == '/' && path_key_of(path)
            == path.skip(2)),
        !(path.len() >= 2 && path[0] == '.' && path[1] == '/') ==> path_key_of(path) == path,
        tar_mtime_of(last_commit) >= 0,
        forall|t: i64| last_commit == Some(t) && t > 0 ==> tar_mtime_of(last_commit) == t,
        last_commit is None ==> tar_mtime_of(last_commit) == 0,
{
    reveal_strlit("./");
    if path.len() >= 2 && path.take(2) == "./"@ {
        assert(path.take(2)[0] == path[0] && path.take(2)[1] == path[1]);
    }
    if path.len() >= 2 && path[0] == '.' && path[1] == '/' {
        assert(path.take(2) =~= "./"@);
    }
}

} // verus!
