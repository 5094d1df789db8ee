//! File contents as the service shows them: whether a file counts as
//! binary, whether it is too large to show, and the content type a raw
//! blob is served with.

use vstd::prelude::*;
use crate::text::{string_from_utf8_lossy, utf8_lossy};

verus! {

/// The largest file whose text is shown, in bytes.
pub const MAX_TEXT_SIZE: usize = 5_000_000;

/// What `infer::get` recognises in a buffer: its MIME type and whether its
/// matcher type is `Text` or `Doc`, or nothing when it recognises no type.
pub uninterp spec fn sniffed_type(bytes: Seq<u8>) -> Option<(Seq<char>, bool)>;

/// `infer::get`, read through `mime_type` and `matcher_type`; its result is
/// named by [`sniffed_type`].
#[verifier::external_body]
fn sniff(bytes: &[u8]) -> (r: Option<(&'static str, bool)>)
    ensures
        match sniffed_type(bytes@) {
            Some((m, t)) => r matches Some((s, u)) && s@ == m && u == t,
            None => r is None,
        },
{
    infer::get(bytes).map(|t| (t.mime_type(), matches!(t.matcher_type(), infer::MatcherType::Text | infer::MatcherType::Doc)))
}

/// Whether a file counts as binary: a type is recognised in it and that
/// type is neither text nor a document.
pub open spec fn binary_content(bytes: Seq<u8>) -> bool {
    match sniffed_type(bytes) {
        Some((_, text_like)) => !text_like,
        None => false,
    }
}

/// A file as the file view answers it.
pub struct FileContent {
    /// The text, read as UTF-8 with invalid sequences replaced; none for
    /// binary or too large files
    pub content: Option<String>,
    pub size: usize,
    pub is_binary: bool,
    /// Whether the text is left out because the file is too large
    pub is_truncated: bool,
}

/// The file view of a file's bytes: binary files have no text; text files
/// larger than [`MAX_TEXT_SIZE`] bytes have none either and are marked
/// truncated; other files have their text.
pub fn file_content(raw: &[u8]) -> (r: FileContent)
    ensures
        r.size == raw@.len(),
        r.is_binary == binary_content(raw@),
        r.is_truncated == (!binary_content(raw@) && raw@.len() > MAX_TEXT_SIZE),
        match r.content {
            Some(t) => !binary_content(raw@) && raw@.len() <= MAX_TEXT_SIZE && t@ == utf8_lossy(raw@),
            None => binary_content(raw@) || raw@.len() > MAX_TEXT_SIZE,
        },
{
    let size = raw.len();
    let is_binary = match sniff(raw) {
        Some((_, text_like)) => !text_like,
        None => false,
    };
    if is_binary {
        FileContent { content: None, size, is_binary, is_truncated: false }
    } else if size > MAX_TEXT_SIZE {
        FileContent { content: None, size, is_binary, is_truncated: true }
    } else {
        FileContent { content: Some(string_from_utf8_lossy(raw)), size, is_binary, is_truncated: false }
    }
}

/// The content type a raw blob is served with: the type recognised in it,
/// or `text/plain`.
pub fn blob_content_type(content: &str) -> (r: &'static str)
    ensures
        r@ == match sniffed_type(vstd::utf8::encode_utf8(content@)) {
            Some((m, _)) => m,
            None => "text/plain"@,
        },
{
    match sniff(content.as_bytes()) {
        Some((m, _)) => m,
        None => "text/plain",
    }
}

/// Law: a file counts as binary only when a type is recognised in it, and
/// then exactly when that type is neither text nor a document.
pub proof fn lemma_binary_files(bytes: Seq<u8>)
    ensures
        sniffed_type(bytes) is None ==> !binary_content(bytes),
        sniffed_type(bytes) matches Some((_, text_like)) ==> (binary_content(bytes) <==> !text_like),
{
}

} // verus!
