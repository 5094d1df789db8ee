//! Commit detail: splitting commit messages, turning the line stream of a
//! patch into per-file hunks with statistics, and choosing the branch shown
//! for a commit.

use vstd::prelude::*;
use vstd::utf8::*;
use vstd::string::StringExecFns;
use crate::text::{
    char_from, double_char_from, find_double_char, first_line, first_line_of, lemma_char_from_bounds,
    chars_of, str_from_utf8, string_from_utf8_lossy, string_of_range, strip_newlines_end, trailing_newlines_start,
    trim, trim_bounds, utf8_lossy,
};

verus! {

/// Summary and description of a raw commit message: the summary is the
/// first line of the message; the description is the trimmed text after
/// the first blank line, absent when that is empty.
pub open spec fn message_parts(raw: Seq<char>) -> (Seq<char>, Option<Seq<char>>) {
    match double_char_from(raw, 0, '\n') {
        Some(i) => {
            let rest = trim(raw.skip(i + 2));
            (first_line_of(raw), if rest.len() == 0 { None } else { Some(rest) })
        },
        None => (first_line_of(raw), None),
    }
}

/// Splits a raw git commit message into its first line and the optional
/// description that follows its first blank line.
pub fn split_message(raw: &str) -> (res: (String, Option<String>))
    ensures
        res.0@ == message_parts(raw@).0,
        match message_parts(raw@).1 {
            Some(d) => res.1 matches Some(r) && r@ == d,
            None => res.1 is None,
        },
{
    let first = first_line(raw);
    let cs = chars_of(raw);
    match find_double_char(&cs, 0, '\n') {
        Some(i) => {
            let (a, b) = trim_bounds(&cs, i + 2, cs.len());
            assert(cs@.subrange(i + 2, cs.len() as int) =~= cs@.skip(i + 2));
            if a == b {
                (first, None)
            } else {
                (first, Some(string_of_range(&cs, a, b)))
            }
        },
        None => (first, None),
    }
}

/// Lines of one file beyond which its diff is dropped as too large.
pub const MAX_LINES_PER_FILE: usize = 5000;

/// Change status of a file in a commit.
#[derive(Clone, Copy, PartialEq, Eq, Structural, Debug)]
pub enum DiffStatus {
    Added,
    Deleted,
    Modified,
    Renamed,
    Copied,
    Untracked,
}

/// Whether a diff line is context, an addition or a deletion.
#[derive(Clone, Copy, PartialEq, Eq, Structural, Debug)]
pub enum DiffLineKind {
    Context,
    Addition,
    Deletion,
}

/// One line of a hunk.
pub struct DiffLineEntry {
    pub kind: DiffLineKind,
    /// Line number in the old file (absent for additions)
    pub old_line_number: Option<u32>,
    /// Line number in the new file (absent for deletions)
    pub new_line_number: Option<u32>,
    /// Line content without the leading +/-/space and without trailing newlines
    pub content: String,
}

/// One hunk of a file diff.
pub struct DiffHunk {
    /// Hunk header line (e.g. "@@ -12,7 +12,9 @@ impl Cloner {")
    pub header: String,
    pub old_start: u32,
    pub old_lines: u32,
    pub new_start: u32,
    pub new_lines: u32,
    pub lines: Vec<DiffLineEntry>,
}

/// Per-file insertion and deletion counts.
pub struct FileStats {
    pub insertions: usize,
    pub deletions: usize,
}

/// The diff of one file of a commit.
pub struct DiffFile {
    pub status: DiffStatus,
    /// New path of the file (or only path for non-renames)
    pub path: String,
    /// Old path, only present for renames and copies
    pub old_path: Option<String>,
    /// Whether the file is binary (hunks stay empty)
    pub binary: bool,
    /// Whether the file exceeded the line cap (hunks are dropped)
    pub too_large: bool,
    pub stats: FileStats,
    pub hunks: Vec<DiffHunk>,
}

/// Totals over all files of a commit.
pub struct DiffStats {
    pub files_changed: usize,
    pub insertions: usize,
    pub deletions: usize,
}

/// Mathematical view of a [`DiffLineEntry`].
pub struct LineModel {
    pub kind: DiffLineKind,
    pub old_line_number: Option<u32>,
    pub new_line_number: Option<u32>,
    pub content: Seq<char>,
}

/// Mathematical view of a [`DiffHunk`].
pub struct HunkModel {
    pub header: Seq<char>,
    pub old_start: u32,
    pub old_lines: u32,
    pub new_start: u32,
    pub new_lines: u32,
    pub lines: Seq<LineModel>,
}

/// Mathematical view of a [`DiffFile`].
pub struct FileModel {
    pub status: DiffStatus,
    pub path: Seq<char>,
    pub old_path: Option<Seq<char>>,
    pub binary: bool,
    pub too_large: bool,
    pub insertions: nat,
    pub deletions: nat,
    pub hunks: Seq<HunkModel>,
}

impl View for DiffLineEntry {
    type V = LineModel;

    open spec fn view(&self) -> LineModel {
        LineModel {
            kind: self.kind,
            old_line_number: self.old_line_number,
            new_line_number: self.new_line_number,
            content: self.content@,
        }
    }
}

impl View for DiffHunk {
    type V = HunkModel;

    open spec fn view(&self) -> HunkModel {
        HunkModel {
            header: self.header@,
            old_start: self.old_start,
            old_lines: self.old_lines,
            new_start: self.new_start,
            new_lines: self.new_lines,
            lines: self.lines@.map_values(|l: DiffLineEntry| l@),
        }
    }
}

impl View for DiffFile {
    type V = FileModel;

    open spec fn view(&self) -> FileModel {
        FileModel {
            status: self.status,
            path: self.path@,
            old_path: match self.old_path {
                Some(p) => Some(p@),
                None => None,
            },
            binary: self.binary,
            too_large: self.too_large,
            insertions: self.stats.insertions as nat,
            deletions: self.stats.deletions as nat,
            hunks: self.hunks@.map_values(|h: DiffHunk| h@),
        }
    }
}

/// A file that no diff line has reached yet.
pub open spec fn untouched(f: FileModel) -> bool {
    &&& f.insertions == 0
    &&& f.deletions == 0
    &&& f.hunks.len() == 0
    &&& !f.too_large
}

impl DiffFile {
    /// The entry of one changed file before its lines are read: the old path
    /// is kept only for renames and copies, a missing new path becomes empty.
    pub fn from_delta(
        status: DiffStatus,
        new_path: Option<String>,
        old_path: Option<String>,
        binary: bool,
    ) -> (res: DiffFile)
        ensures
            res@.status == status,
            res@.path == match new_path {
                Some(p) => p@,
                None => Seq::<char>::empty(),
            },
            res@.old_path == (if status == DiffStatus::Renamed || status == DiffStatus::Copied {
                match old_path {
                    Some(p) => Some(p@),
                    None => None,
                }
            } else {
                None
            }),
            res@.binary == binary,
            untouched(res@),
    {
        let path = match new_path {
            Some(p) => p,
            None => String::new(),
        };
        let is_rename_or_copy = match status {
            DiffStatus::Renamed | DiffStatus::Copied => true,
            _ => false,
        };
        let old_path = if is_rename_or_copy {
            old_path
        } else {
            None
        };
        let res = DiffFile {
            status,
            path,
            old_path,
            binary,
            too_large: false,
            stats: FileStats { insertions: 0, deletions: 0 },
            hunks: Vec::new(),
        };
        assert(res@.hunks =~= Seq::<HunkModel>::empty());
        res
    }
}

/// The hunk information of one line of a patch, as git reports it.
pub struct HunkHeader {
    /// Raw header bytes
    pub header: Vec<u8>,
    pub old_start: u32,
    pub old_lines: u32,
    pub new_start: u32,
    pub new_lines: u32,
}

/// One line of a patch, as git reports it.
pub struct DiffLineRecord {
    /// `'F'` for a file header, `'+'`, `'-'`, `' '` for content lines, others for the rest
    pub origin: char,
    pub old_lineno: Option<u32>,
    pub new_lineno: Option<u32>,
    /// Raw content bytes
    pub content: Vec<u8>,
}

/// Text of a hunk header: the bytes read as UTF-8 (empty if they are not
/// valid UTF-8) without trailing newlines.
pub open spec fn hunk_text(bytes: Seq<u8>) -> Seq<char> {
    strip_newlines_end(if valid_utf8(bytes) { decode_utf8(bytes) } else { Seq::empty() })
}

/// Text of a diff line: the bytes read lossily as UTF-8, without trailing newlines.
pub open spec fn line_text(bytes: Seq<u8>) -> Seq<char> {
    strip_newlines_end(utf8_lossy(bytes))
}

/// The kind of a content line, by its origin character.
pub open spec fn line_kind(origin: char) -> Option<DiffLineKind> {
    if origin == '+' {
        Some(DiffLineKind::Addition)
    } else if origin == '-' {
        Some(DiffLineKind::Deletion)
    } else if origin == ' ' {
        Some(DiffLineKind::Context)
    } else {
        None
    }
}

/// Mathematical view of a [`DiffCollector`].
pub struct CollectorModel {
    pub files: Seq<FileModel>,
    /// Which files exceeded the line cap
    pub too_large: Seq<bool>,
    /// Index of the file the lines currently belong to
    pub current: nat,
    /// Content lines seen for the current file
    pub line_count: nat,
    /// Whether no file header has been seen yet
    pub first: bool,
    /// Header of the last hunk opened for the current file
    pub last_header: Option<Seq<char>>,
}

/// Whether a content line goes to the current file: there is one and it
/// is not binary.
pub open spec fn accepts(m: CollectorModel) -> bool {
    &&& m.current < m.files.len()
    &&& !m.files[m.current as int].binary
}

/// A file with one more line of the given kind counted in its statistics.
pub open spec fn counted(f: FileModel, kind: DiffLineKind) -> FileModel {
    FileModel {
        insertions: if kind == DiffLineKind::Addition {
            f.insertions + 1
        } else {
            f.insertions
        },
        deletions: if kind == DiffLineKind::Deletion {
            f.deletions + 1
        } else {
            f.deletions
        },
        ..f
    }
}

/// A content line of a file already marked too large only counts in its
/// statistics.
pub open spec fn with_counted_line(m: CollectorModel, line: DiffLineRecord) -> CollectorModel {
    match line_kind(line.origin) {
        None => m,
        Some(kind) => CollectorModel {
            files: m.files.update(m.current as int, counted(m.files[m.current as int], kind)),
            ..m
        },
    }
}

/// Whether the statistics of the current file can count one more line.
pub open spec fn room_for_line(m: CollectorModel) -> bool {
    m.current < m.files.len() ==> m.files[m.current as int].insertions + m.files[m.current as int].deletions
        < usize::MAX
}

/// A hunk header opens a new hunk in the current file unless it repeats the
/// header of the last one.
pub open spec fn with_hunk(m: CollectorModel, h: HunkHeader) -> CollectorModel {
    let text = hunk_text(h.header@);
    if m.last_header == Some(text) {
        m
    } else {
        let f = m.files[m.current as int];
        let hunk = HunkModel {
            header: text,
            old_start: h.old_start,
            old_lines: h.old_lines,
            new_start: h.new_start,
            new_lines: h.new_lines,
            lines: Seq::empty(),
        };
        CollectorModel {
            files: m.files.update(m.current as int, FileModel { hunks: f.hunks.push(hunk), ..f }),
            last_header: Some(text),
            ..m
        }
    }
}

/// A content line is counted for the current file and adds to its
/// statistics. The line that passes the cap marks the file too large and
/// drops its hunks; otherwise the line is appended to the last hunk, if any.
pub open spec fn with_line(m: CollectorModel, line: DiffLineRecord) -> CollectorModel {
    match line_kind(line.origin) {
        None => m,
        Some(kind) => {
            let f = m.files[m.current as int];
            if m.line_count + 1 > MAX_LINES_PER_FILE {
                CollectorModel {
                    files: m.files.update(m.current as int, FileModel { hunks: Seq::empty(), ..counted(f, kind) }),
                    too_large: m.too_large.update(m.current as int, true),
                    line_count: m.line_count + 1,
                    ..m
                }
            } else {
                let entry = LineModel {
                    kind,
                    old_line_number: line.old_lineno,
                    new_line_number: line.new_lineno,
                    content: line_text(line.content@),
                };
                let hunks = if f.hunks.len() > 0 {
                    let h = f.hunks.last();
                    f.hunks.update(f.hunks.len() - 1, HunkModel { lines: h.lines.push(entry), ..h })
                } else {
                    f.hunks
                };
                let g = FileModel {
                    insertions: if kind == DiffLineKind::Addition {
                        f.insertions + 1
                    } else {
                        f.insertions
                    },
                    deletions: if kind == DiffLineKind::Deletion {
                        f.deletions + 1
                    } else {
                        f.deletions
                    },
                    hunks,
                    ..f
                };
                CollectorModel {
                    files: m.files.update(m.current as int, g),
                    line_count: m.line_count + 1,
                    ..m
                }
            }
        },
    }
}

/// What one line of the patch does to the collected diff. A file header
/// moves on to the next file (the first one marks the start of the first
/// file); past the last file nothing changes any more; a file marked too
/// large only counts its lines.
pub open spec fn step(m: CollectorModel, hunk: Option<HunkHeader>, line: DiffLineRecord) -> CollectorModel {
    if line.origin == 'F' {
        CollectorModel {
            current: if m.first || m.current >= m.files.len() {
                m.current
            } else {
                m.current + 1
            },
            line_count: 0,
            first: false,
            last_header: None,
            ..m
        }
    } else if !accepts(m) {
        m
    } else if m.too_large[m.current as int] {
        with_counted_line(m, line)
    } else {
        let m1 = match hunk {
            Some(h) => with_hunk(m, h),
            None => m,
        };
        with_line(m1, line)
    }
}

/// Collects the structured diff of a commit from the line stream of its patch.
pub struct DiffCollector {
    files: Vec<DiffFile>,
    too_large: Vec<bool>,
    current: usize,
    line_count: usize,
    first: bool,
    last_header: Option<String>,
}

impl View for DiffCollector {
    type V = CollectorModel;

    closed spec fn view(&self) -> CollectorModel {
        CollectorModel {
            files: self.files@.map_values(|f: DiffFile| f@),
            too_large: self.too_large@,
            current: self.current as nat,
            line_count: self.line_count as nat,
            first: self.first,
            last_header: match self.last_header {
                Some(h) => Some(h@),
                None => None,
            },
        }
    }
}

impl DiffCollector {
    /// Bounds that keep every counter of the collector representable.
    pub closed spec fn inv(&self) -> bool {
        &&& self.too_large@.len() == self.files@.len()
        &&& self.current <= self.files@.len()
        &&& self.line_count <= MAX_LINES_PER_FILE + 1
        &&& self.current_open() ==> self.line_count <= MAX_LINES_PER_FILE
        &&& self.current_open() ==> self.current_count() <= self.line_count + MAX_LINES_PER_FILE
        &&& (self.first && self.current_open()) ==> self.current_count() <= self.line_count
        &&& forall|j: int|
            self.current < j < self.files@.len() ==> #[trigger] untouched(self.files@[j]@)
        &&& self.first ==> self.current == 0
    }

    /// Whether lines still go to the current file as far as the line cap goes.
    closed spec fn current_open(&self) -> bool {
        self.current < self.files@.len() && !self.too_large@[self.current as int]
    }

    /// Insertions and deletions counted so far for the current file.
    closed spec fn current_count(&self) -> int {
        self.files@[self.current as int].stats.insertions + self.files@[self.current as int].stats.deletions
    }

    /// A collector for the given files, before any patch line.
    pub fn new(files: Vec<DiffFile>) -> (res: DiffCollector)
        requires
            forall|j: int| 0 <= j < files@.len() ==> #[trigger] untouched(files@[j]@),
        ensures
            res.inv(),
            res@.files == files@.map_values(|f: DiffFile| f@),
            res@.too_large == Seq::new(files@.len(), |j: int| false),
            res@.current == 0,
            res@.line_count == 0,
            res@.first,
            res@.last_header is None,
    {
        let n = files.len();
        let mut too_large: Vec<bool> = Vec::new();
        let mut i: usize = 0;
        while i < n
            invariant
                i <= n,
                too_large@ == Seq::new(i as nat, |j: int| false),
                forall|j: int| 0 <= j < files@.len() ==> #[trigger] untouched(files@[j]@),
            decreases n - i,
        {
            too_large.push(false);
            i += 1;
            assert(too_large@ =~= Seq::new(i as nat, |j: int| false));
        }
        let res = DiffCollector { files, too_large, current: 0, line_count: 0, first: true, last_header: None };
        if n > 0 {
            assert(untouched(res.files@[0]@));
        }
        res
    }

    /// Whether the statistics of the current file can count one more line;
    /// see [`room_for_line`].
    pub fn has_room(&self) -> (r: bool)
        requires
            self.inv(),
        ensures
            r == room_for_line(self@),
    {
        if self.current < self.files.len() {
            let f = &self.files[self.current];
            f.stats.insertions < usize::MAX && f.stats.deletions < usize::MAX - f.stats.insertions
        } else {
            true
        }
    }

    /// Takes one line of the patch. Always asks for the next one. The
    /// statistics of the current file must have room for one more line.
    pub fn on_line(&mut self, hunk: &Option<HunkHeader>, line: &DiffLineRecord) -> (keep_going: bool)
        requires
            old(self).inv(),
            room_for_line(old(self)@),
        ensures
            final(self).inv(),
            final(self)@ == step(old(self)@, *hunk, *line),
            keep_going,
    {
        if line.origin == 'F' {
            if self.first {
                self.first = false;
            } else if self.current < self.files.len() {
                self.current = self.current + 1;
                if self.current < self.files.len() {
                    assert(untouched(self.files@[self.current as int]@));
                }
            }
            self.line_count = 0;
            self.last_header = None;
            return true;
        }
        if self.current >= self.files.len() {
            return true;
        }
        let idx = self.current;
        if self.files[idx].binary {
            return true;
        }
        if self.too_large[idx] {
            self.count_line(line);
            return true;
        }
        let ghost m0 = self@;
        if let Some(h) = hunk {
            self.open_hunk(h);
        }
        let ghost m1 = self@;
        assert(m1 == match *hunk {
            Some(h) => with_hunk(m0, h),
            None => m0,
        });
        self.take_line(line);
        true
    }

    fn count_line(&mut self, line: &DiffLineRecord)
        requires
            old(self).inv(),
            accepts(old(self)@),
            old(self)@.too_large[old(self)@.current as int],
            room_for_line(old(self)@),
        ensures
            final(self).inv(),
            final(self)@ == with_counted_line(old(self)@, *line),
    {
        let idx = self.current;
        let ghost before = self.files@[idx as int];
        if line.origin == '+' {
            self.files[idx].stats.insertions = self.files[idx].stats.insertions + 1;
        } else if line.origin == '-' {
            self.files[idx].stats.deletions = self.files[idx].stats.deletions + 1;
        } else {
            proof {
                assert(old(self)@.files.update(idx as int, counted(before@, DiffLineKind::Context))
                    =~= old(self)@.files);
            }
            return ;
        }
        proof {
            assert(self@.files =~= old(self)@.files.update(
                idx as int,
                self.files@[idx as int]@,
            ));
        }
    }

    fn open_hunk(&mut self, h: &HunkHeader)
        requires
            old(self).inv(),
            accepts(old(self)@),
            !old(self)@.too_large[old(self)@.current as int],
        ensures
            final(self).inv(),
            accepts(final(self)@),
            !final(self)@.too_large[final(self)@.current as int],
            final(self)@.current == old(self)@.current,
            final(self)@ == with_hunk(old(self)@, *h),
            final(self).line_count == old(self).line_count,
    {
        let idx = self.current;
        let text_raw = match str_from_utf8(&h.header) {
            Some(t) => t,
            None => "",
        };
        proof {
            if !valid_utf8(h.header@) {
                reveal_strlit("");
            }
        }
        let cs = chars_of(text_raw);
        let e = trailing_newlines_start(&cs, 0, cs.len());
        assert(cs@.subrange(0, cs.len() as int) =~= cs@);
        let header = string_of_range(&cs, 0, e);
        assert(header@ == hunk_text(h.header@));
        let repeated = match &self.last_header {
            Some(last) => last.eq(&header),
            None => false,
        };
        assert(repeated <==> old(self)@.last_header == Some(hunk_text(h.header@)));
        if !repeated {
            let ghost before = self.files@[idx as int];
            self.last_header = Some(header.clone());
            let hunk = DiffHunk {
                header,
                old_start: h.old_start,
                old_lines: h.old_lines,
                new_start: h.new_start,
                new_lines: h.new_lines,
                lines: Vec::new(),
            };
            assert(hunk@.lines =~= Seq::<LineModel>::empty());
            self.files[idx].hunks.push(hunk);
            proof {
                assert(self.files@[idx as int]@.hunks =~= before@.hunks.push(hunk@));
                assert(self@.files =~= old(self)@.files.update(
                    idx as int,
                    FileModel { hunks: before@.hunks.push(hunk@), ..before@ },
                ));
            }
        }
    }

    fn take_line(&mut self, line: &DiffLineRecord)
        requires
            old(self).inv(),
            accepts(old(self)@),
            !old(self)@.too_large[old(self)@.current as int],
        ensures
            final(self).inv(),
            final(self)@ == with_line(old(self)@, *line),
    {
        let idx = self.current;
        let kind = if line.origin == '+' {
            DiffLineKind::Addition
        } else if line.origin == '-' {
            DiffLineKind::Deletion
        } else if line.origin == ' ' {
            DiffLineKind::Context
        } else {
            return ;
        };
        let ghost before = self.files@[idx as int];
        let passes_cap = self.line_count + 1 > MAX_LINES_PER_FILE;
        self.line_count = self.line_count + 1;
        match kind {
            DiffLineKind::Addition => {
                self.files[idx].stats.insertions = self.files[idx].stats.insertions + 1;
            },
            DiffLineKind::Deletion => {
                self.files[idx].stats.deletions = self.files[idx].stats.deletions + 1;
            },
            DiffLineKind::Context => {},
        }
        if passes_cap {
            self.too_large.set(idx, true);
            self.files[idx].hunks.clear();
            proof {
                assert(self.files@[idx as int]@.hunks =~= Seq::<HunkModel>::empty());
                assert(self@.files =~= old(self)@.files.update(
                    idx as int,
                    FileModel { hunks: Seq::empty(), ..counted(before@, kind) },
                ));
            }
            return ;
        }
        let decoded = string_from_utf8_lossy(&line.content);
        let cs = chars_of(decoded.as_str());
        let e = trailing_newlines_start(&cs, 0, cs.len());
        assert(cs@.subrange(0, cs.len() as int) =~= cs@);
        let content = string_of_range(&cs, 0, e);
        let entry = DiffLineEntry {
            kind,
            old_line_number: line.old_lineno,
            new_line_number: line.new_lineno,
            content,
        };
        let n = self.files[idx].hunks.len();
        if n > 0 {
            let ghost hb = self.files@[idx as int].hunks@[n - 1];
            self.files[idx].hunks[n - 1].lines.push(entry);
            proof {
                assert(self.files@[idx as int].hunks@[n - 1]@.lines =~= hb@.lines.push(entry@));
                assert(self.files@[idx as int]@.hunks =~= before@.hunks.update(
                    n - 1,
                    HunkModel { lines: hb@.lines.push(entry@), ..hb@ },
                ));
            }
        }
        proof {
            assert(self@.files =~= old(self)@.files.update(
                idx as int,
                self.files@[idx as int]@,
            ));
        }
    }

    /// The collected files, each marked with whether it exceeded the line cap.
    pub fn finish(self) -> (res: Vec<DiffFile>)
        requires
            self.inv(),
        ensures
            res@.len() == self@.files.len(),
            forall|j: int|
                0 <= j < res@.len() ==> #[trigger] res@[j]@ == (FileModel {
                    too_large: self@.too_large[j],
                    ..self@.files[j]
                }),
    {
        let mut files = self.files;
        let ghost orig = files@;
        let mut i: usize = 0;
        while i < files.len()
            invariant
                files@.len() == orig.len(),
                self.too_large@.len() == orig.len(),
                i <= files@.len(),
                forall|j: int|
                    0 <= j < i ==> #[trigger] files@[j]@ == (FileModel {
                        too_large: self.too_large@[j],
                        ..orig[j]@
                    }),
                forall|j: int| i <= j < files@.len() ==> #[trigger] files@[j] == orig[j],
            decreases files@.len() - i,
        {
            files[i].too_large = self.too_large[i];
            i += 1;
        }
        files
    }
}

/// Sum of a sequence of counts.
pub open spec fn sum(s: Seq<nat>) -> nat
    decreases s.len(),
{
    if s.len() == 0 {
        0
    } else {
        sum(s.drop_last()) + s.last()
    }
}

/// A prefix never sums to more than the whole.
pub proof fn lemma_sum_prefix(s: Seq<nat>, i: int)
    requires
        0 <= i <= s.len(),
    ensures
        sum(s.take(i)) <= sum(s),
    decreases s.len(),
{
    if i < s.len() {
        assert(s.drop_last().take(i) =~= s.take(i));
        lemma_sum_prefix(s.drop_last(), i);
    } else {
        assert(s.take(i) =~= s);
    }
}

/// Insertions of each file.
pub open spec fn insertions_of(files: Seq<DiffFile>) -> Seq<nat> {
    files.map_values(|f: DiffFile| f.stats.insertions as nat)
}

/// Deletions of each file.
pub open spec fn deletions_of(files: Seq<DiffFile>) -> Seq<nat> {
    files.map_values(|f: DiffFile| f.stats.deletions as nat)
}

/// Totals of a commit's diff: the number of files and the sums of their
/// insertions and deletions.
pub fn diff_stats(files: &Vec<DiffFile>) -> (r: DiffStats)
    requires
        sum(insertions_of(files@)) <= usize::MAX,
        sum(deletions_of(files@)) <= usize::MAX,
    ensures
        r.files_changed == files@.len(),
        r.insertions == sum(insertions_of(files@)),
        r.deletions == sum(deletions_of(files@)),
{
    let mut insertions: usize = 0;
    let mut deletions: usize = 0;
    let mut i: usize = 0;
    while i < files.len()
        invariant
            i <= files@.len(),
            insertions == sum(insertions_of(files@).take(i as int)),
            deletions == sum(deletions_of(files@).take(i as int)),
            sum(insertions_of(files@)) <= usize::MAX,
            sum(deletions_of(files@)) <= usize::MAX,
        decreases files@.len() - i,
    {
        proof {
            assert(insertions_of(files@).take(i + 1).drop_last() =~= insertions_of(files@).take(
                i as int,
            ));
            assert(deletions_of(files@).take(i + 1).drop_last() =~= deletions_of(files@).take(
                i as int,
            ));
            lemma_sum_prefix(insertions_of(files@), i + 1);
            lemma_sum_prefix(deletions_of(files@), i + 1);
        }
        insertions = insertions + files[i].stats.insertions;
        deletions = deletions + files[i].stats.deletions;
        i += 1;
    }
    assert(insertions_of(files@).take(i as int) =~= insertions_of(files@));
    assert(deletions_of(files@).take(i as int) =~= deletions_of(files@));
    DiffStats { files_changed: files.len(), insertions, deletions }
}

/// A branch that contains the commit: its full reference name and its short
/// name, either of which git may fail to give as text.
pub struct BranchCandidate {
    pub name: Option<String>,
    pub shorthand: Option<String>,
}

/// The full name of a candidate, or the empty text.
pub open spec fn candidate_name(c: BranchCandidate) -> Seq<char> {
    match c.name {
        Some(n) => n@,
        None => Seq::empty(),
    }
}

/// Index of the first candidate whose full name is `default_ref`, at or after `i`.
pub open spec fn default_candidate_from(cs: Seq<BranchCandidate>, default_ref: Seq<char>, i: int) -> Option<int>
    decreases cs.len() - i,
{
    if i < 0 || i >= cs.len() {
        None
    } else if candidate_name(cs[i]) == default_ref {
        Some(i)
    } else {
        default_candidate_from(cs, default_ref, i + 1)
    }
}

/// The candidate shown for a commit: the first one on the default branch if
/// there is one, otherwise the first candidate.
pub open spec fn chosen_candidate(cs: Seq<BranchCandidate>, default_ref: Seq<char>) -> Option<int> {
    match default_candidate_from(cs, default_ref, 0) {
        Some(i) => Some(i),
        None => if cs.len() > 0 {
            Some(0)
        } else {
            None
        },
    }
}

/// `"refs/heads/"` followed by the branch name.
pub open spec fn head_ref(branch: Seq<char>) -> Seq<char> {
    "refs/heads/"@ + branch
}

/// The short name of the branch shown for a commit, among the branches that
/// contain it (`min_by_key` on "is not the default branch", which keeps the
/// first minimum).
pub fn pick_branch(candidates: &Vec<BranchCandidate>, default_branch: &str) -> (res: Option<String>)
    ensures
        match chosen_candidate(candidates@, head_ref(default_branch@)) {
            Some(i) => match candidates@[i].shorthand {
                Some(s) => res matches Some(r) && r@ == s@,
                None => res is None,
            },
            None => res is None,
        },
{
    let mut default_ref = String::from_str("refs/heads/");
    default_ref.append(default_branch);
    proof {
        reveal_strlit("refs/heads/");
    }
    assert(default_ref@ == head_ref(default_branch@));
    let mut i: usize = 0;
    let mut found: Option<usize> = None;
    while i < candidates.len()
        invariant
            i <= candidates@.len(),
            default_ref@ == head_ref(default_branch@),
            found is None ==> default_candidate_from(candidates@, default_ref@, 0)
                == default_candidate_from(candidates@, default_ref@, i as int),
            found matches Some(k) ==> default_candidate_from(candidates@, default_ref@, 0) == Some(
                k as int,
            ) && k < candidates@.len(),
        decreases candidates@.len() - i,
    {
        if found.is_none() {
            let is_default = match &candidates[i].name {
                Some(n) => n.eq(&default_ref),
                None => default_ref.as_str().is_empty(),
            };
            proof {
                if candidates@[i as int].name is None && default_ref@.len() == 0 {
                    assert(candidate_name(candidates@[i as int]) =~= default_ref@);
                }
            }
            assert(is_default == (candidate_name(candidates@[i as int]) == default_ref@));
            if is_default {
                found = Some(i);
            }
        }
        i += 1;
    }
    let chosen = match found {
        Some(k) => k,
        None => {
            if candidates.len() == 0 {
                return None;
            }
            0
        },
    };
    match &candidates[chosen].shorthand {
        Some(s) => Some(s.clone()),
        None => None,
    }
}

/// The collector before any patch line, over the given files.
pub open spec fn initial(files: Seq<FileModel>) -> CollectorModel {
    CollectorModel {
        files,
        too_large: Seq::new(files.len(), |j: int| false),
        current: 0,
        line_count: 0,
        first: true,
        last_header: None,
    }
}

/// The collector after the given patch lines, in order.
pub open spec fn run(m: CollectorModel, lines: Seq<(Option<HunkHeader>, DiffLineRecord)>) -> CollectorModel
    decreases lines.len(),
{
    if lines.len() == 0 {
        m
    } else {
        run(step(m, lines[0].0, lines[0].1), lines.drop_first())
    }
}

/// What holds of a collected diff: a file not marked too large counts no
/// more lines than the cap, a file marked too large has no hunks, a binary file is never touched, and the
/// files not reached yet are untouched.
pub open spec fn well_collected(m: CollectorModel) -> bool {
    &&& m.too_large.len() == m.files.len()
    &&& m.current <= m.files.len()
    &&& forall|j: int|
        0 <= j < m.files.len() && !m.too_large[j] ==> #[trigger] m.files[j].insertions + m.files[j].deletions
            <= MAX_LINES_PER_FILE
    &&& forall|j: int| 0 <= j < m.files.len() && #[trigger] m.too_large[j] ==> m.files[j].hunks.len() == 0
    &&& forall|j: int|
        0 <= j < m.files.len() && (#[trigger] m.files[j]).binary ==> m.files[j].insertions == 0
            && m.files[j].deletions == 0 && m.files[j].hunks.len() == 0
    &&& (m.current < m.files.len() && !m.too_large[m.current as int]) ==> m.files[m.current as int].insertions
        + m.files[m.current as int].deletions <= m.line_count && m.line_count <= MAX_LINES_PER_FILE
    &&& forall|j: int| m.current < j < m.files.len() ==> #[trigger] untouched(m.files[j])
    &&& m.first ==> m.current == 0 && m.line_count == 0 && (m.files.len() > 0 ==> untouched(
        m.files[0],
    ))
}

/// The files keep their number, status, paths and binary flag.
pub open spec fn same_files(a: CollectorModel, b: CollectorModel) -> bool {
    &&& a.files.len() == b.files.len()
    &&& forall|j: int|
        0 <= j < a.files.len() ==> (#[trigger] a.files[j]).status == b.files[j].status
            && a.files[j].path == b.files[j].path && a.files[j].old_path == b.files[j].old_path
            && a.files[j].binary == b.files[j].binary
}

/// Reading one more patch line keeps a collected diff well formed and leaves
/// the list of files as it was; only a content line before the first file
/// header is left out.
pub proof fn lemma_step_well_collected(m: CollectorModel, hunk: Option<HunkHeader>, line: DiffLineRecord)
    requires
        well_collected(m),
        !(m.first && line.origin != 'F'),
    ensures
        well_collected(step(m, hunk, line)),
        same_files(m, step(m, hunk, line)),
        !m.first ==> !step(m, hunk, line).first,
{
    let r = step(m, hunk, line);
    if line.origin == 'F' {
        if !m.first && m.current < m.files.len() && m.current + 1 < m.files.len() {
            assert(untouched(m.files[(m.current + 1) as int]));
        }
        if m.first && m.files.len() > 0 {
            assert(untouched(m.files[0]));
        }
    } else if accepts(m) {
        let m1 = match hunk {
            Some(h) => with_hunk(m, h),
            None => m,
        };
        let c = m.current as int;
        assert(forall|j: int| 0 <= j < m.files.len() && j != c ==> m1.files[j] == m.files[j]);
        assert(m1.files[c].insertions == m.files[c].insertions);
        assert(m1.files[c].deletions == m.files[c].deletions);
        assert(forall|j: int| 0 <= j < m.files.len() && j != c ==> r.files[j] == m.files[j]);
        assert forall|j: int| 0 <= j < r.files.len() && !r.too_large[j] implies #[trigger] r.files[j].insertions
            + r.files[j].deletions <= MAX_LINES_PER_FILE by {
            if j != c {
                assert(m.files[j].insertions + m.files[j].deletions <= MAX_LINES_PER_FILE);
            }
        }
        assert forall|j: int| m.current < j < r.files.len() implies #[trigger] untouched(r.files[j]) by {
            assert(untouched(m.files[j]));
        }
        assert forall|j: int| 0 <= j < r.files.len() && #[trigger] r.too_large[j] implies r.files[j].hunks.len()
            == 0 by {
            if j != c {
                assert(m.too_large[j]);
            }
        }
        assert forall|j: int| 0 <= j < r.files.len() && (#[trigger] r.files[j]).binary implies r.files[j].insertions
            == 0 && r.files[j].deletions == 0 && r.files[j].hunks.len() == 0 by {
            if j != c {
                assert(m.files[j].binary);
            }
        }
    }
}

/// Law: a patch read line by line from its first file header leaves every
/// file within the line cap, a file marked too large without hunks, binary
/// files untouched, and the list of files as it was.
pub proof fn lemma_run_well_collected(m: CollectorModel, lines: Seq<(Option<HunkHeader>, DiffLineRecord)>)
    requires
        well_collected(m),
        m.first ==> (lines.len() > 0 ==> lines[0].1.origin == 'F'),
    ensures
        well_collected(run(m, lines)),
        same_files(m, run(m, lines)),
    decreases lines.len(),
{
    if lines.len() > 0 {
        let m1 = step(m, lines[0].0, lines[0].1);
        lemma_step_well_collected(m, lines[0].0, lines[0].1);
        assert(!m1.first);
        lemma_run_well_collected(m1, lines.drop_first());
    }
}

/// Law: the collector starts well formed on files that no line has reached.
pub proof fn lemma_initial_well_collected(files: Seq<FileModel>)
    requires
        forall|j: int| 0 <= j < files.len() ==> #[trigger] untouched(files[j]),
    ensures
        well_collected(initial(files)),
{
    let m = initial(files);
    assert forall|j: int| 0 <= j < files.len() && !m.too_large[j] implies #[trigger] m.files[j].insertions
        + m.files[j].deletions <= MAX_LINES_PER_FILE by {
        assert(untouched(files[j]));
    }
    assert forall|j: int| 0 <= j < files.len() && (#[trigger] m.files[j]).binary implies m.files[j].insertions
        == 0 && m.files[j].deletions == 0 && m.files[j].hunks.len() == 0 by {
        assert(untouched(files[j]));
    }
    if files.len() > 0 {
        assert(untouched(files[0]));
    }
}

/// Law: every added and every deleted line of a file counts in its
/// statistics, whether or not the file has passed the line cap; only the
/// hunks of a file past the cap are dropped.
pub proof fn lemma_every_line_counts(m: CollectorModel, hunk: Option<HunkHeader>, line: DiffLineRecord)
    requires
        m.current < m.files.len(),
        m.too_large.len() == m.files.len(),
        !m.files[m.current as int].binary,
        line.origin != 'F',
    ensures
        ({
            let c = m.current as int;
            let r = step(m, hunk, line);
            &&& r.files[c].insertions == m.files[c].insertions + (if line.origin == '+' {
                1int
            } else {
                0
            })
            &&& r.files[c].deletions == m.files[c].deletions + (if line.origin == '-' {
                1int
            } else {
                0
            })
        }),
{
    let c = m.current as int;
    let m1 = match hunk {
        Some(h) => with_hunk(m, h),
        None => m,
    };
    assert(m1.files[c].insertions == m.files[c].insertions);
    assert(m1.files[c].deletions == m.files[c].deletions);
    assert(m1.current == m.current);
}

/// Law: a content line taken into a file's diff lands, as its last line,
/// in the file's last hunk with exactly the line numbers git reports for
/// it (the old number in `old_line_number`, the new one in
/// `new_line_number`), the kind its origin gives and its text; the lines
/// before it stay as they were.
pub proof fn lemma_lines_keep_git_numbers(m: CollectorModel, hunk: Option<HunkHeader>, line: DiffLineRecord)
    requires
        m.current < m.files.len(),
        m.too_large.len() == m.files.len(),
        !m.files[m.current as int].binary,
        !m.too_large[m.current as int],
        line.origin == '+' || line.origin == '-' || line.origin == ' ',
        m.line_count + 1 <= MAX_LINES_PER_FILE,
        m.files[m.current as int].hunks.len() > 0 || (hunk matches Some(h) && m.last_header != Some(
            hunk_text(h.header@),
        )),
    ensures
        ({
            let c = m.current as int;
            let before = match hunk {
                Some(h) => with_hunk(m, h),
                None => m,
            }.files[c].hunks;
            let hs = step(m, hunk, line).files[c].hunks;
            &&& hs.len() == before.len() > 0
            &&& hs.last().lines.len() == before.last().lines.len() + 1
            &&& hs.last().lines.drop_last() == before.last().lines
            &&& hs.last().lines.last().old_line_number == line.old_lineno
            &&& hs.last().lines.last().new_line_number == line.new_lineno
            &&& (line.origin == '+' <==> hs.last().lines.last().kind == DiffLineKind::Addition)
            &&& (line.origin == '-' <==> hs.last().lines.last().kind == DiffLineKind::Deletion)
            &&& (line.origin == ' ' <==> hs.last().lines.last().kind == DiffLineKind::Context)
            &&& hs.last().lines.last().content == line_text(line.content@)
        }),
{
    let c = m.current as int;
    let m1 = match hunk {
        Some(h) => with_hunk(m, h),
        None => m,
    };
    assert(m1.current == m.current && m1.line_count == m.line_count && m1.too_large == m.too_large);
    assert(m1.files.len() == m.files.len());
    assert(m1.files[c].hunks.len() > 0);
    let hs = step(m, hunk, line).files[c].hunks;
    assert(hs.last().lines.drop_last() =~= m1.files[c].hunks.last().lines);
}

/// Law: the summary of a commit message is its first line: a prefix of
/// the message without line break, ending where the message ends or at its
/// first line break (`\n`, or `\r\n`).
pub proof fn lemma_summary_is_first_line(raw: Seq<char>)
    ensures
        ({
            let s = message_parts(raw).0;
            &&& s.len() <= raw.len()
            &&& s == raw.take(s.len() as int)
            &&& !s.contains('\n')
            &&& (s.len() == raw.len() || raw[s.len() as int] == '\n' || (raw[s.len() as int] == '\r'
                && s.len() + 1 < raw.len() && raw[s.len() as int + 1] == '\n'))
        }),
{
    lemma_char_from_bounds(raw, 0, '\n');
    let s = message_parts(raw).0;
    match char_from(raw, 0, '\n') {
        Some(k) => {
            let t = raw.take(k);
            if t.len() > 0 && t.last() == '\r' {
                assert(s =~= raw.take(k - 1));
            } else {
                assert(s =~= t);
            }
            assert forall|j: int| 0 <= j < s.len() implies s[j] != '\n' by {
                assert(s[j] == raw[j]);
            }
        },
        None => {
            assert(s =~= raw.take(raw.len() as int));
            assert forall|j: int| 0 <= j < s.len() implies s[j] != '\n' by {
                assert(s[j] == raw[j]);
            }
        },
    }
}

/// Law: a hunk header with a text other than the last one's opens a new,
/// empty last hunk of the current file that carries the header's text and
/// exactly the start lines and line counts git reports for it; a repeated
/// header opens none.
pub proof fn lemma_hunks_keep_git_ranges(m: CollectorModel, h: HunkHeader)
    requires
        m.current < m.files.len(),
    ensures
        ({
            let c = m.current as int;
            let r = with_hunk(m, h);
            &&& m.last_header != Some(hunk_text(h.header@)) ==> {
                &&& r.files[c].hunks.len() == m.files[c].hunks.len() + 1
                &&& r.files[c].hunks.drop_last() == m.files[c].hunks
                &&& r.files[c].hunks.last().header == hunk_text(h.header@)
                &&& r.files[c].hunks.last().old_start == h.old_start
                &&& r.files[c].hunks.last().old_lines == h.old_lines
                &&& r.files[c].hunks.last().new_start == h.new_start
                &&& r.files[c].hunks.last().new_lines == h.new_lines
                &&& r.files[c].hunks.last().lines.len() == 0
            }
            &&& m.last_header == Some(hunk_text(h.header@)) ==> r == m
            &&& r.files[c].insertions == m.files[c].insertions
            &&& r.files[c].deletions == m.files[c].deletions
        }),
{
    let c = m.current as int;
    let r = with_hunk(m, h);
    if m.last_header != Some(hunk_text(h.header@)) {
        assert(r.files[c].hunks.drop_last() =~= m.files[c].hunks);
    }
}

/// Law: the branch shown for a commit is the first one on the default
/// branch when there is one; otherwise the first branch that contains it.
pub proof fn lemma_branch_choice(cs: Seq<BranchCandidate>, default_ref: Seq<char>)
    ensures
        chosen_candidate(cs, default_ref) matches Some(i) ==> 0 <= i < cs.len(),
        (exists|j: int| 0 <= j < cs.len() && candidate_name(#[trigger] cs[j]) == default_ref) ==> {
            &&& chosen_candidate(cs, default_ref) matches Some(i)
            &&& candidate_name(cs[i]) == default_ref
            &&& forall|j: int| 0 <= j < i ==> candidate_name(#[trigger] cs[j]) != default_ref
        },
        (forall|j: int| 0 <= j < cs.len() ==> candidate_name(#[trigger] cs[j]) != default_ref) ==> chosen_candidate(
            cs,
            default_ref,
        ) == (if cs.len() > 0 {
            Some(0int)
        } else {
            None
        }),
{
    lemma_default_candidate(cs, default_ref, 0);
}

proof fn lemma_default_candidate(cs: Seq<BranchCandidate>, default_ref: Seq<char>, k: int)
    requires
        0 <= k,
    ensures
        default_candidate_from(cs, default_ref, k) matches Some(i) ==> k <= i < cs.len() && candidate_name(cs[i])
            == default_ref && forall|j: int| k <= j < i ==> candidate_name(#[trigger] cs[j]) != default_ref,
        default_candidate_from(cs, default_ref, k) is None ==> forall|j: int|
            k <= j < cs.len() ==> candidate_name(#[trigger] cs[j]) != default_ref,
    decreases cs.len() - k,
{
    if k < cs.len() && candidate_name(cs[k]) != default_ref {
        lemma_default_candidate(cs, default_ref, k + 1);
    }
}

} // verus!
