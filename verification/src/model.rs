//! The content model: what a clipboard entry holds, and the mathematical
//! view of each type that the contracts of this library speak of.

use crate::clock::unix_seconds;
use vstd::prelude::*;

verus! {

/// The number of entries a history keeps when no settings were stored.
pub open spec fn spec_default_history_limit() -> usize {
    1000
}

/// The history bound used when no settings were stored.
#[verifier::when_used_as_spec(spec_default_history_limit)]
pub fn default_history_limit() -> (limit: usize)
    ensures
        limit == spec_default_history_limit(),
{
    1000
}

/// User settings. `dark_mode` is carried through untouched.
#[derive(Debug, Clone, Copy, PartialEq, Eq, Structural)]
pub struct Settings {
    pub history_limit: usize,
    pub dark_mode: bool,
}

impl Settings {
    /// The settings in force when none were stored.
    pub open spec fn spec_default() -> Settings {
        Settings { history_limit: spec_default_history_limit(), dark_mode: false }
    }
}

impl Default for Settings {
    fn default() -> (settings: Settings)
        ensures
            settings == Settings::spec_default(),
    {
        Settings { history_limit: default_history_limit(), dark_mode: false }
    }
}

/// What an optional text holds, as a mathematical value.
pub open spec fn opt_text_view(text: Option<String>) -> Option<Seq<char>> {
    match text {
        Some(s) => Some(s@),
        None => None,
    }
}

/// A copy of an optional text.
pub fn clone_opt_text(text: &Option<String>) -> (copy: Option<String>)
    ensures
        opt_text_view(copy) == opt_text_view(*text),
{
    match text {
        Some(s) => Some(s.clone()),
        None => None,
    }
}

/// Whether two optional texts hold the same characters.
pub fn opt_text_eq(a: &Option<String>, b: &Option<String>) -> (same: bool)
    ensures
        same == (opt_text_view(*a) == opt_text_view(*b)),
{
    match (a, b) {
        (Some(x), Some(y)) => *x == *y,
        (None, None) => true,
        _ => false,
    }
}

/// One file named by a copied file list.
#[derive(Debug)]
pub struct FileInfo {
    pub path: String,
    pub name: String,
    pub extension: Option<String>,
    pub exists: bool,
    pub size: Option<u64>,
    pub mime_type: Option<String>,
    pub compressed: bool,
}

/// The mathematical value of a [`FileInfo`].
pub struct FileInfoView {
    pub path: Seq<char>,
    pub name: Seq<char>,
    pub extension: Option<Seq<char>>,
    pub exists: bool,
    pub size: Option<u64>,
    pub mime_type: Option<Seq<char>>,
    pub compressed: bool,
}

impl View for FileInfo {
    type V = FileInfoView;

    open spec fn view(&self) -> FileInfoView {
        FileInfoView {
            path: self.path@,
            name: self.name@,
            extension: opt_text_view(self.extension),
            exists: self.exists,
            size: self.size,
            mime_type: opt_text_view(self.mime_type),
            compressed: self.compressed,
        }
    }
}

impl Clone for FileInfo {
    fn clone(&self) -> (copy: FileInfo)
        ensures
            copy@ == self@,
    {
        FileInfo {
            path: self.path.clone(),
            name: self.name.clone(),
            extension: clone_opt_text(&self.extension),
            exists: self.exists,
            size: self.size,
            mime_type: clone_opt_text(&self.mime_type),
            compressed: self.compressed,
        }
    }
}

impl FileInfo {
    /// Whether two file records hold the same values.
    pub fn same_as(&self, other: &FileInfo) -> (same: bool)
        ensures
            same == (self@ == other@),
    {
        let size_eq = match (self.size, other.size) {
            (Some(a), Some(b)) => a == b,
            (None, None) => true,
            _ => false,
        };
        self.path == other.path && self.name == other.name && opt_text_eq(
            &self.extension,
            &other.extension,
        ) && self.exists == other.exists && size_eq && opt_text_eq(
            &self.mime_type,
            &other.mime_type,
        ) && self.compressed == other.compressed
    }
}

/// One slice of a large payload: its bytes, gzip-compressed where
/// `compressed` is set, written as standard base64 text.
#[derive(Debug)]
pub struct ChunkedContent {
    pub chunk_index: usize,
    pub total_chunks: usize,
    pub data: String,
    pub complete: bool,
    pub compressed: bool,
}

/// The mathematical value of a [`ChunkedContent`].
pub struct ChunkView {
    pub chunk_index: usize,
    pub total_chunks: usize,
    pub data: Seq<char>,
    pub complete: bool,
    pub compressed: bool,
}

impl View for ChunkedContent {
    type V = ChunkView;

    open spec fn view(&self) -> ChunkView {
        ChunkView {
            chunk_index: self.chunk_index,
            total_chunks: self.total_chunks,
            data: self.data@,
            complete: self.complete,
            compressed: self.compressed,
        }
    }
}

impl Clone for ChunkedContent {
    fn clone(&self) -> (copy: ChunkedContent)
        ensures
            copy@ == self@,
    {
        ChunkedContent {
            chunk_index: self.chunk_index,
            total_chunks: self.total_chunks,
            data: self.data.clone(),
            complete: self.complete,
            compressed: self.compressed,
        }
    }
}

impl ChunkedContent {
    /// Whether two chunks hold the same values.
    pub fn same_as(&self, other: &ChunkedContent) -> (same: bool)
        ensures
            same == (self@ == other@),
    {
        self.chunk_index == other.chunk_index && self.total_chunks == other.total_chunks
            && self.data == other.data && self.complete == other.complete && self.compressed
            == other.compressed
    }
}

/// The values of a list of file records.
pub open spec fn files_view(files: Seq<FileInfo>) -> Seq<FileInfoView> {
    Seq::new(files.len(), |i: int| files[i]@)
}

/// The values of a list of chunks.
pub open spec fn chunks_view(chunks: Seq<ChunkedContent>) -> Seq<ChunkView> {
    Seq::new(chunks.len(), |i: int| chunks[i]@)
}

/// A copy of a list of file records.
pub fn clone_files(files: &Vec<FileInfo>) -> (copy: Vec<FileInfo>)
    ensures
        files_view(copy@) == files_view(files@),
{
    let mut copy: Vec<FileInfo> = Vec::new();
    let mut i: usize = 0;
    while i < files.len()
        invariant
            i <= files.len(),
            copy.len() == i,
            forall|j: int| 0 <= j < i ==> copy[j]@ == files[j]@,
        decreases files.len() - i,
    {
        copy.push(files[i].clone());
        i += 1;
    }
    assert(files_view(copy@) =~= files_view(files@));
    copy
}

/// A copy of a list of chunks.
pub fn clone_chunks(chunks: &Vec<ChunkedContent>) -> (copy: Vec<ChunkedContent>)
    ensures
        chunks_view(copy@) == chunks_view(chunks@),
{
    let mut copy: Vec<ChunkedContent> = Vec::new();
    let mut i: usize = 0;
    while i < chunks.len()
        invariant
            i <= chunks.len(),
            copy.len() == i,
            forall|j: int| 0 <= j < i ==> copy[j]@ == chunks[j]@,
        decreases chunks.len() - i,
    {
        copy.push(chunks[i].clone());
        i += 1;
    }
    assert(chunks_view(copy@) =~= chunks_view(chunks@));
    copy
}

/// Whether two lists of file records hold the same values in the same order.
pub fn files_eq(a: &Vec<FileInfo>, b: &Vec<FileInfo>) -> (same: bool)
    ensures
        same == (files_view(a@) == files_view(b@)),
{
    if a.len() != b.len() {
        assert(files_view(a@).len() != files_view(b@).len());
        return false;
    }
    let mut i: usize = 0;
    while i < a.len()
        invariant
            i <= a.len(),
            a.len() == b.len(),
            forall|j: int| 0 <= j < i ==> a[j]@ == b[j]@,
        decreases a.len() - i,
    {
        if !a[i].same_as(&b[i]) {
            assert(files_view(a@)[i as int] != files_view(b@)[i as int]);
            return false;
        }
        i += 1;
    }
    assert(files_view(a@) =~= files_view(b@));
    true
}

/// Whether two lists of chunks hold the same values in the same order.
pub fn chunks_eq(a: &Vec<ChunkedContent>, b: &Vec<ChunkedContent>) -> (same: bool)
    ensures
        same == (chunks_view(a@) == chunks_view(b@)),
{
    if a.len() != b.len() {
        assert(chunks_view(a@).len() != chunks_view(b@).len());
        return false;
    }
    let mut i: usize = 0;
    while i < a.len()
        invariant
            i <= a.len(),
            a.len() == b.len(),
            forall|j: int| 0 <= j < i ==> a[j]@ == b[j]@,
        decreases a.len() - i,
    {
        if !a[i].same_as(&b[i]) {
            assert(chunks_view(a@)[i as int] != chunks_view(b@)[i as int]);
            return false;
        }
        i += 1;
    }
    assert(chunks_view(a@) =~= chunks_view(b@));
    true
}

/// What the clipboard held, by kind.
#[derive(Debug)]
#[allow(inconsistent_fields)]
pub enum ClipboardFormat {
    Text { content: String },
    /// `content` is the pixel bytes as standard base64 text.
    Image { content: String, mime_type: String, width: usize, height: usize },
    Html { content: String, plain_text: Option<String> },
    Rtf { content: String, plain_text: Option<String> },
    Files { files: Vec<FileInfo>, has_raw_data: bool },
    FileContent {
        chunks: Vec<ChunkedContent>,
        original_path: Option<String>,
        mime_type: Option<String>,
        total_size: usize,
        compressed: bool,
    },
}

/// The mathematical value of a [`ClipboardFormat`].
#[allow(inconsistent_fields)]
pub enum FormatView {
    Text { content: Seq<char> },
    Image { content: Seq<char>, mime_type: Seq<char>, width: usize, height: usize },
    Html { content: Seq<char>, plain_text: Option<Seq<char>> },
    Rtf { content: Seq<char>, plain_text: Option<Seq<char>> },
    Files { files: Seq<FileInfoView>, has_raw_data: bool },
    FileContent {
        chunks: Seq<ChunkView>,
        original_path: Option<Seq<char>>,
        mime_type: Option<Seq<char>>,
        total_size: usize,
        compressed: bool,
    },
}

impl View for ClipboardFormat {
    type V = FormatView;

    open spec fn view(&self) -> FormatView {
        match *self {
            ClipboardFormat::Text { content } => FormatView::Text { content: content@ },
            ClipboardFormat::Image { content, mime_type, width, height } => FormatView::Image {
                content: content@,
                mime_type: mime_type@,
                width,
                height,
            },
            ClipboardFormat::Html { content, plain_text } => FormatView::Html {
                content: content@,
                plain_text: opt_text_view(plain_text),
            },
            ClipboardFormat::Rtf { content, plain_text } => FormatView::Rtf {
                content: content@,
                plain_text: opt_text_view(plain_text),
            },
            ClipboardFormat::Files { files, has_raw_data } => FormatView::Files {
                files: files_view(files@),
                has_raw_data,
            },
            ClipboardFormat::FileContent {
                chunks,
                original_path,
                mime_type,
                total_size,
                compressed,
            } => FormatView::FileContent {
                chunks: chunks_view(chunks@),
                original_path: opt_text_view(original_path),
                mime_type: opt_text_view(mime_type),
                total_size,
                compressed,
            },
        }
    }
}

impl Clone for ClipboardFormat {
    fn clone(&self) -> (copy: ClipboardFormat)
        ensures
            copy@ == self@,
    {
        match self {
            ClipboardFormat::Text { content } => ClipboardFormat::Text { content: content.clone() },
            ClipboardFormat::Image { content, mime_type, width, height } => ClipboardFormat::Image {
                content: content.clone(),
                mime_type: mime_type.clone(),
                width: *width,
                height: *height,
            },
            ClipboardFormat::Html { content, plain_text } => ClipboardFormat::Html {
                content: content.clone(),
                plain_text: clone_opt_text(plain_text),
            },
            ClipboardFormat::Rtf { content, plain_text } => ClipboardFormat::Rtf {
                content: content.clone(),
                plain_text: clone_opt_text(plain_text),
            },
            ClipboardFormat::Files { files, has_raw_data } => ClipboardFormat::Files {
                files: clone_files(files),
                has_raw_data: *has_raw_data,
            },
            ClipboardFormat::FileContent {
                chunks,
                original_path,
                mime_type,
                total_size,
                compressed,
            } => ClipboardFormat::FileContent {
                chunks: clone_chunks(chunks),
                original_path: clone_opt_text(original_path),
                mime_type: clone_opt_text(mime_type),
                total_size: *total_size,
                compressed: *compressed,
            },
        }
    }
}

impl ClipboardFormat {
    /// Structural equality: the same kind, holding the same values.
    pub fn same_as(&self, other: &ClipboardFormat) -> (same: bool)
        ensures
            same == (self@ == other@),
    {
        match (self, other) {
            (ClipboardFormat::Text { content: a }, ClipboardFormat::Text { content: b }) => *a
                == *b,
            (
                ClipboardFormat::Image { content: a, mime_type: ma, width: wa, height: ha },
                ClipboardFormat::Image { content: b, mime_type: mb, width: wb, height: hb },
            ) => *a == *b && *ma == *mb && *wa == *wb && *ha == *hb,
            (
                ClipboardFormat::Html { content: a, plain_text: pa },
                ClipboardFormat::Html { content: b, plain_text: pb },
            ) => *a == *b && opt_text_eq(pa, pb),
            (
                ClipboardFormat::Rtf { content: a, plain_text: pa },
                ClipboardFormat::Rtf { content: b, plain_text: pb },
            ) => *a == *b && opt_text_eq(pa, pb),
            (
                ClipboardFormat::Files { files: a, has_raw_data: ra },
                ClipboardFormat::Files { files: b, has_raw_data: rb },
            ) => files_eq(a, b) && *ra == *rb,
            (
                ClipboardFormat::FileContent {
                    chunks: a,
                    original_path: pa,
                    mime_type: ma,
                    total_size: sa,
                    compressed: ca,
                },
                ClipboardFormat::FileContent {
                    chunks: b,
                    original_path: pb,
                    mime_type: mb,
                    total_size: sb,
                    compressed: cb,
                },
            ) => chunks_eq(a, b) && opt_text_eq(pa, pb) && opt_text_eq(ma, mb) && *sa == *sb
                && *ca == *cb,
            _ => false,
        }
    }
}

/// One captured clipboard value: what was copied, when, and whether the
/// user marked it as a favorite.
#[derive(Debug)]
pub struct ClipboardContent {
    pub format: ClipboardFormat,
    pub timestamp: u64,
    pub favorite: bool,
}

/// The mathematical value of a [`ClipboardContent`].
pub struct ContentView {
    pub format: FormatView,
    pub timestamp: u64,
    pub favorite: bool,
}

impl View for ClipboardContent {
    type V = ContentView;

    open spec fn view(&self) -> ContentView {
        ContentView { format: self.format@, timestamp: self.timestamp, favorite: self.favorite }
    }
}

impl Clone for ClipboardContent {
    fn clone(&self) -> (copy: ClipboardContent)
        ensures
            copy@ == self@,
    {
        ClipboardContent {
            format: self.format.clone(),
            timestamp: self.timestamp,
            favorite: self.favorite,
        }
    }
}

impl ClipboardContent {
    /// An entry captured at the given time, not a favorite.
    pub fn with_timestamp(format: ClipboardFormat, timestamp: u64) -> (entry: ClipboardContent)
        ensures
            entry.format == format,
            entry.timestamp == timestamp,
            !entry.favorite,
    {
        ClipboardContent { format, timestamp, favorite: false }
    }

    /// An entry captured now, not a favorite. The timestamp is whatever the
    /// system clock reads.
    pub fn new(format: ClipboardFormat) -> (entry: ClipboardContent)
        ensures
            entry.format == format,
            !entry.favorite,
    {
        ClipboardContent::with_timestamp(format, unix_seconds())
    }

    /// Structural equality: the same content, time and favorite flag.
    pub fn same_as(&self, other: &ClipboardContent) -> (same: bool)
        ensures
            same == (self@ == other@),
    {
        self.format.same_as(&other.format) && self.timestamp == other.timestamp && self.favorite
            == other.favorite
    }
}

/// The values of a list of entries.
pub open spec fn history_view(history: Seq<ClipboardContent>) -> Seq<ContentView> {
    Seq::new(history.len(), |i: int| history[i]@)
}

/// A copy of a list of entries.
pub fn clone_history(history: &Vec<ClipboardContent>) -> (copy: Vec<ClipboardContent>)
    ensures
        history_view(copy@) == history_view(history@),
{
    let mut copy: Vec<ClipboardContent> = Vec::new();
    let mut i: usize = 0;
    while i < history.len()
        invariant
            i <= history.len(),
            copy.len() == i,
            forall|j: int| 0 <= j < i ==> copy[j]@ == history[j]@,
        decreases history.len() - i,
    {
        copy.push(history[i].clone());
        i += 1;
    }
    assert(history_view(copy@) =~= history_view(history@));
    copy
}

/// The persisted snapshot: the entries newest first, when they last
/// changed, and the settings stored with them.
#[derive(Debug)]
pub struct StoredState {
    pub history: Vec<ClipboardContent>,
    pub last_update: u64,
    pub settings: Settings,
}

/// The mathematical value of a [`StoredState`].
pub struct StateView {
    pub history: Seq<ContentView>,
    pub last_update: u64,
    pub settings: Settings,
}

impl View for StoredState {
    type V = StateView;

    open spec fn view(&self) -> StateView {
        StateView {
            history: history_view(self.history@),
            last_update: self.last_update,
            settings: self.settings,
        }
    }
}

impl Clone for StoredState {
    fn clone(&self) -> (copy: StoredState)
        ensures
            copy@ == self@,
    {
        StoredState {
            history: clone_history(&self.history),
            last_update: self.last_update,
            settings: self.settings,
        }
    }
}

} // verus!
