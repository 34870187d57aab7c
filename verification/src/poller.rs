//! The polling state machine: how one reading of the system clipboard is
//! classified, when it counts as a change, and what a stored value asks
//! the system clipboard to hold when it is written back.

use crate::codec::{base64_bytes, base64_decode, base64_encode, base64_text, detect_mime_type};
use crate::error::ClipboardError;
use crate::model::{
    clone_opt_text, opt_text_view, ClipboardContent, ClipboardFormat, ContentView, FormatView,
};
use vstd::prelude::*;

verus! {

/// The pixels of an image as the system clipboard hands them out.
#[derive(Debug)]
pub struct RawImage {
    pub bytes: Vec<u8>,
    pub width: usize,
    pub height: usize,
}

/// One reading of the system clipboard: the text it gave, if any, and the
/// image it gave, if any. A read that failed counts as nothing.
#[derive(Debug)]
pub struct ClipboardRead {
    pub text: Option<String>,
    pub image: Option<RawImage>,
}

/// What a reading is classified as, given the media type that its image
/// bytes were judged to be: its text where there is one, else its image
/// with the pixels as base64 text, that media type and the size as
/// reported, else nothing. The media type plays no part but for an image.
pub open spec fn classified(read: ClipboardRead, sniffed: Seq<char>) -> Option<FormatView> {
    match read.text {
        Some(text) => Some(FormatView::Text { content: text@ }),
        None => match read.image {
            Some(image) => Some(
                FormatView::Image {
                    content: base64_text(image.bytes@),
                    mime_type: sniffed,
                    width: image.width,
                    height: image.height,
                },
            ),
            None => None,
        },
    }
}

/// The media type that an image value carries; empty for any other kind.
pub open spec fn image_mime(format: FormatView) -> Seq<char> {
    match format {
        FormatView::Image { mime_type, .. } => mime_type,
        _ => Seq::empty(),
    }
}

/// Classifies one reading of the system clipboard, given the media type
/// that the bytes of its image were judged to be. Text wins over an image;
/// an image is taken as it is, with no conversion, and carries that media
/// type.
pub fn classify_as(read: &ClipboardRead, sniffed: String) -> (format: Option<ClipboardFormat>)
    ensures
        match format {
            Some(format) => classified(*read, sniffed@) == Some(format@),
            None => classified(*read, sniffed@) is None,
        },
{
    match &read.text {
        Some(text) => Some(ClipboardFormat::Text { content: text.clone() }),
        None => match &read.image {
            Some(image) => Some(
                ClipboardFormat::Image {
                    content: base64_encode(image.bytes.as_slice()),
                    mime_type: sniffed,
                    width: image.width,
                    height: image.height,
                },
            ),
            None => None,
        },
    }
}

/// Classifies one reading of the system clipboard. Where the reading is
/// an image, its media type is judged by its bytes; the result is then
/// what `classify_as` gives for that media type, which the image value
/// carries. Which media type that is depends on the definitions installed
/// on the machine.
pub fn classify(read: &ClipboardRead) -> (format: Option<ClipboardFormat>)
    ensures
        match format {
            Some(format) => classified(*read, image_mime(format@)) == Some(format@),
            None => forall|sniffed: Seq<char>| #[trigger] classified(*read, sniffed) is None,
        },
{
    let sniffed = match (&read.text, &read.image) {
        (None, Some(image)) => detect_mime_type(image.bytes.as_slice()),
        _ => None,
    };
    match sniffed {
        Some(mime) => classify_as(read, mime),
        None => classify_as(read, String::new()),
    }
}

/// The poller's memory: whether monitoring was started, and the value
/// seen last. Monitoring counts as running from the first start on, and
/// also once a value was seen.
#[derive(Debug)]
pub struct ClipboardState {
    pub started: bool,
    pub last_content: Option<ClipboardContent>,
}

/// What a request to start monitoring led to.
#[derive(Debug)]
pub enum Monitoring {
    /// Monitoring was running already; nothing was done.
    AlreadyRunning,
    /// Monitoring starts now. `first` is the value that the clipboard held
    /// at the start, to be published and stored, if it held one.
    Started { first: Option<ClipboardContent> },
}

/// The value of an optional entry.
pub open spec fn opt_content_view(content: Option<ClipboardContent>) -> Option<ContentView> {
    match content {
        Some(entry) => Some(entry@),
        None => None,
    }
}

/// The value of an optional classified reading.
pub open spec fn opt_format_view(seen: Option<ClipboardFormat>) -> Option<FormatView> {
    match seen {
        Some(format) => Some(format@),
        None => None,
    }
}

/// Whether a classified reading is a change against the value seen last.
pub open spec fn is_change(last: Option<ContentView>, seen: Option<FormatView>) -> bool {
    match seen {
        Some(format) => !(last matches Some(entry) && entry.format == format),
        None => false,
    }
}

/// The entry captured from a reading at time `now`.
pub open spec fn captured(seen: Option<FormatView>, now: u64) -> ContentView {
    ContentView { format: seen->0, timestamp: now, favorite: false }
}

impl ClipboardState {
    /// The value seen last, as a mathematical value.
    pub open spec fn last_seen(&self) -> Option<ContentView> {
        opt_content_view(self.last_content)
    }

    /// Whether monitoring is running: it was started, or a value was seen.
    pub open spec fn running(&self) -> bool {
        self.started || self.last_content is Some
    }

    /// A poller that was not started and has seen nothing yet.
    pub fn new() -> (state: ClipboardState)
        ensures
            !state.started,
            state.last_seen() is None,
            !state.running(),
    {
        ClipboardState { started: false, last_content: None }
    }

    /// Whether monitoring is running.
    pub fn is_monitoring(&self) -> (running: bool)
        ensures
            running == self.running(),
    {
        self.started || self.last_content.is_some()
    }

    /// One tick: takes what a reading made at time `now` was classified
    /// as. Where that is content which differs from the value seen last,
    /// it becomes the value seen last and is returned as a new entry, to
    /// be published and offered to the history. Otherwise nothing changes
    /// and nothing is returned. Whether monitoring was started is left as
    /// it is.
    pub fn observe(&mut self, seen: Option<ClipboardFormat>, now: u64) -> (change: Option<
        ClipboardContent,
    >)
        ensures
            final(self).started == old(self).started,
            is_change(old(self).last_seen(), opt_format_view(seen)) ==> {
                &&& opt_content_view(change) == Some(captured(opt_format_view(seen), now))
                &&& final(self).last_seen() == Some(captured(opt_format_view(seen), now))
            },
            !is_change(old(self).last_seen(), opt_format_view(seen)) ==> {
                &&& change is None
                &&& final(self).last_seen() == old(self).last_seen()
            },
    {
        let format = match seen {
            Some(format) => format,
            None => {
                return None;
            },
        };
        let unchanged = match &self.last_content {
            Some(last) => last.format.same_as(&format),
            None => false,
        };
        if unchanged {
            return None;
        }
        let entry = ClipboardContent::with_timestamp(format, now);
        self.last_content = Some(entry.clone());
        Some(entry)
    }

    /// A request to start monitoring, with what a reading made at time
    /// `now` was classified as. While monitoring runs the request does
    /// nothing at all. Otherwise monitoring counts as started from now on,
    /// whether or not the clipboard held anything, and the reading is
    /// taken as the first tick.
    pub fn start(&mut self, seen: Option<ClipboardFormat>, now: u64) -> (outcome: Monitoring)
        ensures
            final(self).running(),
            old(self).running() ==> {
                &&& outcome is AlreadyRunning
                &&& final(self).started == old(self).started
                &&& final(self).last_seen() == old(self).last_seen()
            },
            !old(self).running() ==> {
                &&& outcome matches Monitoring::Started { first }
                &&& final(self).started
                &&& opt_content_view(first) == final(self).last_seen()
                &&& final(self).last_seen() == match opt_format_view(seen) {
                    Some(format) => Some(captured(opt_format_view(seen), now)),
                    None => None,
                }
            },
    {
        if self.is_monitoring() {
            return Monitoring::AlreadyRunning;
        }
        self.started = true;
        let first = self.observe(seen, now);
        Monitoring::Started { first }
    }
}

/// What writing a stored value back asks the system clipboard to hold.
#[derive(Debug)]
pub enum ClipboardWrite {
    Text { content: String },
    Image { bytes: Vec<u8>, width: usize, height: usize },
    Html { content: String, plain_text: Option<String> },
}

/// The mathematical value of a [`ClipboardWrite`].
pub enum WriteView {
    Text { content: Seq<char> },
    Image { bytes: Seq<u8>, width: usize, height: usize },
    Html { content: Seq<char>, plain_text: Option<Seq<char>> },
}

impl View for ClipboardWrite {
    type V = WriteView;

    open spec fn view(&self) -> WriteView {
        match *self {
            ClipboardWrite::Text { content } => WriteView::Text { content: content@ },
            ClipboardWrite::Image { bytes, width, height } => WriteView::Image {
                bytes: bytes@,
                width,
                height,
            },
            ClipboardWrite::Html { content, plain_text } => WriteView::Html {
                content: content@,
                plain_text: opt_text_view(plain_text),
            },
        }
    }
}

/// What writing a value back comes to: a text and a markup go out as they
/// are, an image goes out as the pixels that its base64 text stands for,
/// and the other kinds cannot be written.
pub open spec fn planned_write(format: FormatView) -> Result<WriteView, ClipboardError> {
    match format {
        FormatView::Text { content } => Ok(WriteView::Text { content }),
        FormatView::Image { content, width, height, .. } => match base64_bytes(content) {
            Some(bytes) => Ok(WriteView::Image { bytes, width, height }),
            None => Err(ClipboardError::InvalidEncoding),
        },
        FormatView::Html { content, plain_text } => Ok(WriteView::Html { content, plain_text }),
        _ => Err(ClipboardError::UnsupportedFormat),
    }
}

/// The value of a planned write or of its refusal.
pub open spec fn write_result_view(plan: Result<ClipboardWrite, ClipboardError>) -> Result<
    WriteView,
    ClipboardError,
> {
    match plan {
        Ok(write) => Ok(write@),
        Err(error) => Err(error),
    }
}

/// Decides what writing `format` back to the system clipboard takes. Text,
/// images and HTML can be written; an image whose content is not base64 is
/// refused as `InvalidEncoding`, and rich text, file lists and file
/// contents as `UnsupportedFormat`.
pub fn plan_write(format: &ClipboardFormat) -> (plan: Result<ClipboardWrite, ClipboardError>)
    ensures
        write_result_view(plan) == planned_write(format@),
{
    match format {
        ClipboardFormat::Text { content } => Ok(ClipboardWrite::Text { content: content.clone() }),
        ClipboardFormat::Image { content, width, height, .. } => match base64_decode(
            content.as_str(),
        ) {
            Ok(bytes) => Ok(ClipboardWrite::Image { bytes, width: *width, height: *height }),
            Err(_) => Err(ClipboardError::InvalidEncoding),
        },
        ClipboardFormat::Html { content, plain_text } => Ok(
            ClipboardWrite::Html {
                content: content.clone(),
                plain_text: clone_opt_text(plain_text),
            },
        ),
        _ => Err(ClipboardError::UnsupportedFormat),
    }
}

} // verus!
