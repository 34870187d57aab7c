//! Where the snapshot and the settings live below the per-user data
//! directory of each supported system.

use crate::error::ClipboardError;
use vstd::prelude::*;

verus! {

/// The directory of this application below the data directory.
pub const APP_NAME: &'static str = "clipman";

/// The file that holds the history snapshot.
pub const STATE_FILE: &'static str = "clipboard_state.json";

/// The file that holds the settings.
pub const SETTINGS_FILE: &'static str = "settings.json";

/// The directories to descend from the data directory on a system, by
/// its name; `None` for a system that is not supported.
pub open spec fn data_dir_layout(os: Seq<char>) -> Option<Seq<Seq<char>>> {
    if os == "linux"@ || os == "windows"@ {
        Some(seq![APP_NAME@])
    } else if os == "macos"@ {
        Some(seq!["Application Support"@, APP_NAME@])
    } else {
        None
    }
}

/// The texts of a list of path segments.
pub open spec fn segments_view(segments: Seq<String>) -> Seq<Seq<char>> {
    Seq::new(segments.len(), |i: int| segments[i]@)
}

/// Whether two texts hold the same characters.
fn same_text(a: &str, b: &str) -> (same: bool)
    ensures
        same == (a@ == b@),
{
    a.to_owned() == b.to_owned()
}

/// The directories to descend from the per-user data directory to reach
/// this application's directory, on the system named `os`. A system other
/// than Linux, macOS and Windows is refused as `Io`.
pub fn data_dir_segments(os: &str) -> (segments: Result<Vec<String>, ClipboardError>)
    ensures
        match segments {
            Ok(found) => data_dir_layout(os@) == Some(segments_view(found@)),
            Err(error) => error == ClipboardError::Io && data_dir_layout(os@) is None,
        },
{
    let mut found: Vec<String> = Vec::new();
    if same_text(os, "linux") || same_text(os, "windows") {
        found.push(APP_NAME.to_owned());
        assert(segments_view(found@) =~= seq![APP_NAME@]);
        Ok(found)
    } else if same_text(os, "macos") {
        found.push("Application Support".to_owned());
        found.push(APP_NAME.to_owned());
        assert(segments_view(found@) =~= seq!["Application Support"@, APP_NAME@]);
        Ok(found)
    } else {
        Err(ClipboardError::Io)
    }
}

} // verus!
