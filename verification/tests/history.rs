use clipman::history::{is_duplicate, is_noise_format, is_noise_text, is_same_content};
use clipman::model::{
    default_history_limit, ClipboardContent, ClipboardFormat, Settings, StoredState,
};

fn text(body: &str) -> ClipboardFormat {
    ClipboardFormat::Text { content: body.to_string() }
}

fn image(pixels: &str, width: usize) -> ClipboardFormat {
    ClipboardFormat::Image {
        content: pixels.to_string(),
        mime_type: "image/png".to_string(),
        width,
        height: 1,
    }
}

fn html(markup: &str) -> ClipboardFormat {
    ClipboardFormat::Html { content: markup.to_string(), plain_text: None }
}

fn entry(format: ClipboardFormat, at: u64) -> ClipboardContent {
    ClipboardContent::with_timestamp(format, at)
}

fn bodies(state: &StoredState) -> Vec<String> {
    state
        .history
        .iter()
        .map(|e| match &e.format {
            ClipboardFormat::Text { content } => content.clone(),
            other => format!("{:?}", other),
        })
        .collect()
}

fn limit(n: usize) -> Settings {
    Settings { history_limit: n, dark_mode: false }
}

#[test]
fn hello_hello_world() {
    let settings = Settings::default();
    assert_eq!(settings.history_limit, 1000);
    let mut state = StoredState::empty(100);
    assert!(state.append(entry(text("hello"), 101), &settings, 101));
    assert_eq!(bodies(&state), vec!["hello"]);
    assert!(!state.append(entry(text("hello"), 102), &settings, 102));
    assert_eq!(bodies(&state), vec!["hello"]);
    assert_eq!(state.last_update, 101);
    assert!(state.append(entry(text("world"), 103), &settings, 103));
    assert_eq!(bodies(&state), vec!["world", "hello"]);
    assert_eq!(state.last_update, 103);
    assert_eq!(state.history[0].timestamp, 103);
    assert_eq!(state.history[1].timestamp, 101);
}

#[test]
fn same_content_twice_is_stored_once() {
    let mut state = StoredState::empty(0);
    state.append(entry(image("AAAA", 2), 1), &limit(10), 1);
    state.append(entry(image("AAAA", 7), 2), &limit(10), 2);
    assert_eq!(state.history.len(), 1);
    assert_eq!(state.history[0].timestamp, 1);
}

#[test]
fn markup_is_never_a_duplicate() {
    let mut state = StoredState::empty(0);
    assert!(state.append(entry(html("<b>x</b>"), 1), &limit(10), 1));
    assert!(state.append(entry(html("<b>x</b>"), 2), &limit(10), 2));
    assert_eq!(state.history.len(), 2);
}

#[test]
fn history_keeps_the_newest_within_the_limit() {
    let mut state = StoredState::empty(0);
    let settings = limit(2);
    for (i, body) in ["one", "two", "two", "ab", "three", "one", "$ ls", "four"].iter().enumerate() {
        state.append(entry(text(body), i as u64), &settings, i as u64);
        assert!(state.history.len() <= 2);
    }
    assert_eq!(bodies(&state), vec!["four", "one"]);
}

#[test]
fn evicted_content_may_enter_again() {
    let mut state = StoredState::empty(0);
    let settings = limit(1);
    assert!(state.append(entry(text("first"), 1), &settings, 1));
    assert!(state.append(entry(text("second"), 2), &settings, 2));
    assert!(state.append(entry(text("first"), 3), &settings, 3));
    assert_eq!(bodies(&state), vec!["first"]);
    assert_eq!(state.history[0].timestamp, 3);
}

#[test]
fn limit_of_zero_keeps_nothing_but_counts_as_a_change() {
    let mut state = StoredState::empty(5);
    assert!(state.append(entry(text("hello"), 9), &limit(0), 9));
    assert!(state.history.is_empty());
    assert_eq!(state.last_update, 9);
}

#[test]
fn shrunk_limit_cuts_on_the_next_write() {
    let mut state = StoredState::empty(0);
    for (i, body) in ["aaa", "bbb", "ccc", "ddd"].iter().enumerate() {
        state.append(entry(text(body), i as u64), &limit(10), i as u64);
    }
    assert_eq!(state.history.len(), 4);
    assert!(!state.append(entry(text("ccc"), 7), &limit(2), 7));
    assert_eq!(state.history.len(), 4);
    assert!(state.append(entry(text("eee"), 8), &limit(2), 8));
    assert_eq!(bodies(&state), vec!["eee", "ddd"]);
}

#[test]
fn noise_never_enters_the_history() {
    let mut state = StoredState::empty(50);
    assert!(!state.append(entry(text("$ ls"), 51), &Settings::default(), 51));
    assert!(!state.append(entry(text("ab"), 52), &Settings::default(), 52));
    assert!(!state.append(entry(text(""), 53), &Settings::default(), 53));
    assert!(!state.append(entry(text("\u{276f} cargo build"), 54), &Settings::default(), 54));
    assert!(state.history.is_empty());
    assert_eq!(state.last_update, 50);
}

#[test]
fn noise_is_short_text_or_a_prompt_marker() {
    assert!(is_noise_text(""));
    assert!(is_noise_text("ab"));
    assert!(!is_noise_text("abc"));
    assert!(is_noise_text("$ ls"));
    assert!(is_noise_text("user@host:~$ ls"));
    assert!(is_noise_text("ends with $ "));
    assert!(is_noise_text("\u{276f} ls"));
    assert!(!is_noise_text("costs 5$"));
    assert!(!is_noise_text("a$b c"));
    assert!(!is_noise_text("$PATH is set"));
    assert!(!is_noise_text("\u{276f}x y"));
    assert!(is_noise_text("\u{65e5}\u{672c}"));
    assert!(!is_noise_text("\u{65e5}\u{672c}\u{8a9e}"));
}

#[test]
fn only_text_can_be_noise() {
    assert!(is_noise_format(&text("ab")));
    assert!(!is_noise_format(&text("abc")));
    assert!(!is_noise_format(&image("", 0)));
    assert!(!is_noise_format(&html("$ ")));
}

#[test]
fn same_content_compares_bodies_and_pixels_only() {
    assert!(is_same_content(&text("abc"), &text("abc")));
    assert!(!is_same_content(&text("abc"), &text("abd")));
    assert!(is_same_content(&image("AAAA", 1), &image("AAAA", 9)));
    assert!(!is_same_content(&image("AAAA", 1), &image("AAAB", 1)));
    assert!(!is_same_content(&text("AAAA"), &image("AAAA", 1)));
    assert!(!is_same_content(&html("x"), &html("x")));
}

#[test]
fn duplicate_looks_at_every_stored_entry() {
    let mut state = StoredState::empty(0);
    for (i, body) in ["aaa", "bbb", "ccc"].iter().enumerate() {
        state.append(entry(text(body), i as u64), &limit(10), i as u64);
    }
    assert!(is_duplicate(&text("aaa"), &state));
    assert!(is_duplicate(&text("ccc"), &state));
    assert!(!is_duplicate(&text("ddd"), &state));
    assert!(!is_duplicate(&image("aaa", 1), &state));
}

#[test]
fn clear_then_history_is_empty() {
    let mut state = StoredState::empty(0);
    state.settings = Settings { history_limit: 5, dark_mode: true };
    state.append(entry(text("hello"), 1), &limit(5), 1);
    state.clear(77);
    assert!(state.entries().is_empty());
    assert_eq!(state.last_update, 77);
    assert_eq!(state.settings, Settings::default());
}

#[test]
fn entries_are_the_history_newest_first() {
    let mut state = StoredState::empty(0);
    state.append(entry(text("one"), 1), &limit(5), 1);
    state.append(entry(text("two"), 2), &limit(5), 2);
    let entries = state.entries();
    assert_eq!(entries.len(), 2);
    assert!(entries[0].same_as(&state.history[0]));
    assert!(entries[1].same_as(&state.history[1]));
    assert_eq!(entries[0].timestamp, 2);
}

#[test]
fn append_leaves_the_stored_settings_alone() {
    let mut state = StoredState::empty(0);
    state.settings = Settings { history_limit: 7, dark_mode: true };
    state.append(entry(text("hello"), 1), &limit(3), 1);
    assert_eq!(state.settings, Settings { history_limit: 7, dark_mode: true });
}

#[test]
fn absent_store_gives_empty_snapshot_and_default_settings() {
    let state = StoredState::loaded_or_empty(None, 42);
    assert!(state.history.is_empty());
    assert_eq!(state.last_update, 42);
    assert_eq!(state.settings, Settings::default());
    let mut kept = StoredState::empty(1);
    kept.append(entry(text("kept"), 2), &limit(5), 2);
    let state = StoredState::loaded_or_empty(Some(kept), 42);
    assert_eq!(bodies(&state), vec!["kept"]);
    assert_eq!(state.last_update, 2);
    assert_eq!(Settings::loaded_or_default(None), Settings::default());
    let custom = Settings { history_limit: 3, dark_mode: true };
    assert_eq!(Settings::loaded_or_default(Some(custom)), custom);
}

#[test]
fn default_settings() {
    assert_eq!(default_history_limit(), 1000);
    assert_eq!(Settings::default(), Settings { history_limit: 1000, dark_mode: false });
}
