//! The bounded history: which captured values are noise, which repeat a
//! stored one, and how a new value enters the snapshot.

use crate::model::{
    clone_history, history_view, ClipboardContent, ClipboardFormat, ContentView, FormatView, Settings, StateView,
    StoredState,
};
use vstd::prelude::*;
use vstd::std_specs::iter::IteratorSpec;

verus! {

/// The shortest text that is kept, in characters.
pub const MIN_TEXT_LEN: usize = 3;

/// Whether a character opens a shell prompt marker: `$` or the heavy
/// right-pointing angle U+276F.
pub open spec fn is_prompt_char(c: char) -> bool {
    c == '$' || c == '\u{276f}'
}

/// Whether a prompt marker stands at position `i`: a prompt character
/// followed by a space.
pub open spec fn marker_at(text: Seq<char>, i: int) -> bool {
    0 <= i && i + 1 < text.len() && is_prompt_char(text[i]) && text[i + 1] == ' '
}

/// Whether a text holds a shell prompt marker anywhere.
pub open spec fn has_prompt_marker(text: Seq<char>) -> bool {
    exists|i: int| #[trigger] marker_at(text, i)
}

/// Whether a text is noise: shorter than three characters, or holding a
/// shell prompt marker.
pub open spec fn noise_text(text: Seq<char>) -> bool {
    text.len() < MIN_TEXT_LEN || has_prompt_marker(text)
}

/// Whether a text is noise.
pub fn is_noise_text(text: &str) -> (noise: bool)
    ensures
        noise == noise_text(text@),
{
    let mut chars = text.chars();
    let mut seen: usize = 0;
    let mut after_prompt: bool = false;
    let mut marker: bool = false;
    loop
        invariant
            chars.decrease() is Some,
            ({
                let done = text@.len() - chars.remaining().len();
                &&& 0 <= done <= text@.len()
                &&& chars.remaining() == text@.subrange(done, text@.len() as int)
                &&& seen == if done < MIN_TEXT_LEN { done } else { MIN_TEXT_LEN as int }
                &&& after_prompt == (done > 0 && is_prompt_char(text@[done - 1]))
                &&& marker == exists|i: int| i + 1 < done && #[trigger] marker_at(text@, i)
            }),
        ensures
            chars.remaining().len() == 0,
            seen == if text@.len() < MIN_TEXT_LEN { text@.len() as int } else { MIN_TEXT_LEN as int },
            marker == has_prompt_marker(text@),
        decreases chars.decrease()->0,
    {
        let ghost done = text@.len() - chars.remaining().len();
        match chars.next() {
            Some(c) => {
                assert(c == text@[done]);
                if after_prompt && c == ' ' {
                    assert(marker_at(text@, done - 1));
                    marker = true;
                }
                after_prompt = c == '$' || c == '\u{276f}';
                if seen < MIN_TEXT_LEN {
                    seen += 1;
                }
                proof {
                    assert(chars.remaining() =~= text@.subrange(done + 1, text@.len() as int));
                    if !marker {
                        assert forall|i: int| i + 1 < done + 1 implies !#[trigger] marker_at(
                            text@,
                            i,
                        ) by {
                            if i + 1 < done {
                            }
                        }
                    }
                }
            },
            None => {
                proof {
                    if has_prompt_marker(text@) {
                        let i = choose|i: int| #[trigger] marker_at(text@, i);
                        assert(i + 1 < done);
                    }
                }
                break ;
            },
        }
    }
    seen < MIN_TEXT_LEN || marker
}

/// Whether a value is noise: a text that `noise_text` describes. No other
/// kind of content is noise.
pub open spec fn is_noise(format: FormatView) -> bool {
    format matches FormatView::Text { content } && noise_text(content)
}

/// Whether two values count as the same content: two texts with equal
/// bodies, or two images with equal encoded pixels. No other pair does,
/// whatever it holds.
pub open spec fn same_content(a: FormatView, b: FormatView) -> bool {
    match (a, b) {
        (FormatView::Text { content: x }, FormatView::Text { content: y }) => x == y,
        (FormatView::Image { content: x, .. }, FormatView::Image { content: y, .. }) => x == y,
        _ => false,
    }
}

/// Whether some stored entry counts as the same content as `candidate`.
pub open spec fn duplicate_in(history: Seq<ContentView>, candidate: FormatView) -> bool {
    exists|i: int| 0 <= i < history.len() && same_content((#[trigger] history[i]).format, candidate)
}

/// Whether a value enters the history: it is neither noise nor a
/// duplicate of a stored entry.
pub open spec fn accepts(history: Seq<ContentView>, candidate: FormatView) -> bool {
    !is_noise(candidate) && !duplicate_in(history, candidate)
}

/// The first `limit` entries of a newest-first list; all of them where
/// there are fewer.
pub open spec fn newest(entries: Seq<ContentView>, limit: usize) -> Seq<ContentView> {
    if entries.len() <= limit {
        entries
    } else {
        entries.take(limit as int)
    }
}

/// The history after offering `entry` under `limit`: where the entry is
/// accepted it stands first and the oldest entries beyond the limit are
/// gone; else the history is as it was.
pub open spec fn appended_history(history: Seq<ContentView>, entry: ContentView, limit: usize) -> Seq<
    ContentView,
> {
    if accepts(history, entry.format) {
        newest(seq![entry] + history, limit)
    } else {
        history
    }
}

/// The snapshot after offering `entry` at time `now` under `limit`: the
/// history as `appended_history` gives it, the time of change `now` where
/// the entry was accepted, the stored settings untouched.
pub open spec fn appended(state: StateView, entry: ContentView, limit: usize, now: u64) -> StateView {
    StateView {
        history: appended_history(state.history, entry, limit),
        last_update: if accepts(state.history, entry.format) {
            now
        } else {
            state.last_update
        },
        settings: state.settings,
    }
}

/// Whether a value is noise.
pub fn is_noise_format(format: &ClipboardFormat) -> (noise: bool)
    ensures
        noise == is_noise(format@),
{
    match format {
        ClipboardFormat::Text { content } => is_noise_text(content.as_str()),
        _ => false,
    }
}

/// Whether two values count as the same content.
pub fn is_same_content(a: &ClipboardFormat, b: &ClipboardFormat) -> (same: bool)
    ensures
        same == same_content(a@, b@),
{
    match (a, b) {
        (ClipboardFormat::Text { content: x }, ClipboardFormat::Text { content: y }) => *x == *y,
        (ClipboardFormat::Image { content: x, .. }, ClipboardFormat::Image { content: y, .. }) => *x
            == *y,
        _ => false,
    }
}

/// Whether the snapshot already holds the candidate's content.
pub fn is_duplicate(candidate: &ClipboardFormat, state: &StoredState) -> (duplicate: bool)
    ensures
        duplicate == duplicate_in(state@.history, candidate@),
{
    let mut i: usize = 0;
    while i < state.history.len()
        invariant
            i <= state.history.len(),
            forall|j: int| 0 <= j < i ==> !same_content((#[trigger] state@.history[j]).format, candidate@),
        decreases state.history.len() - i,
    {
        if is_same_content(&state.history[i].format, candidate) {
            assert(state@.history[i as int].format == state.history[i as int].format@);
            return true;
        }
        assert(state@.history[i as int].format == state.history[i as int].format@);
        i += 1;
    }
    false
}

impl Settings {
    /// The settings in force when the store gave `stored`: those where
    /// there are any, else the defaults.
    pub fn loaded_or_default(stored: Option<Settings>) -> (settings: Settings)
        ensures
            settings == match stored {
                Some(found) => found,
                None => Settings::spec_default(),
            },
    {
        match stored {
            Some(found) => found,
            None => Settings::default(),
        }
    }
}

impl StoredState {
    /// A snapshot with no entries, last changed at `now`, holding the
    /// default settings.
    pub fn empty(now: u64) -> (state: StoredState)
        ensures
            state@ == (StateView {
                history: Seq::empty(),
                last_update: now,
                settings: Settings::spec_default(),
            }),
    {
        let state = StoredState {
            history: Vec::new(),
            last_update: now,
            settings: Settings::default(),
        };
        assert(state@.history =~= Seq::empty());
        state
    }

    /// The snapshot to work with when the store gave `stored`: that one
    /// where there is one, else an empty one dated `now`.
    pub fn loaded_or_empty(stored: Option<StoredState>, now: u64) -> (state: StoredState)
        ensures
            match stored {
                Some(found) => state == found,
                None => state@ == (StateView {
                    history: Seq::empty(),
                    last_update: now,
                    settings: Settings::spec_default(),
                }),
            },
    {
        match stored {
            Some(found) => found,
            None => StoredState::empty(now),
        }
    }

    /// Forgets every entry: the snapshot becomes an empty one dated `now`,
    /// and its settings go back to the defaults.
    pub fn clear(&mut self, now: u64)
        ensures
            final(self)@ == (StateView {
                history: Seq::empty(),
                last_update: now,
                settings: Settings::spec_default(),
            }),
    {
        *self = StoredState::empty(now);
    }

    /// The stored entries, newest first.
    pub fn entries(&self) -> (entries: Vec<ClipboardContent>)
        ensures
            history_view(entries@) == self@.history,
    {
        clone_history(&self.history)
    }

    /// Offers a captured value to the history. Noise and duplicates are
    /// dropped and leave the snapshot as it was. Any other value is put
    /// first, the history is cut to `settings.history_limit` entries by
    /// dropping the oldest, and the time of change becomes `now`. Returns
    /// whether the snapshot changed and has to be saved.
    pub fn append(&mut self, content: ClipboardContent, settings: &Settings, now: u64) -> (stored:
        bool)
        ensures
            stored == accepts(old(self)@.history, content@.format),
            final(self)@ == appended(old(self)@, content@, settings.history_limit, now),
            stored ==> final(self)@.history.len() <= settings.history_limit,
    {
        if is_noise_format(&content.format) {
            return false;
        }
        if is_duplicate(&content.format, self) {
            return false;
        }
        let ghost before = self@;
        let ghost entry = content@;
        self.history.insert(0, content);
        self.history.truncate(settings.history_limit);
        self.last_update = now;
        assert(self@.history =~= newest(seq![entry] + before.history, settings.history_limit));
        true
    }
}

/// The history after offering each of `entries` in turn, oldest first, to
/// the history `start` under one limit.
pub open spec fn replayed(start: Seq<ContentView>, entries: Seq<ContentView>, limit: usize) -> Seq<
    ContentView,
>
    decreases entries.len(),
{
    if entries.len() == 0 {
        start
    } else {
        appended_history(replayed(start, entries.drop_last(), limit), entries.last(), limit)
    }
}

/// Those of `entries` that were accepted when they were offered in turn,
/// the most recent first.
pub open spec fn accepted_entries(
    start: Seq<ContentView>,
    entries: Seq<ContentView>,
    limit: usize,
) -> Seq<ContentView>
    decreases entries.len(),
{
    if entries.len() == 0 {
        Seq::empty()
    } else {
        let earlier = accepted_entries(start, entries.drop_last(), limit);
        if accepts(replayed(start, entries.drop_last(), limit), entries.last().format) {
            seq![entries.last()] + earlier
        } else {
            earlier
        }
    }
}

/// Noise never enters the history: offering it changes nothing.
pub proof fn lemma_noise_is_dropped(state: StateView, entry: ContentView, limit: usize, now: u64)
    requires
        is_noise(entry.format),
    ensures
        appended(state, entry, limit, now) == state,
{
}

/// Offering the same content twice is the same as offering it once: the
/// second offer changes nothing, whatever the snapshot held before. The
/// limit must let at least one entry stay.
pub proof fn lemma_append_is_idempotent(
    state: StateView,
    first: ContentView,
    second: ContentView,
    limit: usize,
    first_time: u64,
    second_time: u64,
)
    requires
        same_content(first.format, second.format),
        limit >= 1,
    ensures
        appended(appended(state, first, limit, first_time), second, limit, second_time)
            == appended(state, first, limit, first_time),
{
    let middle = appended(state, first, limit, first_time);
    if accepts(state.history, first.format) {
        assert(middle.history[0] == first);
        assert(duplicate_in(middle.history, second.format));
    } else if !is_noise(first.format) {
        let i = choose|i: int|
            0 <= i < state.history.len() && same_content(
                (#[trigger] state.history[i]).format,
                first.format,
            );
        assert(same_content(state.history[i].format, second.format));
        assert(duplicate_in(middle.history, second.format));
    }
}

/// Content offered twice to an empty history is stored once.
pub proof fn lemma_repeated_content_is_stored_once(
    first: ContentView,
    second: ContentView,
    limit: usize,
)
    requires
        same_content(first.format, second.format),
        !is_noise(first.format),
        limit >= 1,
    ensures
        replayed(Seq::empty(), seq![first, second], limit) == seq![first],
{
    let start = Seq::<ContentView>::empty();
    let entries = seq![first, second];
    assert(entries.drop_last() =~= seq![first]);
    assert(seq![first].drop_last() =~= Seq::<ContentView>::empty());
    assert(replayed(start, seq![first].drop_last(), limit) == start);
    assert(replayed(start, seq![first], limit) == appended_history(start, first, limit));
    assert(accepts(start, first.format));
    assert(appended_history(start, first, limit) =~= seq![first]);
    assert(seq![first][0] == first);
    assert(duplicate_in(seq![first], second.format));
}

/// The bound: a history that fits the limit still fits it after any
/// sequence of offers, and holds exactly the most recent accepted entries
/// that fit, newest first, followed by what it started with.
pub proof fn lemma_history_is_bounded(
    start: Seq<ContentView>,
    entries: Seq<ContentView>,
    limit: usize,
)
    requires
        start.len() <= limit,
    ensures
        replayed(start, entries, limit).len() <= limit,
        replayed(start, entries, limit) == newest(
            accepted_entries(start, entries, limit) + start,
            limit,
        ),
    decreases entries.len(),
{
    if entries.len() == 0 {
        assert(accepted_entries(start, entries, limit) + start =~= start);
    } else {
        let earlier = entries.drop_last();
        lemma_history_is_bounded(start, earlier, limit);
        let kept = accepted_entries(start, earlier, limit) + start;
        let entry = entries.last();
        if accepts(replayed(start, earlier, limit), entry.format) {
            assert(accepted_entries(start, entries, limit) + start =~= seq![entry] + kept);
            assert(newest(seq![entry] + newest(kept, limit), limit) =~= newest(
                seq![entry] + kept,
                limit,
            ));
        }
    }
}

} // verus!
