//! The editor's decisions: where the cursor and the visible window go, what
//! each key does to the song, and which notes sound at each playback step.
//! Reading keys, the clock, drawing and sound are left to the caller, which
//! hands each key and the current time in and carries out what comes back.
use vstd::prelude::*;
use std::collections::VecDeque;
use crate::music::{
    empty_tone, is_pitch, spec_is_sharp, spec_toggle_sharp, InstrChannel, Music, Note, Song, Tone,
};

verus! {

/// Rows shown at once.
pub const VIEWPORT_HEIGHT: i32 = 32;

/// The number of synthesizer channels, and of tones in an inserted row.
pub const CHANNEL_COUNT: usize = 14;

/// The window scrolls up when the cursor comes closer than this to its top.
pub const SCROLL_TOP: i32 = 5;

/// The window scrolls down when the cursor goes further than this below its top.
pub const SCROLL_BOTTOM: i32 = 27;

/// The most rows a song may have in the editor, so that every cursor
/// position, screen jump and scroll fits in an `i32`.
pub const MAX_ROWS: usize = 0x7fff_ffdf;

/// What the caller does after a key.
#[derive(Debug, Clone, Copy, PartialEq, Eq, Structural)]
pub enum KeyOutcome {
    /// Save the song and leave.
    Quit,
    /// The next key is a movement code: hand it to `handle_movement`.
    Movement,
    /// The macro has been emptied: hand each following key to
    /// `record_macro_key` until it says the recording ended.
    RecordMacro,
    /// Feed the recorded macro (`key_macro`) back as input.
    ReplayMacro,
    /// The key means nothing: echo it.
    Unknown,
    /// The key has been carried out.
    Done,
}

/// What the caller does with the sound after a playback step.
#[derive(Debug)]
pub enum PlaybackStep {
    /// Playback is off: silence every channel.
    Stopped,
    /// The next row is not due yet: leave the channels as they are.
    Waiting,
    /// A new row is due: channel `i` plays `notes[i]`, or falls silent.
    Advanced(Vec<Option<Note>>),
}

/// The editor: the song, the cursor (channel, row), the first visible row,
/// whether it plays, the row being played, the window height, the time
/// (in milliseconds) at which the next row is due, and the recorded macro.
pub struct Editor {
    pub music: Music,
    pub cursor: (i32, i32),
    pub viewport: i32,
    pub is_playing: bool,
    pub play_cursor: i32,
    pub viewport_height: i32,
    pub next_note_time: u128,
    pub key_macro: Vec<u8>,
}

/// The mathematical value of an editor.
#[verifier::ext_equal]
pub struct EditorState {
    pub song: Song,
    pub cursor: (i32, i32),
    pub viewport: i32,
    pub is_playing: bool,
    pub play_cursor: i32,
    pub viewport_height: i32,
    pub next_note_time: u128,
    pub key_macro: Seq<u8>,
}

impl View for Editor {
    type V = EditorState;

    open spec fn view(&self) -> EditorState {
        EditorState {
            song: self.music@,
            cursor: self.cursor,
            viewport: self.viewport,
            is_playing: self.is_playing,
            play_cursor: self.play_cursor,
            viewport_height: self.viewport_height,
            next_note_time: self.next_note_time,
            key_macro: self.key_macro@,
        }
    }
}

/// The bounds that every editor state keeps: sizes that fit the `i32`
/// cursor arithmetic, a row cursor and window inside them, a channel cursor
/// that is a channel or -1 (parked during playback), and a playback row that
/// is a row or -1 (before the first step).
pub open spec fn editor_wf(e: EditorState) -> bool {
    &&& e.song.notes.len() <= MAX_ROWS
    &&& e.song.ic.len() <= i32::MAX
    &&& -1 <= e.cursor.0 < i32::MAX
    &&& 0 <= e.cursor.1 <= MAX_ROWS
    &&& 0 <= e.viewport <= MAX_ROWS
    &&& -1 <= e.play_cursor <= MAX_ROWS
    &&& e.viewport_height == VIEWPORT_HEIGHT
}

/// `v` limited to 0 ..= n - 1 (to 0 when `n` is 0).
pub open spec fn clamp(v: int, n: int) -> int {
    if v > n - 1 {
        if n - 1 < 0 { 0 } else { n - 1 }
    } else if v < 0 {
        0
    } else {
        v
    }
}

/// The first visible row after the cursor moved to row `cy`: scrolled up
/// when the cursor is within the top margin, then down when it is past the
/// bottom margin.
pub open spec fn scrolled(v: int, cy: int) -> int {
    let v1 = if cy < v + SCROLL_TOP {
        if cy - SCROLL_TOP > 0 { cy - SCROLL_TOP } else { 0 }
    } else {
        v
    };
    if cy > v1 + SCROLL_BOTTOM { cy - SCROLL_BOTTOM } else { v1 }
}

/// The editor after moving the cursor towards (`x`, `y`), kept on the grid.
pub open spec fn spec_move_to(e: EditorState, x: int, y: int) -> EditorState {
    let cx = clamp(x, e.song.ic.len() as int);
    let cy = clamp(y, e.song.notes.len() as int);
    EditorState { cursor: (cx as i32, cy as i32), viewport: scrolled(e.viewport as int, cy) as i32, ..e }
}

/// The editor with the song's rows replaced.
pub open spec fn with_rows(e: EditorState, rows: Seq<Seq<Tone>>) -> EditorState {
    EditorState { song: Song { notes: rows, ..e.song }, ..e }
}

/// The cursor stands on a tone of the grid.
pub open spec fn cursor_on_cell(e: EditorState) -> bool {
    &&& 0 <= e.cursor.0
    &&& 0 <= e.cursor.1 < e.song.notes.len()
    &&& e.cursor.0 < e.song.notes[e.cursor.1 as int].len()
}

/// The tone under the cursor.
pub open spec fn cell(e: EditorState) -> Tone {
    e.song.notes[e.cursor.1 as int][e.cursor.0 as int]
}

/// The editor with the tone under the cursor replaced.
pub open spec fn with_cell(e: EditorState, t: Tone) -> EditorState {
    let y = e.cursor.1 as int;
    with_rows(e, e.song.notes.update(y, e.song.notes[y].update(e.cursor.0 as int, t)))
}

/// The editor after a pitch key: the note under the cursor takes pitch `p`,
/// and an empty cell gets a long note of pitch `p` in octave 4.
pub open spec fn with_pitch(e: EditorState, p: u8) -> EditorState {
    match cell(e).note {
        Some(n) => with_cell(e, Tone { note: Some(Note { note: p, ..n }) }),
        None => with_cell(e, Tone { note: Some(Note { note: p, octave: 4, short: false }) }),
    }
}

/// The pitch class that a letter key sets, if it is one.
pub open spec fn pitch_of_key(c: u8) -> Option<u8> {
    if c == 99 { Some(1u8) }        // c
    else if c == 100 { Some(3u8) }  // d
    else if c == 101 { Some(5u8) }  // e
    else if c == 102 { Some(6u8) }  // f
    else if c == 103 { Some(8u8) }  // g
    else if c == 97 { Some(10u8) }  // a
    else if c == 98 { Some(12u8) }  // b
    else { None }
}

/// The keys that change the tone under the cursor: `#` (sharp), `.`
/// (length), `q` and delete (clear), the pitch letters and the digits
/// (octave).
pub open spec fn is_cell_key(c: u8) -> bool {
    c == 35 || c == 46 || c == 113 || c == 83 || pitch_of_key(c) is Some || 48 <= c <= 57
}

/// A row of empty tones, one per synthesizer channel.
pub open spec fn empty_row() -> Seq<Tone> {
    Seq::new(CHANNEL_COUNT as nat, |i: int| empty_tone())
}

/// The rows with rows `a` and `b` exchanged.
pub open spec fn swapped(rows: Seq<Seq<Tone>>, a: int, b: int) -> Seq<Seq<Tone>> {
    rows.update(a, rows[b]).update(b, rows[a])
}

/// The keys that the editor can carry out in state `e`: those that stay on
/// the grid, and a sharp key only on a note with a pitch class.
pub open spec fn key_is_safe(e: EditorState, c: u8) -> bool {
    let cy = e.cursor.1 as int;
    let rows = e.song.notes.len();
    &&& c == 43 ==> cy < rows && rows + 1 <= MAX_ROWS
    &&& c == 45 ==> (rows > 1 ==> cy < rows)
    &&& c == 105 ==> (cy > 0 ==> cy < rows)
    &&& is_cell_key(c) ==> cursor_on_cell(e)
    &&& c == 35 ==> (cell(e).note matches Some(n) ==> is_pitch(n.note))
}

/// The editor after key `c` at time `now`.
pub open spec fn spec_handle_key(e: EditorState, c: u8, now: u128) -> EditorState {
    let cx = e.cursor.0 as int;
    let cy = e.cursor.1 as int;
    let rows = e.song.notes;
    if c == 109 {
        EditorState { key_macro: seq![], ..e }
    } else if c == 32 {
        if e.is_playing {
            EditorState { is_playing: false, ..e }
        } else {
            EditorState { is_playing: true, play_cursor: -1i32, next_note_time: now, ..e }
        }
    } else if c == 43 {
        spec_move_to(with_rows(e, rows.insert(cy + 1, empty_row())), cx, cy + 1)
    } else if c == 45 {
        if rows.len() > 1 { spec_move_to(with_rows(e, rows.remove(cy)), cx, cy) } else { e }
    } else if c == 105 {
        if cy > 0 { spec_move_to(with_rows(e, swapped(rows, cy, cy - 1)), cx, cy - 1) } else { e }
    } else if c == 107 {
        if cy < rows.len() - 1 {
            spec_move_to(with_rows(e, swapped(rows, cy, cy + 1)), cx, cy + 1)
        } else {
            e
        }
    } else if c == 35 {
        match cell(e).note {
            Some(n) => with_cell(e, Tone { note: Some(Note { note: spec_toggle_sharp(n.note), ..n }) }),
            None => e,
        }
    } else if c == 46 {
        match cell(e).note {
            Some(n) => with_cell(e, Tone { note: Some(Note { short: !n.short, ..n }) }),
            None => e,
        }
    } else if c == 113 || c == 83 {
        with_cell(e, empty_tone())
    } else if pitch_of_key(c) is Some {
        with_pitch(e, pitch_of_key(c).unwrap())
    } else if 48 <= c <= 57 {
        match cell(e).note {
            Some(n) => with_cell(e, Tone { note: Some(Note { octave: (c - 48) as u8, ..n }) }),
            None => e,
        }
    } else {
        e
    }
}

/// What the caller does after key `c`.
pub open spec fn spec_key_outcome(c: u8) -> KeyOutcome {
    if c == 27 {
        KeyOutcome::Quit
    } else if c == 224 {
        KeyOutcome::Movement
    } else if c == 109 {
        KeyOutcome::RecordMacro
    } else if c == 44 {
        KeyOutcome::ReplayMacro
    } else if c == 32 || c == 43 || c == 45 || c == 105 || c == 107 || is_cell_key(c) {
        KeyOutcome::Done
    } else {
        KeyOutcome::Unknown
    }
}

/// The movement codes that follow the movement prefix: up, down, left,
/// right, home, end, page up and page down.
pub open spec fn is_movement_code(code: u8) -> bool {
    code == 72 || code == 80 || code == 75 || code == 77 || code == 71 || code == 79 || code == 73
        || code == 81
}

/// The movement codes that the editor can carry out in state `e`: page up
/// and page down add the channel cursor to itself, which must fit an `i32`.
pub open spec fn movement_is_safe(e: EditorState, code: u8) -> bool {
    (code == 73 || code == 81) ==> e.cursor.0 + e.cursor.0 <= i32::MAX
}

/// The editor after movement code `code`: a row or a channel up, down,
/// left or right, to the first or last channel, or a window height of rows
/// up or down (page up, page down). Page up and page down also move the
/// channel cursor by its own value, so the channel doubles (kept on the grid).
pub open spec fn spec_movement(e: EditorState, code: u8) -> EditorState {
    let cx = e.cursor.0 as int;
    let cy = e.cursor.1 as int;
    let vh = e.viewport_height as int;
    if code == 72 {
        spec_move_to(e, cx, cy - 1)
    } else if code == 80 {
        spec_move_to(e, cx, cy + 1)
    } else if code == 75 {
        spec_move_to(e, cx - 1, cy)
    } else if code == 77 {
        spec_move_to(e, cx + 1, cy)
    } else if code == 71 {
        spec_move_to(e, 0, cy)
    } else if code == 79 {
        spec_move_to(e, e.song.ic.len() as int, cy)
    } else if code == 73 {
        spec_move_to(e, cx + cx, cy - vh)
    } else if code == 81 {
        spec_move_to(e, cx + cx, cy + vh)
    } else {
        e
    }
}

/// During playback the view follows the played row 16 rows ahead, with the
/// channel cursor parked at -1.
pub open spec fn spec_follow(e: EditorState) -> EditorState {
    let m = spec_move_to(e, 0, e.play_cursor + 16);
    EditorState { cursor: (-1i32, m.cursor.1), ..m }
}

/// A playback step at `now` is due.
pub open spec fn step_due(e: EditorState, now: u128) -> bool {
    e.is_playing && now >= e.next_note_time
}

/// The row that a due playback step plays: the one after the current row,
/// wrapping to the first.
pub open spec fn next_play_row(e: EditorState) -> int {
    (e.play_cursor + 1) % (e.song.notes.len() as int)
}

/// A playback step at `now` over `channels` channels can be carried out:
/// when one is due, the song has rows and a speed, the next due time fits,
/// and the next row has a tone for every channel.
pub open spec fn playback_is_safe(e: EditorState, now: u128, channels: nat) -> bool {
    step_due(e, now) ==> {
        &&& e.song.notes.len() >= 1
        &&& e.song.bps > 0
        &&& now + 1000int / (e.song.bps as int) <= u128::MAX
        &&& e.song.notes[next_play_row(e)].len() >= channels
    }
}

/// The key that starts and ends a macro recording.
pub const MACRO_KEY: u8 = 109;

/// The keys of `q` before the first macro key (all of `q` if it has none).
pub open spec fn keys_before_stop(q: Seq<u8>) -> Seq<u8>
    decreases q.len(),
{
    if q.len() == 0 || q[0] == MACRO_KEY {
        seq![]
    } else {
        seq![q[0]] + keys_before_stop(q.drop_first())
    }
}

/// The keys of `q` after the first macro key (none if it has none).
pub open spec fn keys_after_stop(q: Seq<u8>) -> Seq<u8>
    decreases q.len(),
{
    if q.len() == 0 {
        seq![]
    } else if q[0] == MACRO_KEY {
        q.drop_first()
    } else {
        keys_after_stop(q.drop_first())
    }
}

/// With no macro key in `s`, the keys before the first macro key of
/// `s + [m] + rest` are `s` and those after it are `rest`.
pub proof fn lemma_stop_split(s: Seq<u8>, rest: Seq<u8>)
    requires
        !s.contains(MACRO_KEY),
    ensures
        keys_before_stop(s + seq![MACRO_KEY] + rest) == s,
        keys_after_stop(s + seq![MACRO_KEY] + rest) == rest,
        (s + seq![MACRO_KEY] + rest).contains(MACRO_KEY),
    decreases s.len(),
{
    let q = s + seq![MACRO_KEY] + rest;
    assert(q[s.len() as int] == MACRO_KEY);
    if s.len() == 0 {
        assert(q.drop_first() =~= rest);
    } else {
        assert(s[0] != MACRO_KEY) by {
            if s[0] == MACRO_KEY {
                assert(s.contains(MACRO_KEY));
            }
        }
        assert(!s.drop_first().contains(MACRO_KEY)) by {
            if s.drop_first().contains(MACRO_KEY) {
                let i = choose|i: int| 0 <= i < s.drop_first().len() && s.drop_first()[i] == MACRO_KEY;
                assert(s[i + 1] == MACRO_KEY);
            }
        }
        lemma_stop_split(s.drop_first(), rest);
        assert(q.drop_first() =~= s.drop_first() + seq![MACRO_KEY] + rest);
        assert(seq![s[0]] + s.drop_first() =~= s);
    }
}

/// Recording and replaying a macro: from any editor, with the keys
/// `s + [m] + rest` queued and no `m` in `s`, the `m` key followed by
/// `record_macro_from` leaves the macro equal to `s` and `rest` queued,
/// with the song, cursor and everything else unchanged (the recorded keys
/// are not carried out); the `,` key then changes nothing, and
/// `replay_macro` leaves `rest + s` queued.
pub proof fn lemma_macro_record_replay(e: EditorState, s: Seq<u8>, rest: Seq<u8>, now: u128)
    requires
        !s.contains(MACRO_KEY),
    ensures
        ({
            let q = s + seq![MACRO_KEY] + rest;
            let cleared = spec_handle_key(e, MACRO_KEY, now);
            let recorded = EditorState {
                key_macro: cleared.key_macro + keys_before_stop(q),
                ..cleared
            };
            &&& spec_key_outcome(MACRO_KEY) == KeyOutcome::RecordMacro
            &&& q.contains(MACRO_KEY)
            &&& recorded == EditorState { key_macro: s, ..e }
            &&& keys_after_stop(q) == rest
            &&& spec_key_outcome(44) == KeyOutcome::ReplayMacro
            &&& spec_handle_key(recorded, 44, now) == recorded
            &&& keys_after_stop(q) + recorded.key_macro == rest + s
        }),
{
    lemma_stop_split(s, rest);
    let q = s + seq![MACRO_KEY] + rest;
    let cleared = spec_handle_key(e, MACRO_KEY, now);
    assert(cleared.key_macro + keys_before_stop(q) =~= s);
}

/// Moving the cursor towards (`x`, `y`) puts it at the nearest cell of the
/// grid (the first cell of an empty side), and the window moves only when
/// the cursor row comes within five rows of its top (then the window starts
/// five rows above it, or at the first row) or more than 27 rows below it
/// (then the cursor row is its 28th row); nothing else changes.
pub proof fn lemma_move_to_plain(e: EditorState, x: int, y: int)
    requires
        editor_wf(e),
    ensures
        ({
            let r = spec_move_to(e, x, y);
            let w = e.song.ic.len() as int;
            let h = e.song.notes.len() as int;
            let cx = if x >= w { w - 1 } else { x };
            let cx = if cx < 0 { 0 } else { cx };
            let cy = if y >= h { h - 1 } else { y };
            let cy = if cy < 0 { 0 } else { cy };
            let v = e.viewport as int;
            &&& r.cursor.0 == cx && r.cursor.1 == cy
            &&& (v + 5 <= cy <= v + 27) ==> r.viewport == v
            &&& cy < v + 5 ==> r.viewport == (if cy >= 5 { cy - 5 } else { 0 })
            &&& cy > v + 27 ==> r.viewport == cy - 27
            &&& r.song == e.song && r.is_playing == e.is_playing && r.play_cursor == e.play_cursor
                && r.next_note_time == e.next_note_time && r.key_macro == e.key_macro
                && r.viewport_height == e.viewport_height
        }),
{
}

/// The space key starts playback, from before the first row with the first
/// row due at once, or stops it; nothing else changes.
pub proof fn lemma_space_key(e: EditorState, now: u128)
    ensures
        ({
            let r = spec_handle_key(e, 32, now);
            &&& r.is_playing == !e.is_playing
            &&& !e.is_playing ==> r.play_cursor == -1 && r.next_note_time == now
            &&& e.is_playing ==> r.play_cursor == e.play_cursor && r.next_note_time == e.next_note_time
            &&& r.song == e.song && r.cursor == e.cursor && r.viewport == e.viewport
                && r.key_macro == e.key_macro
        }),
{
}

/// A due playback step plays the row after the played one, wrapping from
/// the last row (or from before the first) to the first; while playing, the
/// view parks the channel cursor at -1 and follows 16 rows ahead of the
/// played row, kept on the grid.
pub proof fn lemma_playback_rows(e: EditorState)
    requires
        editor_wf(e),
        e.song.notes.len() >= 1,
        e.play_cursor < e.song.notes.len(),
    ensures
        next_play_row(e) == (if e.play_cursor + 1 < e.song.notes.len() { e.play_cursor + 1 } else { 0 }),
        spec_follow(e).cursor.0 == -1,
        spec_follow(e).cursor.1 == (if e.play_cursor + 16 < e.song.notes.len() {
            e.play_cursor + 16
        } else {
            e.song.notes.len() - 1
        }),
        spec_follow(e).song == e.song,
        spec_follow(e).play_cursor == e.play_cursor,
{
    let a = e.play_cursor + 1;
    let h = e.song.notes.len() as int;
    assert(a % h == (if a < h { a } else { 0 })) by (nonlinear_arith)
        requires
            0 <= a <= h,
            h >= 1,
    ;
}

/// What the movement codes do, from any cursor on the grid: up (72) and
/// down (80) move one row and keep the channel, left (75) and right (77)
/// move one channel and keep the row, home (71) and end (79) go to the first
/// and last channel, and page up (73) and page down (81) move a window
/// height of rows while the channel doubles; every move stops at the edge of
/// the grid and leaves the song alone, and other codes change nothing.
pub proof fn lemma_movement_codes(e: EditorState, code: u8)
    requires
        editor_wf(e),
        cursor_in_window(e),
    ensures
        ({
            let r = spec_movement(e, code);
            let cx = e.cursor.0 as int;
            let cy = e.cursor.1 as int;
            let w = e.song.ic.len() as int;
            let h = e.song.notes.len() as int;
            let vh = e.viewport_height as int;
            &&& is_movement_code(code) ==> r.song == e.song && r.is_playing == e.is_playing
                && r.play_cursor == e.play_cursor && r.key_macro == e.key_macro
            &&& code == 72 ==> r.cursor.0 == cx && r.cursor.1 == (if cy > 0 { cy - 1 } else { 0 })
            &&& code == 80 ==> r.cursor.0 == cx && r.cursor.1 == (if cy < h - 1 { cy + 1 } else { h - 1 })
            &&& code == 75 ==> r.cursor.1 == cy && r.cursor.0 == (if cx > 0 { cx - 1 } else { 0 })
            &&& code == 77 ==> r.cursor.1 == cy && r.cursor.0 == (if cx < w - 1 { cx + 1 } else { w - 1 })
            &&& code == 71 ==> r.cursor.1 == cy && r.cursor.0 == 0
            &&& code == 79 ==> r.cursor.1 == cy && r.cursor.0 == w - 1
            &&& code == 73 ==> r.cursor.0 == (if 2 * cx < w - 1 { 2 * cx } else { w - 1 })
                && r.cursor.1 == (if cy - vh > 0 { cy - vh } else { 0 })
            &&& code == 81 ==> r.cursor.0 == (if 2 * cx < w - 1 { 2 * cx } else { w - 1 })
                && r.cursor.1 == (if cy + vh < h - 1 { cy + vh } else { h - 1 })
            &&& !is_movement_code(code) ==> r == e
        }),
{
}

/// What the row keys do to the rows, with the cursor on the grid: `-`
/// deletes exactly the cursor row while more than one row is left, `+`
/// inserts a row of empty tones below the cursor row, `i` and `k` exchange
/// the cursor row with the row above or below; the cursor follows the row
/// (or stays on the row that took the deleted one's place), the channel is
/// kept, and nothing else of the song changes.
pub proof fn lemma_row_keys(e: EditorState, now: u128)
    requires
        editor_wf(e),
        cursor_in_window(e),
    ensures
        ({
            let cx = e.cursor.0;
            let cy = e.cursor.1 as int;
            let rows = e.song.notes;
            let h = rows.len() as int;
            let del = spec_handle_key(e, 45, now);
            let up = spec_handle_key(e, 105, now);
            let down = spec_handle_key(e, 107, now);
            &&& h > 1 ==> del.song == Song { notes: rows.remove(cy), ..e.song } && del.cursor.0 == cx
                && del.cursor.1 == (if cy < h - 1 { cy } else { h - 2 })
            &&& h == 1 ==> del == e
            &&& cy > 0 ==> up.song == Song { notes: rows.update(cy - 1, rows[cy]).update(cy, rows[cy - 1]), ..e.song }
                && up.cursor == (cx, (cy - 1) as i32)
            &&& cy == 0 ==> up == e
            &&& cy < h - 1 ==> down.song == Song { notes: rows.update(cy + 1, rows[cy]).update(cy, rows[cy + 1]), ..e.song }
                && down.cursor == (cx, (cy + 1) as i32)
            &&& cy == h - 1 ==> down == e
            &&& key_is_safe(e, 43) ==> {
                let ins = spec_handle_key(e, 43, now);
                &&& ins.song == Song {
                    notes: rows.insert(cy + 1, Seq::new(CHANNEL_COUNT as nat, |i: int| Tone { note: None })),
                    ..e.song
                }
                &&& ins.cursor == (cx, (cy + 1) as i32)
            }
        }),
{
    let cy = e.cursor.1 as int;
    let rows = e.song.notes;
    if cy > 0 {
        assert(swapped(rows, cy, cy - 1) =~= rows.update(cy - 1, rows[cy]).update(cy, rows[cy - 1]));
    }
    if cy < rows.len() - 1 {
        assert(swapped(rows, cy, cy + 1) =~= rows.update(cy + 1, rows[cy]).update(cy, rows[cy + 1]));
    }
    assert(empty_row() =~= Seq::new(CHANNEL_COUNT as nat, |i: int| Tone { note: None }));
}

/// The pitch under the cursor after key `c`, or 0 where the cell is empty.
pub open spec fn pitch_after(e: EditorState, c: u8, now: u128) -> int {
    match cell(spec_handle_key(e, c, now)).note {
        Some(n) => n.note as int,
        None => 0,
    }
}

/// The letter keys write naturals: each of c, d, e, f, g, a, b puts a note
/// on the cell under the cursor whose pitch class is not a sharp, in rising
/// order from c to b, keeping the octave and length of a note already there
/// (a new note is a long one in octave 4), and changing nothing else.
pub proof fn lemma_letter_keys(e: EditorState, now: u128)
    requires
        editor_wf(e),
        cursor_on_cell(e),
    ensures
        forall|c: u8|
            #![trigger spec_handle_key(e, c, now)]
            (c == 99 || c == 100 || c == 101 || c == 102 || c == 103 || c == 97 || c == 98) ==> {
                let r = spec_handle_key(e, c, now);
                let y = e.cursor.1 as int;
                let x = e.cursor.0 as int;
                &&& r.cursor == e.cursor
                &&& r.song == Song { notes: e.song.notes.update(y, e.song.notes[y].update(x, cell(r))), ..e.song }
                &&& (cell(r).note matches Some(n) && is_pitch(n.note) && !spec_is_sharp(n.note) && (
                match cell(e).note {
                    Some(m) => n.octave == m.octave && n.short == m.short,
                    None => n.octave == 4 && !n.short,
                }))
            },
        pitch_after(e, 99, now) < pitch_after(e, 100, now),
        pitch_after(e, 100, now) < pitch_after(e, 101, now),
        pitch_after(e, 101, now) < pitch_after(e, 102, now),
        pitch_after(e, 102, now) < pitch_after(e, 103, now),
        pitch_after(e, 103, now) < pitch_after(e, 97, now),
        pitch_after(e, 97, now) < pitch_after(e, 98, now),
{
}

/// What the other cell keys do, with the cursor on the grid: `#` moves a
/// note one semitone up from a natural (down from a sharp; E and B stay),
/// `.` flips its length, a digit sets its octave, and `q` or delete empties
/// the cell; only the cell under the cursor changes, and keys on an empty
/// cell other than `q` and delete change nothing.
pub proof fn lemma_cell_keys(e: EditorState, c: u8, now: u128)
    requires
        editor_wf(e),
        key_is_safe(e, c),
        cursor_on_cell(e),
        c == 35 || c == 46 || c == 113 || c == 83 || 48 <= c <= 57,
    ensures
        ({
            let r = spec_handle_key(e, c, now);
            let y = e.cursor.1 as int;
            let x = e.cursor.0 as int;
            &&& r.cursor == e.cursor
            &&& r.song == Song { notes: e.song.notes.update(y, e.song.notes[y].update(x, cell(r))), ..e.song }
            &&& (c == 113 || c == 83) ==> cell(r).note is None
            &&& (c != 113 && c != 83 && cell(e).note is None) ==> r == e
            &&& cell(e).note matches Some(m) ==> {
                &&& c == 35 ==> (cell(r).note matches Some(n) && n.octave == m.octave && n.short == m.short
                    && n.note == (if spec_is_sharp(m.note) { m.note - 1 } else if m.note == 5 || m.note == 12 { m.note as int } else { m.note + 1 }))
                &&& c == 46 ==> cell(r).note == Some(Note { short: !m.short, ..m })
                &&& 48 <= c <= 57 ==> cell(r).note == Some(Note { octave: (c - 48) as u8, ..m })
            }
        }),
{
    let y = e.cursor.1 as int;
    let x = e.cursor.0 as int;
    if cell(e).note is None && c != 113 && c != 83 {
        assert(e.song.notes[y].update(x, cell(e)) =~= e.song.notes[y]);
        assert(e.song.notes.update(y, e.song.notes[y].update(x, cell(e))) =~= e.song.notes);
    }
}

/// The cursor stands on a cell of a nonempty grid, inside the window that
/// starts at a row at or above it.
pub open spec fn cursor_in_window(e: EditorState) -> bool {
    &&& e.song.ic.len() >= 1
    &&& e.song.notes.len() >= 1
    &&& 0 <= e.cursor.0 < e.song.ic.len()
    &&& 0 <= e.cursor.1 < e.song.notes.len()
    &&& 0 <= e.viewport <= e.cursor.1
}

proof fn lemma_move_in_window(e: EditorState, x: int, y: int)
    requires
        e.song.ic.len() >= 1,
        e.song.notes.len() >= 1,
        e.song.notes.len() <= MAX_ROWS,
        e.song.ic.len() <= i32::MAX,
        0 <= e.viewport <= MAX_ROWS,
    ensures
        cursor_in_window(spec_move_to(e, x, y)),
{
}

/// Every key keeps the cursor on a cell of a nonempty grid and inside the
/// window.
pub proof fn lemma_keys_keep_cursor_in_window(e: EditorState, c: u8, now: u128)
    requires
        editor_wf(e),
        key_is_safe(e, c),
        cursor_in_window(e),
    ensures
        cursor_in_window(spec_handle_key(e, c, now)),
{
    let cx = e.cursor.0 as int;
    let cy = e.cursor.1 as int;
    let rows = e.song.notes;
    if c == 43 {
        lemma_move_in_window(with_rows(e, rows.insert(cy + 1, empty_row())), cx, cy + 1);
    } else if c == 45 {
        if rows.len() > 1 {
            lemma_move_in_window(with_rows(e, rows.remove(cy)), cx, cy);
        }
    } else if c == 105 {
        if cy > 0 {
            lemma_move_in_window(with_rows(e, swapped(rows, cy, cy - 1)), cx, cy - 1);
        }
    } else if c == 107 {
        if cy < rows.len() - 1 {
            lemma_move_in_window(with_rows(e, swapped(rows, cy, cy + 1)), cx, cy + 1);
        }
    }
}

/// Every movement keeps the cursor on a cell of a nonempty grid and inside
/// the window.
pub proof fn lemma_movement_keeps_cursor_in_window(e: EditorState, code: u8)
    requires
        editor_wf(e),
        movement_is_safe(e, code),
        cursor_in_window(e),
    ensures
        cursor_in_window(spec_movement(e, code)),
{
    let cx = e.cursor.0 as int;
    let cy = e.cursor.1 as int;
    let vh = e.viewport_height as int;
    lemma_move_in_window(e, cx, cy - 1);
    lemma_move_in_window(e, cx, cy + 1);
    lemma_move_in_window(e, cx - 1, cy);
    lemma_move_in_window(e, cx + 1, cy);
    lemma_move_in_window(e, 0, cy);
    lemma_move_in_window(e, e.song.ic.len() as int, cy);
    lemma_move_in_window(e, cx + cx, cy - vh);
    lemma_move_in_window(e, cx + cx, cy + vh);
}

impl Editor {
    /// An editor on `music` with the cursor on the first cell, not playing.
    pub fn new(music: Music) -> (e: Self)
        requires
            music@.notes.len() <= MAX_ROWS,
            music@.ic.len() <= i32::MAX,
        ensures
            e@ == (EditorState {
                song: music@,
                cursor: (0i32, 0i32),
                viewport: 0,
                is_playing: false,
                play_cursor: 0,
                viewport_height: VIEWPORT_HEIGHT,
                next_note_time: 0,
                key_macro: seq![],
            }),
            editor_wf(e@),
    {
        Editor {
            music,
            cursor: (0, 0),
            viewport: 0,
            is_playing: false,
            play_cursor: 0,
            viewport_height: VIEWPORT_HEIGHT,
            next_note_time: 0,
            key_macro: Vec::new(),
        }
    }

    /// Moves the cursor towards (`x`, `y`), kept on the grid, and scrolls
    /// the window so that the cursor row stays in view.
    pub fn move_cursor_to(&mut self, x: i32, y: i32)
        requires
            editor_wf(old(self)@),
        ensures
            final(self)@ == spec_move_to(old(self)@, x as int, y as int),
            editor_wf(final(self)@),
            final(self).viewport <= final(self).cursor.1 <= final(self).viewport + SCROLL_BOTTOM,
            final(self)@.song.notes.len() > 0 ==> final(self).cursor.1 < final(self)@.song.notes.len(),
            final(self)@.song.ic.len() > 0 ==> 0 <= final(self).cursor.0 < final(self)@.song.ic.len(),
    {
        let (w, h) = self.music.size();
        let w = w as i32;
        let h = h as i32;
        let cx = if x < w - 1 { x } else { w - 1 };
        let cx = if cx > 0 { cx } else { 0 };
        let cy = if y < h - 1 { y } else { h - 1 };
        let cy = if cy > 0 { cy } else { 0 };
        self.cursor = (cx, cy);
        if self.cursor.1 < self.viewport + SCROLL_TOP {
            let top = self.cursor.1 - SCROLL_TOP;
            self.viewport = if top > 0 { top } else { 0 };
        }
        if self.cursor.1 > self.viewport + SCROLL_BOTTOM {
            self.viewport = self.cursor.1 - SCROLL_BOTTOM;
        }
    }

    /// Whether the cursor stands on a tone of the grid.
    pub fn on_cell(&self) -> (r: bool)
        ensures
            r == cursor_on_cell(self@),
    {
        let (x, y) = self.cursor;
        x >= 0 && y >= 0 && (y as usize) < self.music.notes.len() && (x as usize)
            < self.music.notes[y as usize].len()
    }

    /// Whether `handle_key` can carry out key `c` now; where it cannot, the
    /// key would leave the grid (or sharpen a note without a pitch class).
    pub fn can_handle_key(&self, c: u8) -> (r: bool)
        requires
            editor_wf(self@),
        ensures
            r == key_is_safe(self@, c),
    {
        let cy = self.cursor.1 as usize;
        let rows = self.music.notes.len();
        if c == 43 && !(cy < rows && rows + 1 <= MAX_ROWS) {
            return false;
        }
        if c == 45 && rows > 1 && cy >= rows {
            return false;
        }
        if c == 105 && cy > 0 && cy >= rows {
            return false;
        }
        let cell_key = c == 35 || c == 46 || c == 113 || c == 83 || c == 99 || c == 100 || c == 101
            || c == 102 || c == 103 || c == 97 || c == 98 || (c >= 48 && c <= 57);
        if cell_key && !self.on_cell() {
            return false;
        }
        if c == 35 && self.on_cell() {
            if let Some(n) = self.current_cell().note {
                if !(n.note >= 1 && n.note <= 12) {
                    return false;
                }
            }
        }
        true
    }

    /// Whether `handle_movement` can carry out movement code `code` now.
    pub fn can_handle_movement(&self, code: u8) -> (r: bool)
        requires
            editor_wf(self@),
        ensures
            r == movement_is_safe(self@, code),
    {
        !(code == 73 || code == 81) || (self.cursor.0 as i64) + (self.cursor.0 as i64) <= i32::MAX as i64
    }

    /// Whether `playback` can run now over `channels` channels.
    pub fn can_play(&self, now: u128, channels: usize) -> (r: bool)
        requires
            editor_wf(self@),
        ensures
            r == playback_is_safe(self@, now, channels as nat),
    {
        if !(self.is_playing && now >= self.next_note_time) {
            return true;
        }
        let rows = self.music.notes.len();
        if rows == 0 || self.music.bps == 0 {
            return false;
        }
        if now > u128::MAX - 1000 / (self.music.bps as u128) {
            return false;
        }
        let next = (self.play_cursor + 1) as usize % rows;
        self.music.notes[next].len() >= channels
    }

    /// Replaces the tone under the cursor.
    fn set_cell(&mut self, t: Tone)
        requires
            cursor_on_cell(old(self)@),
        ensures
            final(self)@ == with_cell(old(self)@, t),
    {
        let x = self.cursor.0 as usize;
        let y = self.cursor.1 as usize;
        *self.music.at_mut(x, y) = t;
    }

    /// The tone under the cursor.
    fn current_cell(&self) -> (t: Tone)
        requires
            cursor_on_cell(self@),
        ensures
            t == cell(self@),
    {
        *self.music.at(self.cursor.0 as usize, self.cursor.1 as usize)
    }

    /// Carries out key `c`, pressed at time `now` (in milliseconds), and
    /// says what the caller does next.
    pub fn handle_key(&mut self, c: u8, now: u128) -> (r: KeyOutcome)
        requires
            editor_wf(old(self)@),
            key_is_safe(old(self)@, c),
        ensures
            final(self)@ == spec_handle_key(old(self)@, c, now),
            r == spec_key_outcome(c),
            editor_wf(final(self)@),
    {
        let cy = self.cursor.1;
        if c == 27 {
            KeyOutcome::Quit
        } else if c == 224 {
            KeyOutcome::Movement
        } else if c == 109 {
            self.key_macro.clear();
            KeyOutcome::RecordMacro
        } else if c == 44 {
            KeyOutcome::ReplayMacro
        } else if c == 32 {
            self.is_playing = !self.is_playing;
            if self.is_playing {
                self.play_cursor = -1;
                self.next_note_time = now;
            }
            KeyOutcome::Done
        } else if c == 43 {
            self.music.insert_empty_row(cy as usize + 1, CHANNEL_COUNT);
            self.move_cursor_by(0, 1);
            KeyOutcome::Done
        } else if c == 45 {
            if self.music.size().1 > 1 {
                self.music.remove_row(cy as usize);
                self.move_cursor_by(0, 0);
            }
            KeyOutcome::Done
        } else if c == 105 {
            if cy > 0 {
                self.music.swap_rows(cy as usize, cy as usize - 1);
                self.move_cursor_by(0, -1);
            }
            KeyOutcome::Done
        } else if c == 107 {
            if cy < self.music.size().1 as i32 - 1 {
                self.music.swap_rows(cy as usize, cy as usize + 1);
                self.move_cursor_by(0, 1);
            }
            KeyOutcome::Done
        } else if c == 35 {
            let t = self.current_cell();
            if let Some(n) = t.note {
                let mut n = n;
                n.toggle_sharp();
                self.set_cell(Tone { note: Some(n) });
            }
            KeyOutcome::Done
        } else if c == 46 {
            let t = self.current_cell();
            if let Some(n) = t.note {
                self.set_cell(Tone { note: Some(Note { short: !n.short, ..n }) });
            }
            KeyOutcome::Done
        } else if c == 113 || c == 83 {
            self.set_cell(Tone::empty());
            KeyOutcome::Done
        } else if c == 99 || c == 100 || c == 101 || c == 102 || c == 103 || c == 97 || c == 98 {
            let p: u8 = match c {
                99 => 1,
                100 => 3,
                101 => 5,
                102 => 6,
                103 => 8,
                97 => 10,
                _ => 12,
            };
            let t = self.current_cell();
            let n = match t.note {
                Some(n) => Note { note: p, ..n },
                None => Note { note: p, octave: 4, short: false },
            };
            self.set_cell(Tone { note: Some(n) });
            KeyOutcome::Done
        } else if c >= 48 && c <= 57 {
            let t = self.current_cell();
            if let Some(n) = t.note {
                self.set_cell(Tone { note: Some(Note { octave: c - 48, ..n }) });
            }
            KeyOutcome::Done
        } else {
            KeyOutcome::Unknown
        }
    }

    /// Records key `c` into the macro; `m` ends the recording instead, and
    /// `false` says so.
    pub fn record_macro_key(&mut self, c: u8) -> (recording: bool)
        requires
            editor_wf(old(self)@),
        ensures
            recording == (c != 109),
            recording ==> final(self)@ == (EditorState {
                key_macro: old(self)@.key_macro.push(c),
                ..old(self)@
            }),
            !recording ==> final(self)@ == old(self)@,
            editor_wf(final(self)@),
    {
        if c == 109 {
            return false;
        }
        self.key_macro.push(c);
        true
    }

    /// Records the queued keys into the macro up to the macro key, which is
    /// taken from the queue too and ends the recording (`true`); where the
    /// queue runs out first, every queued key has been recorded and the
    /// recording goes on with the next keys (`false`).
    pub fn record_macro_from(&mut self, queue: &mut VecDeque<u8>) -> (done: bool)
        requires
            editor_wf(old(self)@),
        ensures
            done == old(queue)@.contains(MACRO_KEY),
            final(self)@ == (EditorState {
                key_macro: old(self)@.key_macro + keys_before_stop(old(queue)@),
                ..old(self)@
            }),
            final(queue)@ == keys_after_stop(old(queue)@),
            editor_wf(final(self)@),
    {
        let ghost e0 = self@;
        let ghost q0 = queue@;
        loop
            invariant
                e0 == old(self)@,
                q0 == old(queue)@,
                editor_wf(self@),
                self@ == (EditorState { key_macro: self@.key_macro, ..e0 }),
                self@.key_macro + keys_before_stop(queue@) == e0.key_macro + keys_before_stop(q0),
                keys_after_stop(queue@) == keys_after_stop(q0),
                queue@.contains(MACRO_KEY) == q0.contains(MACRO_KEY),
            decreases queue@.len(),
        {
            let ghost q = queue@;
            match queue.pop_front() {
                Some(c) => {
                    assert(queue@ =~= q.drop_first());
                    if c == MACRO_KEY {
                        assert(q.contains(MACRO_KEY));
                        assert(keys_before_stop(q) =~= Seq::<u8>::empty());
                        assert(self@.key_macro + keys_before_stop(q) =~= self@.key_macro);
                        return true;
                    }
                    let ghost before = self@.key_macro;
                    let recording = self.record_macro_key(c);
                    assert(keys_before_stop(q) == seq![c] + keys_before_stop(queue@));
                    assert(before + keys_before_stop(q) =~= self@.key_macro + keys_before_stop(queue@));
                    assert(q.contains(MACRO_KEY) == queue@.contains(MACRO_KEY)) by {
                        if q.contains(MACRO_KEY) {
                            let i = choose|i: int| 0 <= i < q.len() && q[i] == MACRO_KEY;
                            assert(i > 0);
                            assert(queue@[i - 1] == MACRO_KEY);
                        }
                        if queue@.contains(MACRO_KEY) {
                            let i = choose|i: int| 0 <= i < queue@.len() && queue@[i] == MACRO_KEY;
                            assert(q[i + 1] == MACRO_KEY);
                        }
                    }
                },
                None => {
                    assert(self@.key_macro + keys_before_stop(q) =~= self@.key_macro);
                    assert(!q.contains(MACRO_KEY));
                    return false;
                },
            }
        }
    }

    /// Queues the recorded macro's keys after the queued keys.
    pub fn replay_macro(&self, queue: &mut VecDeque<u8>)
        ensures
            final(queue)@ == old(queue)@ + self@.key_macro,
    {
        let mut i: usize = 0;
        while i < self.key_macro.len()
            invariant
                i <= self.key_macro@.len(),
                queue@ == old(queue)@ + self.key_macro@.take(i as int),
            decreases self.key_macro@.len() - i,
        {
            queue.push_back(self.key_macro[i]);
            assert(self.key_macro@.take(i as int + 1) =~= self.key_macro@.take(i as int).push(self.key_macro@[i as int]));
            i = i + 1;
        }
        assert(self.key_macro@.take(i as int) =~= self.key_macro@);
    }

    /// Carries out movement code `code`; `false` where it is not one, and
    /// nothing changed.
    pub fn handle_movement(&mut self, code: u8) -> (known: bool)
        requires
            editor_wf(old(self)@),
            movement_is_safe(old(self)@, code),
        ensures
            final(self)@ == spec_movement(old(self)@, code),
            known == is_movement_code(code),
            editor_wf(final(self)@),
    {
        let cx = self.cursor.0;
        let cy = self.cursor.1;
        if code == 72 {
            self.move_cursor_by(0, -1);
        } else if code == 80 {
            self.move_cursor_by(0, 1);
        } else if code == 75 {
            self.move_cursor_by(-1, 0);
        } else if code == 77 {
            self.move_cursor_by(1, 0);
        } else if code == 71 {
            self.move_cursor_to(0, cy);
        } else if code == 79 {
            let w = self.music.size().0 as i32;
            self.move_cursor_to(w, cy);
        } else if code == 73 {
            let vh = self.viewport_height;
            self.move_cursor_by(cx, -vh);
        } else if code == 81 {
            let vh = self.viewport_height;
            self.move_cursor_by(cx, vh);
        } else {
            return false;
        }
        true
    }

    /// One pass of the playback clock at time `now` over `channels`
    /// synthesizer channels: when a row is due, the next row (wrapping to
    /// the first) becomes the played row, the following one is due after
    /// 1000 / bps milliseconds, and its tones are handed out. While playing,
    /// the view follows 16 rows ahead of the played row.
    pub fn playback(&mut self, now: u128, channels: usize) -> (r: PlaybackStep)
        requires
            editor_wf(old(self)@),
            playback_is_safe(old(self)@, now, channels as nat),
        ensures
            editor_wf(final(self)@),
            !old(self).is_playing ==> r is Stopped && final(self)@ == old(self)@,
            old(self).is_playing && !step_due(old(self)@, now) ==> r is Waiting && final(self)@
                == spec_follow(old(self)@),
            step_due(old(self)@, now) ==> {
                let pc = next_play_row(old(self)@);
                let stepped = EditorState {
                    play_cursor: pc as i32,
                    next_note_time: (now + 1000int / (old(self).music.bps as int)) as u128,
                    ..old(self)@
                };
                &&& r matches PlaybackStep::Advanced(v) && v@ == Seq::new(
                    channels as nat,
                    |i: int| old(self)@.song.notes[pc][i].note,
                )
                &&& final(self)@ == spec_follow(stepped)
                &&& 0 <= final(self).play_cursor < final(self)@.song.notes.len()
            },
    {
        if !self.is_playing {
            return PlaybackStep::Stopped;
        }
        let mut step = PlaybackStep::Waiting;
        if now >= self.next_note_time {
            let rows = self.music.size().1;
            let next = ((self.play_cursor + 1) as usize % rows) as i32;
            self.play_cursor = next;
            self.next_note_time = now + 1000 / (self.music.bps as u128);
            let mut notes: Vec<Option<Note>> = Vec::new();
            let mut i: usize = 0;
            while i < channels
                invariant
                    i <= channels,
                    0 <= next < self@.song.notes.len(),
                    self@.song.notes[next as int].len() >= channels,
                    notes@ =~= Seq::new(i as nat, |k: int| self@.song.notes[next as int][k].note),
                decreases channels - i,
            {
                notes.push(self.music.at(i, next as usize).note);
                i = i + 1;
            }
            step = PlaybackStep::Advanced(notes);
        }
        let pc = self.play_cursor;
        self.move_cursor_to(0, pc + 16);
        self.cursor.0 = -1;
        step
    }

    /// Moves the cursor by (`dx`, `dy`), kept on the grid.
    pub fn move_cursor_by(&mut self, dx: i32, dy: i32)
        requires
            editor_wf(old(self)@),
            i32::MIN <= old(self).cursor.0 + dx <= i32::MAX,
            i32::MIN <= old(self).cursor.1 + dy <= i32::MAX,
        ensures
            final(self)@ == spec_move_to(
                old(self)@,
                old(self).cursor.0 + dx,
                old(self).cursor.1 + dy,
            ),
            editor_wf(final(self)@),
    {
        self.move_cursor_to(self.cursor.0 + dx, self.cursor.1 + dy)
    }
}

} // verus!
