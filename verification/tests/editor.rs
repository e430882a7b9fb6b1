use std::collections::VecDeque;
use syb_tracker::editor::{Editor, KeyOutcome, PlaybackStep, CHANNEL_COUNT};
use syb_tracker::music::{InstrChannel, Music, Note, Tone};

fn grid(rows: usize, width: usize) -> Music {
    Music {
        bps: 8,
        section_height: 4,
        notes: vec![vec![Tone::empty(); width]; rows],
        ic: vec![InstrChannel { id: 1, volume: 255, enabled: true }; width],
    }
}

fn editor(rows: usize) -> Editor {
    Editor::new(grid(rows, CHANNEL_COUNT))
}

#[test]
fn new_editor_starts_on_the_first_cell() {
    let e = editor(4);
    assert_eq!(e.cursor, (0, 0));
    assert_eq!(e.viewport, 0);
    assert!(!e.is_playing);
    assert_eq!(e.viewport_height, 32);
}

#[test]
fn cursor_is_clamped_to_the_grid() {
    let mut e = editor(10);
    e.move_cursor_to(100, 100);
    assert_eq!(e.cursor, (13, 9));
    e.move_cursor_to(-5, -5);
    assert_eq!(e.cursor, (0, 0));
    e.move_cursor_by(3, 4);
    assert_eq!(e.cursor, (3, 4));
}

#[test]
fn window_scrolls_to_keep_the_cursor_visible() {
    let mut e = editor(100);
    e.move_cursor_to(0, 40);
    assert_eq!(e.viewport, 13);
    e.move_cursor_to(0, 15);
    assert_eq!(e.viewport, 10);
    e.move_cursor_to(0, 3);
    assert_eq!(e.viewport, 0);
    for y in [0, 7, 33, 99, 50, 2] {
        e.move_cursor_to(0, y);
        assert!(e.viewport <= e.cursor.1 && e.cursor.1 <= e.viewport + 27);
    }
}

#[test]
fn movement_codes_move_the_cursor() {
    let mut e = editor(50);
    assert!(e.handle_movement(80)); // down
    assert_eq!(e.cursor, (0, 1));
    assert!(e.handle_movement(77)); // right
    assert_eq!(e.cursor, (1, 1));
    assert!(e.handle_movement(79)); // end
    assert_eq!(e.cursor, (13, 1));
    assert!(e.handle_movement(71)); // home
    assert_eq!(e.cursor, (0, 1));
    assert!(e.handle_movement(81)); // page down
    assert_eq!(e.cursor, (0, 33));
    assert!(e.handle_movement(73)); // page up
    assert_eq!(e.cursor, (0, 1));
    assert!(!e.handle_movement(1));
    assert_eq!(e.cursor, (0, 1));
}

#[test]
fn page_keys_move_the_channel_by_itself() {
    let mut e = editor(50);
    e.move_cursor_to(3, 0);
    e.handle_movement(81);
    assert_eq!(e.cursor, (6, 32));
    e.handle_movement(73);
    assert_eq!(e.cursor, (12, 0));
    e.handle_movement(81);
    assert_eq!(e.cursor, (13, 32));
    assert!(e.can_handle_movement(73));
}

#[test]
fn macro_queue_record_and_replay() {
    let mut e = editor(4);
    let mut queue: VecDeque<u8> = VecDeque::from(vec![b'c', b'#', b'm', b'q', b'x']);
    assert_eq!(e.handle_key(b'm', 0), KeyOutcome::RecordMacro);
    assert!(e.record_macro_from(&mut queue));
    assert_eq!(e.key_macro, vec![b'c', b'#']);
    assert_eq!(queue, VecDeque::from(vec![b'q', b'x']));
    // recorded keys are not carried out
    assert_eq!(*e.music.at(0, 0), Tone::empty());
    assert_eq!(e.cursor, (0, 0));
    assert_eq!(e.handle_key(b',', 0), KeyOutcome::ReplayMacro);
    e.replay_macro(&mut queue);
    assert_eq!(queue, VecDeque::from(vec![b'q', b'x', b'c', b'#']));
}

#[test]
fn macro_recording_waits_for_more_keys() {
    let mut e = editor(4);
    e.handle_key(b'm', 0);
    let mut queue: VecDeque<u8> = VecDeque::from(vec![b'a']);
    assert!(!e.record_macro_from(&mut queue));
    assert!(queue.is_empty());
    queue.push_back(b'1');
    queue.push_back(b'm');
    assert!(e.record_macro_from(&mut queue));
    assert_eq!(e.key_macro, vec![b'a', b'1']);
    assert!(queue.is_empty());
}

#[test]
fn macro_recording() {
    let mut e = editor(4);
    assert_eq!(e.handle_key(b'm', 0), KeyOutcome::RecordMacro);
    assert!(e.key_macro.is_empty());
    assert!(e.record_macro_key(b'c'));
    assert!(e.record_macro_key(b'#'));
    assert!(!e.record_macro_key(b'm'));
    assert_eq!(e.key_macro, vec![b'c', b'#']);
    assert_eq!(e.handle_key(b',', 0), KeyOutcome::ReplayMacro);
    assert_eq!(e.key_macro, vec![b'c', b'#']);
    e.handle_key(b'm', 0);
    assert!(e.key_macro.is_empty());
}

#[test]
fn every_key_keeps_the_cursor_in_the_window() {
    for start in [(0, 0), (13, 2), (5, 3)] {
        for c in 0..=255u8 {
            let mut e = editor(4);
            e.move_cursor_to(start.0, start.1);
            e.handle_key(b'c', 0);
            if !e.can_handle_key(c) {
                continue;
            }
            e.handle_key(c, 0);
            let rows = e.music.notes.len() as i32;
            assert!(rows >= 1);
            assert!(0 <= e.cursor.0 && e.cursor.0 < 14);
            assert!(0 <= e.cursor.1 && e.cursor.1 < rows);
            assert!(0 <= e.viewport && e.viewport <= e.cursor.1);
            for code in [71u8, 72, 73, 75, 77, 79, 80, 81] {
                let mut m = editor(4);
                m.move_cursor_to(e.cursor.0, e.cursor.1);
                assert!(m.can_handle_movement(code));
                m.handle_movement(code);
                assert!(0 <= m.cursor.0 && m.cursor.0 < 14);
                assert!(0 <= m.cursor.1 && m.cursor.1 < 4);
                assert!(0 <= m.viewport && m.viewport <= m.cursor.1);
            }
        }
    }
}

#[test]
fn key_outcomes() {
    let mut e = editor(4);
    assert_eq!(e.handle_key(27, 0), KeyOutcome::Quit);
    assert_eq!(e.handle_key(224, 0), KeyOutcome::Movement);
    assert_eq!(e.handle_key(b'm', 0), KeyOutcome::RecordMacro);
    assert_eq!(e.handle_key(b',', 0), KeyOutcome::ReplayMacro);
    assert_eq!(e.handle_key(b'z', 0), KeyOutcome::Unknown);
    assert_eq!(e.handle_key(b'c', 0), KeyOutcome::Done);
}

#[test]
fn pitch_keys_write_notes() {
    let mut e = editor(4);
    e.handle_key(b'g', 0);
    assert_eq!(*e.music.at(0, 0), Tone::note(8, 4, false));
    e.handle_key(b'7', 0);
    assert_eq!(*e.music.at(0, 0), Tone::note(8, 7, false));
    e.handle_key(b'#', 0);
    assert_eq!(*e.music.at(0, 0), Tone::note(9, 7, false));
    e.handle_key(b'.', 0);
    assert_eq!(*e.music.at(0, 0), Tone::note(9, 7, true));
    e.handle_key(b'a', 0);
    assert_eq!(*e.music.at(0, 0), Tone::note(10, 7, true));
    e.handle_key(b'q', 0);
    assert_eq!(*e.music.at(0, 0), Tone::empty());
    e.handle_key(b'5', 0);
    assert_eq!(*e.music.at(0, 0), Tone::empty());
    e.handle_key(83, 0);
    assert_eq!(*e.music.at(0, 0), Tone::empty());
}

#[test]
fn row_keys_edit_rows() {
    let mut e = editor(3);
    e.handle_key(b'c', 0);
    e.handle_key(b'+', 0);
    assert_eq!(e.music.notes.len(), 4);
    assert_eq!(e.cursor, (0, 1));
    assert_eq!(e.music.notes[1], vec![Tone::empty(); CHANNEL_COUNT]);
    e.handle_key(b'i', 0); // row 1 (empty) moves up
    assert_eq!(e.cursor, (0, 0));
    assert_eq!(*e.music.at(0, 1), Tone::note(1, 4, false));
    e.handle_key(b'k', 0); // and back down
    assert_eq!(e.cursor, (0, 1));
    assert_eq!(*e.music.at(0, 0), Tone::note(1, 4, false));
    e.handle_key(b'-', 0);
    assert_eq!(e.music.notes.len(), 3);
    assert_eq!(*e.music.at(0, 1), Tone::empty());
}

#[test]
fn last_row_is_never_removed() {
    let mut e = editor(1);
    e.handle_key(b'-', 0);
    assert_eq!(e.music.notes.len(), 1);
}

#[test]
fn can_handle_key_refuses_edits_off_the_grid() {
    let mut e = editor(2);
    assert!(e.can_handle_key(b'c'));
    e.cursor = (-1, 0);
    assert!(!e.can_handle_key(b'c'));
    assert!(!e.can_handle_key(b'#'));
    assert!(e.can_handle_key(b' '));
    let mut bad = editor(2);
    bad.music.notes[0][0] = Tone { note: Some(Note { note: 13, octave: 4, short: false }) };
    assert!(!bad.can_handle_key(b'#'));
    assert!(bad.can_handle_key(b'.'));
}

#[test]
fn playback_steps_through_the_rows() {
    let mut e = editor(3);
    e.handle_key(b'e', 0);
    assert!(matches!(e.playback(0, CHANNEL_COUNT), PlaybackStep::Stopped));
    e.handle_key(b' ', 1000);
    assert!(e.is_playing);
    assert_eq!(e.play_cursor, -1);
    assert!(e.can_play(1000, CHANNEL_COUNT));
    match e.playback(1000, CHANNEL_COUNT) {
        PlaybackStep::Advanced(notes) => {
            assert_eq!(notes.len(), CHANNEL_COUNT);
            assert_eq!(notes[0], Some(Note { note: 5, octave: 4, short: false }));
            assert!(notes[1..].iter().all(|n| n.is_none()));
        }
        _ => panic!("a row was due"),
    }
    assert_eq!(e.play_cursor, 0);
    assert_eq!(e.next_note_time, 1125);
    assert_eq!(e.cursor.0, -1);
    assert!(matches!(e.playback(1100, CHANNEL_COUNT), PlaybackStep::Waiting));
    assert!(matches!(e.playback(1125, CHANNEL_COUNT), PlaybackStep::Advanced(_)));
    assert_eq!(e.play_cursor, 1);
    e.playback(1250, CHANNEL_COUNT);
    assert_eq!(e.play_cursor, 2);
    e.playback(1375, CHANNEL_COUNT);
    assert_eq!(e.play_cursor, 0);
    e.handle_key(b' ', 2000);
    assert!(!e.is_playing);
}

#[test]
fn can_play_needs_speed_and_rows() {
    let mut e = editor(3);
    e.music.bps = 0;
    assert!(e.can_play(5, CHANNEL_COUNT));
    e.handle_key(b' ', 0);
    assert!(!e.can_play(5, CHANNEL_COUNT));
}
