use syb_tracker::editor::Editor;
use syb_tracker::music::{InstrChannel, Music, Tone};

const DASHES: &str = "\x1b[38;5;245m----";

fn small_editor() -> Editor {
    Editor::new(Music {
        bps: 8,
        section_height: 4,
        notes: vec![vec![Tone::empty(); 2]; 2],
        ic: vec![InstrChannel { id: 1, volume: 255, enabled: true }; 2],
    })
}

#[test]
fn screen_lines() {
    let e = small_editor();
    assert!(e.screen_is_drawable());
    let screen = e.render(0, 1);
    let lines: Vec<&str> = screen.split('\n').collect();
    assert_eq!(lines.len(), 34);
    assert_eq!(lines[0], "        \x1b[1;32mSIN\x1b[0m  \x1b[1;32mSIN\x1b[0m ");
    assert_eq!(
        lines[1],
        format!(
            " \x1b[48;5;237m000\x1b[0m │ \x1b[48;5;240m {DASHES} \x1b[0m\x1b[48;5;237m {DASHES} \x1b[0m █"
        )
    );
    assert_eq!(
        lines[2],
        format!(" 001 │ \x1b[48;5;237m {DASHES} \x1b[0m\x1b[48;5;238m {DASHES} \x1b[0m ║")
    );
    assert_eq!(lines[3], format!(" 002 │ {} ║", " ".repeat(12)));
    assert_eq!(lines[32], format!(" 031 │ {} ║", " ".repeat(12)));
    assert_eq!(lines[33], "");
}

#[test]
fn row_numbers_are_padded_to_three_digits() {
    let mut e = Editor::new(Music {
        bps: 8,
        section_height: 4,
        notes: vec![vec![Tone::empty(); 1]; 1500],
        ic: vec![InstrChannel { id: 1, volume: 255, enabled: true }; 1],
    });
    e.move_cursor_to(0, 1234);
    let screen = e.render(40, 0);
    assert!(screen.contains("\n 1207 │ "));
    assert!(screen.contains("\n 1238 │ "));
    e.move_cursor_to(0, 60);
    let screen = e.render(40, 0);
    assert!(screen.contains("\n 055 │ "));
    assert!(screen.contains("\n 086 │ "));
}

#[test]
fn undrawable_screens_are_reported() {
    let mut e = small_editor();
    e.music.notes[1][1] = Tone::note(3, 10, false);
    assert!(!e.screen_is_drawable());
    let mut e = small_editor();
    e.music.section_height = 0;
    assert!(!e.screen_is_drawable());
    let mut e = small_editor();
    e.music.notes[1].pop();
    assert!(!e.screen_is_drawable());
}
