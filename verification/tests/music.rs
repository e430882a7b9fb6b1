use syb_tracker::music::{InstrChannel, Music, Note, Tone};

fn note(n: u8, o: u8, short: bool) -> Note {
    Note { note: n, octave: o, short }
}

fn channel(id: u16, volume: u8, enabled: bool) -> InstrChannel {
    InstrChannel { id, volume, enabled }
}

fn sample_music() -> Music {
    Music {
        bps: 8,
        section_height: 4,
        notes: vec![
            vec![Tone::note(1, 4, false), Tone::empty()],
            vec![Tone::empty(), Tone::note(11, 9, true)],
            vec![Tone::note(12, 0, true), Tone::note(5, 127, false)],
        ],
        ic: vec![channel(1, 255, true), channel(0x0102, 74, false)],
    }
}

fn same_music(a: &Music, b: &Music) -> bool {
    a.bps == b.bps
        && a.section_height == b.section_height
        && a.notes == b.notes
        && a.ic == b.ic
}

#[test]
fn is_sharp_marks_the_five_sharps() {
    let sharps: Vec<u8> = (1..=12).filter(|&n| note(n, 4, false).is_sharp()).collect();
    assert_eq!(sharps, vec![2, 4, 7, 9, 11]);
}

#[test]
fn toggle_sharp_pairs_naturals_and_sharps() {
    let mut toggled = vec![];
    for n in 1..=12 {
        let mut x = note(n, 3, true);
        x.toggle_sharp();
        assert_eq!(x.octave, 3);
        assert!(x.short);
        toggled.push(x.note);
    }
    assert_eq!(toggled, vec![2, 1, 4, 3, 5, 7, 6, 9, 8, 11, 10, 12]);
}

#[test]
fn toggle_sharp_twice_gives_back_the_note() {
    for n in 1..=12 {
        let mut x = note(n, 2, false);
        x.toggle_sharp();
        x.toggle_sharp();
        assert_eq!(x.note, n);
    }
}

#[test]
fn toggle_sharp_flips_sharpness_except_e_and_b() {
    for n in 1..=12 {
        let mut x = note(n, 2, false);
        let before = x.is_sharp();
        x.toggle_sharp();
        if n == 5 || n == 12 {
            assert_eq!(x.note, n);
        } else {
            assert_ne!(x.is_sharp(), before);
        }
    }
}

#[test]
fn note_render_shows_pitch_octave_and_length() {
    assert_eq!(
        note(1, 1, false).render(),
        "\x1b[38;5;196mC-\x1b[38;5;33m1\x1b[38;5;245m."
    );
    assert_eq!(
        note(11, 9, true).render(),
        "\x1b[38;5;129mA#\x1b[38;5;129m9\x1b[38;5;251m!"
    );
    assert_eq!(
        note(7, 0, false).render(),
        "\x1b[38;5;48mF#\x1b[38;5;105m0\x1b[38;5;245m."
    );
}

#[test]
fn tone_render_of_empty_cell_is_dashes() {
    assert_eq!(Tone::empty().render(), "\x1b[38;5;245m----");
    assert_eq!(Tone::note(4, 5, true).render(), note(4, 5, true).render());
}

#[test]
fn key_number_follows_the_piano_keys() {
    // A, octave 4 of the tracker: key 61, i.e. 880 Hz.
    assert_eq!(note(10, 4, false).key_number(), 61);
    // C, octave 4: key 52.
    assert_eq!(note(1, 4, false).key_number(), 52);
    // B, octave 0: key 15.
    assert_eq!(note(12, 0, false).key_number(), 15);
    // A, octave 3: key 49, i.e. 440 Hz.
    assert_eq!(note(10, 3, false).key_number(), 49);
}

#[test]
fn key_number_steps_between_semitones() {
    // G, G#, A of octave 4: G# counts with the lower keys of its octave.
    assert_eq!(note(8, 4, false).key_number(), 59);
    assert_eq!(note(9, 4, false).key_number(), 48);
    assert_eq!(note(10, 4, false).key_number(), 61);
    assert_eq!(note(9, 3, false).key_number(), 36);
    for octave in 0..9u8 {
        for n in 1..12u8 {
            let step = note(n + 1, octave, false).key_number() as i32 - note(n, octave, false).key_number() as i32;
            let expected = match n {
                8 => -11,
                9 => 13,
                _ => 1,
            };
            assert_eq!(step, expected);
        }
        assert_eq!(note(1, octave + 1, false).key_number(), note(12, octave, false).key_number() + 1);
        assert_eq!(note(9, octave + 1, true).key_number(), note(9, octave, true).key_number() + 12);
    }
    assert_eq!(note(9, 21, false).checked_key_number(), Some(252));
    assert_eq!(note(10, 21, false).checked_key_number(), None);
    assert_eq!(note(8, 21, false).checked_key_number(), None);
}

#[test]
fn tone_serialize_forms() {
    assert_eq!(Tone::empty().serialize(), vec![0]);
    assert_eq!(Tone::note(3, 4, false).serialize(), vec![3, 4]);
    assert_eq!(Tone::note(3, 4, true).serialize(), vec![3, 0x84]);
}

#[test]
fn tone_deserialize_reads_one_tone() {
    let bytes = [0u8, 3, 0x84, 9, 2];
    let (t, p) = Tone::deserialize(&bytes, 0);
    assert_eq!(t, Tone::empty());
    assert_eq!(p, 1);
    let (t, p) = Tone::deserialize(&bytes, 1);
    assert_eq!(t, Tone::note(3, 4, true));
    assert_eq!(p, 3);
    let (t, p) = Tone::deserialize(&bytes, 3);
    assert_eq!(t, Tone::note(9, 2, false));
    assert_eq!(p, 5);
}

#[test]
fn at_and_size_read_the_grid() {
    let m = sample_music();
    assert_eq!(m.size(), (2, 3));
    assert_eq!(*m.at(1, 1), Tone::note(11, 9, true));
    assert_eq!(*m.at(0, 1), Tone::empty());
}

#[test]
fn at_mut_changes_one_cell() {
    let mut m = sample_music();
    *m.at_mut(0, 2) = Tone::empty();
    assert_eq!(*m.at(0, 2), Tone::empty());
    assert_eq!(*m.at(1, 2), Tone::note(5, 127, false));
    assert_eq!(*m.at(0, 0), Tone::note(1, 4, false));
}

#[test]
fn serialize_writes_header_channels_and_rows() {
    let m = sample_music();
    let expected: Vec<u8> = vec![
        2, 2, 8, 4, // version, channels, bps, section height
        0, 1, 255, 1, // channel 1
        1, 2, 74, 0, // channel 0x0102, disabled
        1, 4, 0, // row 0
        0, 11, 0x89, // row 1
        12, 0x80, 5, 127, // row 2
    ];
    assert_eq!(m.serialize(), expected);
}

#[test]
fn serialize_then_deserialize_gives_the_song() {
    let m = sample_music();
    let back = Music::deserialize(m.serialize());
    assert!(same_music(&m, &back));
}

#[test]
fn deserialize_then_serialize_gives_the_file() {
    let bytes: Vec<u8> = vec![2, 1, 3, 2, 0, 4, 191, 1, 0, 6, 0x05, 0];
    let m = Music::deserialize(bytes.clone());
    assert_eq!(m.serialize(), bytes);
}

#[test]
fn deserialize_of_empty_song() {
    let m = Music::deserialize(vec![2, 0, 7, 3]);
    assert_eq!(m.bps, 7);
    assert_eq!(m.section_height, 3);
    assert!(m.notes.is_empty());
    assert!(m.ic.is_empty());
}

#[test]
fn deserialize_reads_enabled_as_nonzero() {
    let m = Music::deserialize(vec![2, 1, 8, 4, 0, 2, 9, 7, 0]);
    assert_eq!(m.ic, vec![channel(2, 9, true)]);
    assert_eq!(m.notes, vec![vec![Tone::empty()]]);
    // Writing it back gives the file with the flag byte 7 written as 1.
    assert_eq!(m.serialize(), vec![2, 1, 8, 4, 0, 2, 9, 1, 0]);
}

#[test]
fn deserialize_upgrades_version_one() {
    let mut bytes: Vec<u8> = vec![1, 14, 6, 2];
    bytes.extend(std::iter::repeat(0u8).take(14));
    let m = Music::deserialize(bytes);
    assert_eq!(m.bps, 6);
    assert_eq!(m.section_height, 2);
    let ids: Vec<u16> = m.ic.iter().map(|c| c.id).collect();
    assert_eq!(ids, vec![1, 1, 1, 1, 1, 1, 2, 3, 2, 3, 4, 4, 4, 4]);
    let volumes: Vec<u8> = m.ic.iter().map(|c| c.volume).collect();
    assert_eq!(volumes, vec![255, 255, 255, 255, 255, 255, 74, 74, 74, 74, 191, 191, 191, 191]);
    assert!(m.ic.iter().all(|c| c.enabled));
    assert_eq!(m.notes, vec![vec![Tone::empty(); 14]]);
}

#[test]
fn deserialize_upgrades_version_zero() {
    let mut bytes: Vec<u8> = vec![0, 14];
    bytes.extend(std::iter::repeat(0u8).take(13));
    bytes.extend([1u8, 0x83]);
    let m = Music::deserialize(bytes);
    assert_eq!(m.bps, 8);
    assert_eq!(m.section_height, 4);
    assert_eq!(m.ic.len(), 14);
    assert_eq!(m.notes.len(), 1);
    assert_eq!(m.notes[0][13], Tone::note(1, 3, true));
}

#[test]
fn try_deserialize_refuses_what_is_not_a_song() {
    // unknown version
    assert!(Music::try_deserialize(vec![3, 0, 8, 4]).is_none());
    // empty file
    assert!(Music::try_deserialize(vec![]).is_none());
    // header cut short
    assert!(Music::try_deserialize(vec![2, 0, 8]).is_none());
    // channels cut short
    assert!(Music::try_deserialize(vec![2, 1, 8, 4, 0, 1]).is_none());
    // row cut inside a note
    assert!(Music::try_deserialize(vec![2, 1, 8, 4, 0, 1, 9, 1, 5]).is_none());
    // bytes after the header of a file without channels
    assert!(Music::try_deserialize(vec![2, 0, 8, 4, 0]).is_none());
    // an older file without 14 channels
    assert!(Music::try_deserialize(vec![1, 13, 8, 4]).is_none());
}

#[test]
fn try_deserialize_agrees_with_deserialize() {
    let m = sample_music();
    let back = Music::try_deserialize(m.serialize()).expect("a stored song");
    assert!(same_music(&m, &back));
}

#[test]
fn row_editing() {
    let mut m = sample_music();
    m.insert_empty_row(1, 3);
    assert_eq!(m.notes.len(), 4);
    assert_eq!(m.notes[1], vec![Tone::empty(); 3]);
    assert_eq!(m.notes[2], sample_music().notes[1]);
    m.swap_rows(0, 2);
    assert_eq!(m.notes[0], sample_music().notes[1]);
    assert_eq!(m.notes[2], sample_music().notes[0]);
    m.remove_row(1);
    assert_eq!(m.notes.len(), 3);
    assert_eq!(m.notes[1], sample_music().notes[0]);
}
