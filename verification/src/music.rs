use vstd::prelude::*;
use crate::upgrade::{can_upgrade, spec_upgrade, spec_upgrade_ok, upgrade, FILE_VERSION};

verus! {

/// A pitched note: `note` is the pitch class 1 (C) ..= 12 (B), `octave` is
/// 0 ..= 9 for display, and `short` marks a note released early.
#[derive(Debug, Clone, Copy, PartialEq, Eq, Structural)]
pub struct Note {
    pub note: u8,
    pub octave: u8,
    pub short: bool,
}

/// A pitch class of the tracker's scale: 1 (C) ..= 12 (B).
pub open spec fn is_pitch(n: u8) -> bool {
    1 <= n <= 12
}

/// Whether pitch class `n` is a sharp (C#, D#, F#, G#, A#).
pub open spec fn spec_is_sharp(n: u8) -> bool {
    n == 2 || n == 4 || n == 7 || n == 9 || n == 11
}

/// The pitch class reached by adding or removing a sharp; E and B stay.
pub open spec fn spec_toggle_sharp(n: u8) -> u8 {
    if n == 1 { 2 }
    else if n == 2 { 1 }
    else if n == 3 { 4 }
    else if n == 4 { 3 }
    else if n == 6 { 7 }
    else if n == 7 { 6 }
    else if n == 8 { 9 }
    else if n == 9 { 8 }
    else if n == 10 { 11 }
    else if n == 11 { 10 }
    else { n }
}

impl Note {
    /// Whether this note is a sharp.
    pub fn is_sharp(&self) -> (r: bool)
        requires
            is_pitch(self.note),
        ensures
            r == spec_is_sharp(self.note),
    {
        match self.note {
            1 => false,
            2 => true,
            3 => false,
            4 => true,
            5 => false,
            6 => false,
            7 => true,
            8 => false,
            9 => true,
            10 => false,
            11 => true,
            _ => false,
        }
    }

    /// Adds a sharp to the pitch, or removes it; E and B have none and stay.
    pub fn toggle_sharp(&mut self)
        requires
            is_pitch(old(self).note),
        ensures
            final(self).note == spec_toggle_sharp(old(self).note),
            final(self).octave == old(self).octave,
            final(self).short == old(self).short,
    {
        self.note = match self.note {
            1 => 2,
            2 => 1,
            3 => 4,
            4 => 3,
            5 => 5,
            6 => 7,
            7 => 6,
            8 => 9,
            9 => 8,
            10 => 11,
            11 => 10,
            _ => 12,
        };
    }
}


/// Adding a sharp and removing it again gives back the pitch; the result
/// is always a pitch class.
pub proof fn lemma_toggle_sharp_involution(n: u8)
    requires
        is_pitch(n),
    ensures
        is_pitch(spec_toggle_sharp(n)),
        spec_toggle_sharp(spec_toggle_sharp(n)) == n,
{
}

/// Toggling the sharp turns a sharp into a natural and a natural into a
/// sharp, except for E and B, which have no sharp and stay as they are.
pub proof fn lemma_toggle_sharp_flips(n: u8)
    requires
        is_pitch(n),
    ensures
        n == 5 || n == 12 ==> spec_toggle_sharp(n) == n,
        n != 5 && n != 12 ==> spec_is_sharp(spec_toggle_sharp(n)) != spec_is_sharp(n),
{
}

/// Adding a sharp raises a natural by one semitone and removing it lowers a
/// sharp by one; E and B, whose next semitone is the following natural, stay.
pub proof fn lemma_toggle_sharp_semitone(n: u8)
    requires
        is_pitch(n),
    ensures
        !spec_is_sharp(n) && n != 5 && n != 12 ==> spec_toggle_sharp(n) == n + 1,
        spec_is_sharp(n) ==> spec_toggle_sharp(n) == n - 1,
        n == 5 || n == 12 ==> spec_toggle_sharp(n) == n,
{
}

/// The sharps of the scale are exactly the pitch classes that follow a
/// natural other than E or B: C#, D#, F#, G#, A#, and C is the first.
pub proof fn lemma_sharps_follow_naturals(n: u8)
    requires
        is_pitch(n),
    ensures
        spec_is_sharp(n) <==> (n > 1 && !spec_is_sharp((n - 1) as u8) && n - 1 != 5 && n - 1 != 12),
        !spec_is_sharp(1),
{
}

/// The key number from which a note's frequency is computed, 49 being
/// 440 Hz: the pitch class counted from A (G# counts 0, A 1, B 3, C 4,
/// G 11), plus twelve per octave, where A, A# and B count one octave more.
/// So C to G and A to B rise by one key per semitone, while G# lies eleven
/// keys below G of its octave, and A thirteen keys above G#.
pub open spec fn spec_key_number(n: Note) -> int {
    (n.note + 3) % 12 + 12 * (if n.note >= 10 { n.octave + 1 } else { n.octave as int })
}

/// The note one semitone above `n`: the next pitch class, or C of the next
/// octave after B.
pub open spec fn semitone_up(n: Note) -> Note {
    if n.note < 12 {
        Note { note: (n.note + 1) as u8, ..n }
    } else {
        Note { note: 1, octave: (n.octave + 1) as u8, ..n }
    }
}

/// Each semitone up adds one key, except the steps from G to G# (eleven
/// keys down) and from G# to A (thirteen keys up); each octave up adds
/// twelve keys.
pub proof fn lemma_key_number_steps(n: Note)
    requires
        is_pitch(n.note),
        n.octave < 255,
    ensures
        n.note != 8 && n.note != 9 ==> spec_key_number(semitone_up(n)) == spec_key_number(n) + 1,
        n.note == 8 ==> spec_key_number(semitone_up(n)) == spec_key_number(n) - 11,
        n.note == 9 ==> spec_key_number(semitone_up(n)) == spec_key_number(n) + 13,
        spec_key_number(Note { octave: (n.octave + 1) as u8, ..n }) == spec_key_number(n) + 12,
        spec_key_number(Note { note: 10, octave: 3, short: n.short }) == 49,
{
}

/// The key number can be computed in bytes: no step leaves 0 ..= 255.
pub open spec fn key_number_fits(n: Note) -> bool {
    &&& n.note + 3 <= 255
    &&& 12 * (if n.note >= 10 { n.octave + 1 } else { n.octave as int }) <= 255
    &&& spec_key_number(n) <= 255
}

/// Text colour and name shown for pitch class `n`.
pub open spec fn spec_pitch_label(n: u8) -> &'static str {
    if n == 1 { "\x1b[38;5;196mC-" }
    else if n == 2 { "\x1b[38;5;202mC#" }
    else if n == 3 { "\x1b[38;5;208mD-" }
    else if n == 4 { "\x1b[38;5;220mD#" }
    else if n == 5 { "\x1b[38;5;190mE-" }
    else if n == 6 { "\x1b[38;5;118mF-" }
    else if n == 7 { "\x1b[38;5;48mF#" }
    else if n == 8 { "\x1b[38;5;51mG-" }
    else if n == 9 { "\x1b[38;5;39mG#" }
    else if n == 10 { "\x1b[38;5;27mA-" }
    else if n == 11 { "\x1b[38;5;129mA#" }
    else { "\x1b[38;5;201mB-" }
}

/// Text colour used for the octave digit of octave `o`.
pub open spec fn spec_octave_colour(o: u8) -> &'static str {
    if o == 0 { "\x1b[38;5;105m" }
    else if o == 1 { "\x1b[38;5;33m" }
    else if o == 2 { "\x1b[38;5;51m" }
    else if o == 3 { "\x1b[38;5;123m" }
    else if o == 4 { "\x1b[38;5;118m" }
    else if o == 5 { "\x1b[38;5;190m" }
    else if o == 6 { "\x1b[38;5;202m" }
    else if o == 7 { "\x1b[38;5;196m" }
    else if o == 8 { "\x1b[38;5;200m" }
    else { "\x1b[38;5;129m" }
}

/// The decimal digit of octave `o` (0 ..= 9).
pub open spec fn spec_octave_digit(o: u8) -> &'static str {
    if o == 0 { "0" }
    else if o == 1 { "1" }
    else if o == 2 { "2" }
    else if o == 3 { "3" }
    else if o == 4 { "4" }
    else if o == 5 { "5" }
    else if o == 6 { "6" }
    else if o == 7 { "7" }
    else if o == 8 { "8" }
    else { "9" }
}

/// The marker after the octave: `!` for a short note, `.` otherwise.
pub open spec fn spec_length_mark(short: bool) -> &'static str {
    if short { "\x1b[38;5;251m!" } else { "\x1b[38;5;245m." }
}

/// The letters of the twelve pitch classes, C (1) to B (12).
pub open spec fn pitch_letters() -> Seq<char> {
    seq!['C', 'C', 'D', 'D', 'E', 'F', 'F', 'G', 'G', 'A', 'A', 'B']
}

/// The drawn name of a pitch class ends with its letter and then `#` for a
/// sharp or `-` for a natural; toggling the sharp keeps the letter.
pub proof fn lemma_pitch_label_names(n: u8)
    requires
        is_pitch(n),
    ensures
        spec_pitch_label(n)@.len() >= 2,
        spec_pitch_label(n)@.last() == (if spec_is_sharp(n) { '#' } else { '-' }),
        spec_pitch_label(n)@[spec_pitch_label(n)@.len() - 2] == pitch_letters()[n - 1],
        pitch_letters()[spec_toggle_sharp(n) - 1] == pitch_letters()[n - 1],
{
    reveal_strlit("\x1b[38;5;196mC-");
    reveal_strlit("\x1b[38;5;202mC#");
    reveal_strlit("\x1b[38;5;208mD-");
    reveal_strlit("\x1b[38;5;220mD#");
    reveal_strlit("\x1b[38;5;190mE-");
    reveal_strlit("\x1b[38;5;118mF-");
    reveal_strlit("\x1b[38;5;48mF#");
    reveal_strlit("\x1b[38;5;51mG-");
    reveal_strlit("\x1b[38;5;39mG#");
    reveal_strlit("\x1b[38;5;27mA-");
    reveal_strlit("\x1b[38;5;129mA#");
    reveal_strlit("\x1b[38;5;201mB-");
}

/// The octave is drawn as the character of its digit.
pub proof fn lemma_octave_digit_chars(o: u8)
    requires
        o <= 9,
    ensures
        spec_octave_digit(o)@ == seq![(48 + o) as char],
{
    reveal_strlit("0");
    reveal_strlit("1");
    reveal_strlit("2");
    reveal_strlit("3");
    reveal_strlit("4");
    reveal_strlit("5");
    reveal_strlit("6");
    reveal_strlit("7");
    reveal_strlit("8");
    reveal_strlit("9");
}

/// A drawn note reads: its pitch name, then (after a colour code) its octave
/// digit, then (after a colour code) `!` for a short note or `.` for a long one.
pub proof fn lemma_note_text_layout(n: Note)
    requires
        is_renderable(n),
    ensures
        ({
            let t = spec_note_text(n);
            let len = t.len() as int;
            &&& t.take(spec_pitch_label(n.note)@.len() as int) == spec_pitch_label(n.note)@
            &&& len >= 13
            &&& t[len - 1] == (if n.short { '!' } else { '.' })
            &&& t[len - 13] == (48 + n.octave) as char
        }),
{
    reveal_strlit("\x1b[38;5;251m!");
    reveal_strlit("\x1b[38;5;245m.");
    lemma_octave_digit_chars(n.octave);
    let t = spec_note_text(n);
    let a = spec_pitch_label(n.note)@ + spec_octave_colour(n.octave)@;
    assert(t == a + spec_octave_digit(n.octave)@ + spec_length_mark(n.short)@);
    assert(t.take(spec_pitch_label(n.note)@.len() as int) =~= spec_pitch_label(n.note)@);
}

/// A note can be drawn when its pitch class and octave are in range.
pub open spec fn is_renderable(n: Note) -> bool {
    is_pitch(n.note) && n.octave <= 9
}

/// The coloured four-column cell text of a note.
pub open spec fn spec_note_text(n: Note) -> Seq<char> {
    spec_pitch_label(n.note)@ + spec_octave_colour(n.octave)@ + spec_octave_digit(n.octave)@
        + spec_length_mark(n.short)@
}

fn pitch_label(n: u8) -> (r: &'static str)
    requires
        is_pitch(n),
    ensures
        r@ == spec_pitch_label(n)@,
{
    match n {
        1 => "\x1b[38;5;196mC-",
        2 => "\x1b[38;5;202mC#",
        3 => "\x1b[38;5;208mD-",
        4 => "\x1b[38;5;220mD#",
        5 => "\x1b[38;5;190mE-",
        6 => "\x1b[38;5;118mF-",
        7 => "\x1b[38;5;48mF#",
        8 => "\x1b[38;5;51mG-",
        9 => "\x1b[38;5;39mG#",
        10 => "\x1b[38;5;27mA-",
        11 => "\x1b[38;5;129mA#",
        _ => "\x1b[38;5;201mB-",
    }
}

fn octave_colour(o: u8) -> (r: &'static str)
    requires
        o <= 9,
    ensures
        r@ == spec_octave_colour(o)@,
{
    match o {
        0 => "\x1b[38;5;105m",
        1 => "\x1b[38;5;33m",
        2 => "\x1b[38;5;51m",
        3 => "\x1b[38;5;123m",
        4 => "\x1b[38;5;118m",
        5 => "\x1b[38;5;190m",
        6 => "\x1b[38;5;202m",
        7 => "\x1b[38;5;196m",
        8 => "\x1b[38;5;200m",
        _ => "\x1b[38;5;129m",
    }
}

fn octave_digit(o: u8) -> (r: &'static str)
    requires
        o <= 9,
    ensures
        r@ == spec_octave_digit(o)@,
{
    match o {
        0 => "0",
        1 => "1",
        2 => "2",
        3 => "3",
        4 => "4",
        5 => "5",
        6 => "6",
        7 => "7",
        8 => "8",
        _ => "9",
    }
}

impl Note {
    /// The key number of this note (A of octave 3 is key 49), from which
    /// its frequency 440 * 2^((k - 49) / 12) Hz follows.
    pub fn key_number(&self) -> (k: u8)
        requires
            key_number_fits(*self),
        ensures
            k == spec_key_number(*self),
    {
        let octaves = if self.note >= 10 { self.octave + 1 } else { self.octave };
        (self.note + 3) % 12 + 12 * octaves
    }

    /// The key number of this note, or `None` where computing it in
    /// bytes would overflow.
    pub fn checked_key_number(&self) -> (k: Option<u8>)
        ensures
            match k {
                Some(k) => key_number_fits(*self) && k == spec_key_number(*self),
                None => !key_number_fits(*self),
            },
    {
        if self.note > 252 {
            return None;
        }
        let octaves: u16 = if self.note >= 10 { self.octave as u16 + 1 } else { self.octave as u16 };
        if 12 * octaves > 255 {
            return None;
        }
        let k = ((self.note + 3) % 12) as u16 + 12 * octaves;
        if k > 255 {
            return None;
        }
        Some(self.key_number())
    }

    /// The coloured cell text of this note, e.g. `C-4.` with colour codes.
    pub fn render(&self) -> (r: String)
        requires
            is_renderable(*self),
        ensures
            r@ == spec_note_text(*self),
    {
        let mut out = String::from_str(pitch_label(self.note));
        out.append(octave_colour(self.octave));
        out.append(octave_digit(self.octave));
        if self.short {
            out.append("\x1b[38;5;251m!");
        } else {
            out.append("\x1b[38;5;245m.");
        }
        out
    }
}


/// The octave bits of a stored note's second byte.
pub const OCTAVE_MASK: u8 = 0x7f;

/// The bit of a stored note's second byte that marks a short note.
pub const SHORT_FLAG: u8 = 0x80;

/// One cell of the song grid: a note, or nothing.
#[derive(Debug, Clone, Copy, PartialEq, Eq, Structural)]
pub struct Tone {
    pub note: Option<Note>,
}

/// The empty cell.
pub open spec fn empty_tone() -> Tone {
    Tone { note: None }
}

/// A cell can be drawn when it is empty or holds a drawable note.
pub open spec fn tone_is_renderable(t: Tone) -> bool {
    match t.note {
        Some(n) => is_renderable(n),
        None => true,
    }
}

/// The cell text of a tone: the note's text, or a grey dash line.
pub open spec fn spec_tone_text(t: Tone) -> Seq<char> {
    match t.note {
        Some(n) => spec_note_text(n),
        None => "\x1b[38;5;245m----"@,
    }
}

/// The stored form of a tone: `[0]` when empty; otherwise the pitch byte,
/// then the octave with the short flag as its top bit.
pub open spec fn spec_tone_bytes(t: Tone) -> Seq<u8> {
    match t.note {
        None => seq![0u8],
        Some(n) => seq![n.note, n.octave | (if n.short { SHORT_FLAG } else { 0u8 })],
    }
}

/// A stored note is its pitch byte, then its octave plus 128 for a short
/// note; an empty cell is the single byte 0.
pub proof fn lemma_tone_bytes_plain(t: Tone)
    ensures
        t.note is None ==> spec_tone_bytes(t) == seq![0u8],
        t.note is Some && t.note.unwrap().octave < 128 ==> spec_tone_bytes(t) == seq![
            t.note.unwrap().note,
            (t.note.unwrap().octave + if t.note.unwrap().short { 128int } else { 0int }) as u8,
        ],
{
    if let Some(n) = t.note {
        let o = n.octave;
        if o < 128 {
            assert((o | 0x80u8) == o + 128 && (o | 0u8) == o) by (bit_vector)
                requires
                    o < 128,
            ;
        }
    }
}

/// Reads one stored tone at `pos` of `s`: the tone and the position after it,
/// or `None` where the bytes run out. A pitch byte of 0 is the empty tone.
pub open spec fn spec_parse_tone(s: Seq<u8>, pos: int) -> Option<(Tone, int)> {
    if pos < 0 || pos >= s.len() {
        None
    } else if s[pos] != 0 {
        if pos + 1 < s.len() {
            let d = s[pos + 1];
            Some((
                Tone {
                    note: Some(Note { note: s[pos], octave: d & OCTAVE_MASK, short: d & SHORT_FLAG > 0 }),
                },
                pos + 2,
            ))
        } else {
            None
        }
    } else {
        Some((empty_tone(), pos + 1))
    }
}

impl Tone {
    /// The empty cell.
    pub fn empty() -> (t: Self)
        ensures
            t == empty_tone(),
    {
        Tone { note: None }
    }

    /// A cell holding the given note.
    pub fn note(note: u8, octave: u8, short: bool) -> (t: Self)
        ensures
            t == (Tone { note: Some(Note { note, octave, short }) }),
    {
        Tone { note: Some(Note { short, note, octave }) }
    }

    /// The coloured four-column cell text of this tone.
    pub fn render(&self) -> (r: String)
        requires
            tone_is_renderable(*self),
        ensures
            r@ == spec_tone_text(*self),
    {
        match &self.note {
            Some(n) => n.render(),
            None => String::from_str("\x1b[38;5;245m----"),
        }
    }

    /// The stored bytes of this tone.
    pub fn serialize(&self) -> (r: Vec<u8>)
        ensures
            r@ == spec_tone_bytes(*self),
    {
        match &self.note {
            Some(n) => {
                let flag: u8 = if n.short { SHORT_FLAG } else { 0 };
                vec![n.note, n.octave | flag]
            },
            None => vec![0],
        }
    }

    /// Reads the tone stored at `pos` of `bytes`, with the position after it.
    pub fn deserialize(bytes: &[u8], pos: usize) -> (r: (Self, usize))
        requires
            spec_parse_tone(bytes@, pos as int) is Some,
        ensures
            spec_parse_tone(bytes@, pos as int) == Some((r.0, r.1 as int)),
    {
        let note = bytes[pos];
        if note != 0 {
            let d = bytes[pos + 1];
            let octave = d & OCTAVE_MASK;
            let short = d & SHORT_FLAG > 0;
            (Tone::note(note, octave, short), pos + 2)
        } else {
            (Tone::empty(), pos + 1)
        }
    }
}


/// One instrument column: which instrument plays it, how loud, and whether
/// it sounds.
#[derive(Debug, Clone, Copy, PartialEq, Eq, Structural)]
pub struct InstrChannel {
    pub id: u16,
    pub volume: u8,
    pub enabled: bool,
}

/// A song: its speed in beats per second, how many rows make a section,
/// the grid of tones (one row per beat) and the instrument channels.
pub struct Music {
    pub bps: u8,
    pub section_height: u8,
    pub notes: Vec<Vec<Tone>>,
    pub ic: Vec<InstrChannel>,
}

/// The mathematical value of a song.
#[verifier::ext_equal]
pub struct Song {
    pub bps: u8,
    pub section_height: u8,
    pub notes: Seq<Seq<Tone>>,
    pub ic: Seq<InstrChannel>,
}

/// The rows of a grid as sequences.
pub open spec fn rows_view(rows: Seq<Vec<Tone>>) -> Seq<Seq<Tone>> {
    Seq::new(rows.len(), |i: int| rows[i]@)
}

impl View for Music {
    type V = Song;

    open spec fn view(&self) -> Song {
        Song {
            bps: self.bps,
            section_height: self.section_height,
            notes: rows_view(self.notes@),
            ic: self.ic@,
        }
    }
}

/// Every row holds a tone for each channel.
pub open spec fn rows_cover_channels(m: Song) -> bool {
    forall|y: int| 0 <= y < m.notes.len() ==> #[trigger] m.notes[y].len() >= m.ic.len()
}

/// The stored form of a channel: the id big-endian, the volume, and 1 or 0
/// for enabled.
pub open spec fn spec_channel_bytes(c: InstrChannel) -> Seq<u8> {
    seq![(c.id / 256) as u8, (c.id % 256) as u8, c.volume, if c.enabled { 1u8 } else { 0u8 }]
}

/// The stored form of a list of channels.
pub open spec fn spec_channels_bytes(cs: Seq<InstrChannel>) -> Seq<u8>
    decreases cs.len(),
{
    if cs.len() == 0 {
        seq![]
    } else {
        spec_channels_bytes(cs.drop_last()) + spec_channel_bytes(cs.last())
    }
}

/// The stored form of a list of tones.
pub open spec fn spec_tones_bytes(ts: Seq<Tone>) -> Seq<u8>
    decreases ts.len(),
{
    if ts.len() == 0 {
        seq![]
    } else {
        spec_tones_bytes(ts.drop_last()) + spec_tone_bytes(ts.last())
    }
}

/// The stored form of the grid: the first `width` tones of each row, row
/// after row.
pub open spec fn spec_rows_bytes(rows: Seq<Seq<Tone>>, width: nat) -> Seq<u8>
    decreases rows.len(),
{
    if rows.len() == 0 {
        seq![]
    } else {
        spec_rows_bytes(rows.drop_last(), width) + spec_tones_bytes(rows.last().take(width as int))
    }
}

/// The song file: version, channel count (as a byte), speed, section
/// height, the channels, then the grid.
pub open spec fn spec_serialize(m: Song) -> Seq<u8> {
    seq![FILE_VERSION, m.ic.len() as u8, m.bps, m.section_height] + spec_channels_bytes(m.ic)
        + spec_rows_bytes(m.notes, m.ic.len())
}

/// A song file starts with the version 2, the channel count as a byte, the
/// speed and the section height, followed by four bytes per channel.
pub proof fn lemma_serialize_header(m: Song)
    ensures
        spec_serialize(m).take(4) == seq![2u8, m.ic.len() as u8, m.bps, m.section_height],
        spec_serialize(m).len() >= 4 + 4 * m.ic.len(),
{
    assert(spec_serialize(m).take(4) =~= seq![FILE_VERSION, m.ic.len() as u8, m.bps, m.section_height]);
    lemma_channels_bytes_len(m.ic);
}

proof fn lemma_channels_bytes_len(cs: Seq<InstrChannel>)
    ensures
        spec_channels_bytes(cs).len() == 4 * cs.len(),
    decreases cs.len(),
{
    if cs.len() > 0 {
        lemma_channels_bytes_len(cs.drop_last());
    }
}

impl Music {
    /// The tone in channel `x` of row `y`.
    pub fn at(&self, x: usize, y: usize) -> (t: &Tone)
        requires
            y < self@.notes.len(),
            x < self@.notes[y as int].len(),
        ensures
            *t == self@.notes[y as int][x as int],
    {
        &self.notes[y][x]
    }

    /// The tone in channel `x` of row `y`, to be changed in place.
    pub fn at_mut(&mut self, x: usize, y: usize) -> (t: &mut Tone)
        requires
            y < old(self)@.notes.len(),
            x < old(self)@.notes[y as int].len(),
        ensures
            *t == old(self)@.notes[y as int][x as int],
            final(self).ic == old(self).ic,
            final(self).bps == old(self).bps,
            final(self).section_height == old(self).section_height,
            final(self)@.notes =~= old(self)@.notes.update(
                y as int,
                old(self)@.notes[y as int].update(x as int, *final(t)),
            ),
    {
        &mut self.notes[y][x]
    }

    /// Inserts a row of `width` empty tones at row `index`.
    pub fn insert_empty_row(&mut self, index: usize, width: usize)
        requires
            index <= old(self)@.notes.len(),
        ensures
            final(self)@ == (Song {
                notes: old(self)@.notes.insert(index as int, Seq::new(width as nat, |i: int| empty_tone())),
                ..old(self)@
            }),
    {
        let mut row: Vec<Tone> = Vec::new();
        let mut i: usize = 0;
        while i < width
            invariant
                i <= width,
                row@ =~= Seq::new(i as nat, |k: int| empty_tone()),
            decreases width - i,
        {
            row.push(Tone::empty());
            i = i + 1;
        }
        let ghost before = self.notes@;
        self.notes.insert(index, row);
        assert(rows_view(self.notes@) =~= rows_view(before).insert(index as int, row@));
    }

    /// Removes row `index`.
    pub fn remove_row(&mut self, index: usize)
        requires
            index < old(self)@.notes.len(),
        ensures
            final(self)@ == (Song { notes: old(self)@.notes.remove(index as int), ..old(self)@ }),
    {
        let ghost before = self.notes@;
        let _ = self.notes.remove(index);
        assert(rows_view(self.notes@) =~= rows_view(before).remove(index as int));
    }

    /// Exchanges rows `a` and `b`.
    pub fn swap_rows(&mut self, a: usize, b: usize)
        requires
            a < old(self)@.notes.len(),
            b < old(self)@.notes.len(),
        ensures
            final(self)@ == (Song {
                notes: old(self)@.notes.update(a as int, old(self)@.notes[b as int]).update(
                    b as int,
                    old(self)@.notes[a as int],
                ),
                ..old(self)@
            }),
    {
        if a == b {
            assert(rows_view(self.notes@) =~= rows_view(self.notes@).update(
                a as int,
                rows_view(self.notes@)[b as int],
            ).update(b as int, rows_view(self.notes@)[a as int]));
            return;
        }
        let ghost before = self.notes@;
        let (lo, hi) = if a < b { (a, b) } else { (b, a) };
        let upper = self.notes.remove(hi);
        let lower = self.notes.remove(lo);
        self.notes.insert(lo, upper);
        self.notes.insert(hi, lower);
        assert(self.notes@ =~= before.update(lo as int, before[hi as int]).update(
            hi as int,
            before[lo as int],
        ));
        assert(rows_view(self.notes@) =~= rows_view(before).update(
            a as int,
            rows_view(before)[b as int],
        ).update(b as int, rows_view(before)[a as int]));
    }

    /// The number of channels and the number of rows.
    pub fn size(&self) -> (r: (usize, usize))
        ensures
            r.0 == self@.ic.len(),
            r.1 == self@.notes.len(),
    {
        (self.ic.len(), self.notes.len())
    }

    /// The song in its file format.
    pub fn serialize(&self) -> (r: Vec<u8>)
        requires
            rows_cover_channels(self@),
        ensures
            r@ == spec_serialize(self@),
    {
        let (width, height) = self.size();
        let mut ser: Vec<u8> = vec![FILE_VERSION, width as u8, self.bps, self.section_height];
        let ghost header = ser@;
        let mut i: usize = 0;
        while i < width
            invariant
                width == self.ic@.len(),
                i <= width,
                ser@ == header + spec_channels_bytes(self.ic@.take(i as int)),
            decreases width - i,
        {
            let c = self.ic[i];
            let enabled: u8 = if c.enabled { 1 } else { 0 };
            let mut bytes: Vec<u8> = vec![(c.id / 256) as u8, (c.id % 256) as u8, c.volume, enabled];
            ser.append(&mut bytes);
            assert(self.ic@.take(i as int + 1).drop_last() =~= self.ic@.take(i as int));
            i = i + 1;
        }
        assert(self.ic@.take(width as int) =~= self.ic@);
        let ghost channels = ser@;
        let mut y: usize = 0;
        while y < height
            invariant
                width == self@.ic.len(),
                height == self@.notes.len(),
                y <= height,
                rows_cover_channels(self@),
                ser@ == channels + spec_rows_bytes(self@.notes.take(y as int), width as nat),
            decreases height - y,
        {
            let ghost row = self@.notes[y as int];
            let ghost before = ser@;
            let mut x: usize = 0;
            while x < width
                invariant
                    width == self@.ic.len(),
                    height == self@.notes.len(),
                    y < height,
                    x <= width,
                    row == self@.notes[y as int],
                    row.len() >= width,
                    ser@ == before + spec_tones_bytes(row.take(x as int)),
                decreases width - x,
            {
                let mut bytes = self.at(x, y).serialize();
                ser.append(&mut bytes);
                assert(row.take(x as int + 1).drop_last() =~= row.take(x as int));
                x = x + 1;
            }
            assert(self@.notes.take(y as int + 1).drop_last() =~= self@.notes.take(y as int));
            y = y + 1;
        }
        assert(self@.notes.take(height as int) =~= self@.notes);
        ser
    }
}


/// Reads `n` stored tones from `pos` of `s`: the tones and the position
/// after them, or `None` where the bytes run out.
pub open spec fn spec_parse_tones(s: Seq<u8>, pos: int, n: nat) -> Option<(Seq<Tone>, int)>
    decreases n,
{
    if n == 0 {
        Some((seq![], pos))
    } else {
        match spec_parse_tones(s, pos, (n - 1) as nat) {
            Some((ts, p)) => match spec_parse_tone(s, p) {
                Some((t, q)) => Some((ts.push(t), q)),
                None => None,
            },
            None => None,
        }
    }
}

/// Reading `n` tones moves at least `n` bytes forward and stays in `s`.
pub proof fn lemma_parse_tones_advance(s: Seq<u8>, pos: int, n: nat)
    requires
        0 <= pos <= s.len(),
    ensures
        spec_parse_tones(s, pos, n) matches Some((_, p)) ==> pos + n <= p <= s.len(),
    decreases n,
{
    if n > 0 {
        lemma_parse_tones_advance(s, pos, (n - 1) as nat);
        if let Some((_, p)) = spec_parse_tones(s, pos, (n - 1) as nat) {
            if let Some((_, q)) = spec_parse_tone(s, p) {
                assert(p + 1 <= q <= s.len());
            }
        }
    }
}

/// Once reading tones fails, reading more of them fails too.
pub proof fn lemma_parse_tones_fail(s: Seq<u8>, pos: int, k: nat, n: nat)
    requires
        k <= n,
        spec_parse_tones(s, pos, k) is None,
    ensures
        spec_parse_tones(s, pos, n) is None,
    decreases n,
{
    if n > k {
        lemma_parse_tones_fail(s, pos, k, (n - 1) as nat);
    }
}

/// Reads rows of `width` tones from `pos` to the end of `s`, or `None` where
/// the last row is cut short. With no channels and bytes left, no row ever
/// consumes them, so there is no result either.
pub open spec fn spec_parse_rows(s: Seq<u8>, pos: int, width: nat) -> Option<Seq<Seq<Tone>>>
    decreases s.len() - pos,
{
    if pos < 0 {
        None
    } else if pos >= s.len() {
        Some(seq![])
    } else if width == 0 {
        None
    } else {
        match spec_parse_tones(s, pos, width) {
            Some((row, p)) => {
                proof {
                    lemma_parse_tones_advance(s, pos, width);
                }
                match spec_parse_rows(s, p, width) {
                    Some(rest) => Some(seq![row] + rest),
                    None => None,
                }
            },
            None => None,
        }
    }
}

/// The channel stored at `p` of `s`.
pub open spec fn spec_channel_at(s: Seq<u8>, p: int) -> InstrChannel {
    InstrChannel { id: (s[p] * 256 + s[p + 1]) as u16, volume: s[p + 2], enabled: s[p + 3] > 0 }
}

/// The song that the current-version bytes `s` hold, or `None` where they
/// are not a song file of the current version.
pub open spec fn spec_parse_song(s: Seq<u8>) -> Option<Song> {
    if s.len() < 4 || s[0] != FILE_VERSION {
        None
    } else {
        let w = s[1] as nat;
        if 4 + 4 * w > s.len() {
            None
        } else {
            match spec_parse_rows(s, (4 + 4 * w) as int, w) {
                Some(rows) => Some(
                    Song {
                        bps: s[2],
                        section_height: s[3],
                        notes: rows,
                        ic: Seq::new(w, |i: int| spec_channel_at(s, 4 + 4 * i)),
                    },
                ),
                None => None,
            }
        }
    }
}

/// The song that a file of any version holds, or `None` where the file is
/// not one.
pub open spec fn spec_deserialize(b: Seq<u8>) -> Option<Song> {
    if spec_upgrade_ok(b) {
        spec_parse_song(spec_upgrade(b))
    } else {
        None
    }
}

/// Reads the tone at `pos`, or `None` where the bytes run out.
fn read_tone(bytes: &[u8], pos: usize) -> (r: Option<(Tone, usize)>)
    ensures
        match r {
            Some((t, q)) => spec_parse_tone(bytes@, pos as int) == Some((t, q as int)),
            None => spec_parse_tone(bytes@, pos as int) is None,
        },
{
    if pos >= bytes.len() {
        None
    } else if bytes[pos] != 0 {
        if pos + 1 < bytes.len() {
            Some(Tone::deserialize(bytes, pos))
        } else {
            None
        }
    } else {
        Some(Tone::deserialize(bytes, pos))
    }
}

/// Reads a row of `width` tones at `pos`, or `None` where the bytes run out.
fn read_row(bytes: &[u8], pos: usize, width: usize) -> (r: Option<(Vec<Tone>, usize)>)
    ensures
        match r {
            Some((row, q)) => spec_parse_tones(bytes@, pos as int, width as nat) == Some(
                (row@, q as int),
            ),
            None => spec_parse_tones(bytes@, pos as int, width as nat) is None,
        },
{
    let mut row: Vec<Tone> = Vec::new();
    let mut p = pos;
    let mut x: usize = 0;
    while x < width
        invariant
            x <= width,
            spec_parse_tones(bytes@, pos as int, x as nat) == Some((row@, p as int)),
        decreases width - x,
    {
        match read_tone(bytes, p) {
            Some((t, q)) => {
                row.push(t);
                p = q;
            },
            None => {
                proof {
                    lemma_parse_tones_fail(bytes@, pos as int, (x + 1) as nat, width as nat);
                }
                return None;
            },
        }
        x = x + 1;
    }
    Some((row, p))
}

/// Reads a song from current-version bytes, or `None` where they are not a
/// song file of the current version.
pub fn parse_song(bytes: &[u8]) -> (r: Option<Music>)
    ensures
        match r {
            Some(m) => spec_parse_song(bytes@) == Some(m@),
            None => spec_parse_song(bytes@) is None,
        },
{
    if bytes.len() < 4 || bytes[0] != FILE_VERSION {
        return None;
    }
    let width = bytes[1] as usize;
    let bps = bytes[2];
    let section_height = bytes[3];
    if 4 + 4 * width > bytes.len() {
        return None;
    }
    let ghost s = bytes@;
    assert(s.len() >= 4 && s[0] == FILE_VERSION);
    let mut ic: Vec<InstrChannel> = Vec::new();
    let mut i: usize = 0;
    while i < width
        invariant
            s == bytes@,
            width == s[1],
            4 + 4 * width <= s.len(),
            i <= width,
            ic@ =~= Seq::new(i as nat, |k: int| spec_channel_at(s, 4 + 4 * k)),
        decreases width - i,
    {
        let p = 4 + 4 * i;
        let id = (bytes[p] as u16) * 256 + (bytes[p + 1] as u16);
        let volume = bytes[p + 2];
        let enabled = bytes[p + 3] > 0;
        ic.push(InstrChannel { id, volume, enabled });
        i = i + 1;
    }
    let start = 4 + 4 * width;
    let mut pos = start;
    let mut notes: Vec<Vec<Tone>> = Vec::new();
    while pos < bytes.len()
        invariant
            s == bytes@,
            s.len() >= 4,
            s[0] == FILE_VERSION,
            width == s[1],
            start == 4 + 4 * width,
            start <= pos <= s.len(),
            spec_parse_rows(s, start as int, width as nat) == match spec_parse_rows(s, pos as int, width as nat) {
                Some(rest) => Some(rows_view(notes@) + rest),
                None => None::<Seq<Seq<Tone>>>,
            },
        decreases s.len() - pos,
    {
        if width == 0 {
            assert(spec_parse_rows(s, pos as int, width as nat) is None);
            return None;
        }
        proof {
            lemma_parse_tones_advance(s, pos as int, width as nat);
        }
        match read_row(bytes, pos, width) {
            Some((row, q)) => {
                let ghost old_notes = notes@;
                notes.push(row);
                assert(rows_view(notes@) =~= rows_view(old_notes).push(row@));
                assert forall|rest: Seq<Seq<Tone>>| rows_view(old_notes) + (seq![row@] + rest) =~= rows_view(notes@) + rest by {}
                pos = q;
            },
            None => {
                return None;
            },
        }
    }
    assert(rows_view(notes@) + Seq::<Seq<Tone>>::empty() =~= rows_view(notes@));
    let m = Music { bps, section_height, notes, ic };
    assert(m@.ic =~= Seq::new(width as nat, |k: int| spec_channel_at(s, 4 + 4 * k)));
    Some(m)
}

impl Music {
    /// Reads a song file of version 0, 1 or 2.
    pub fn deserialize(bytes: Vec<u8>) -> (m: Self)
        requires
            spec_deserialize(bytes@) is Some,
        ensures
            spec_deserialize(bytes@) == Some(m@),
    {
        let bytes = upgrade(bytes);
        parse_song(bytes.as_slice()).unwrap()
    }

    /// Reads a song file of version 0, 1 or 2, or `None` where the bytes are
    /// not one: an unknown version, an older file without 14 channels, bytes
    /// that end inside the header, the channels or a row, or bytes after the
    /// header of a file without channels.
    pub fn try_deserialize(bytes: Vec<u8>) -> (r: Option<Self>)
        ensures
            match r {
                Some(m) => spec_deserialize(bytes@) == Some(m@),
                None => spec_deserialize(bytes@) is None,
            },
    {
        if !can_upgrade(bytes.as_slice()) {
            return None;
        }
        let bytes = upgrade(bytes);
        parse_song(bytes.as_slice())
    }
}

} // verus!
