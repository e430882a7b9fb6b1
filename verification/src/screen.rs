//! The editor screen: a header of channel names, then one line per visible
//! row with its number, its cells and a scroll bar.
use vstd::prelude::*;
use crate::editor::{Editor, EditorState, CHANNEL_COUNT};
use crate::music::{spec_tone_text, tone_is_renderable, Tone};
use crate::instrument::{spec_instrument_kind, spec_instrument_name};
use crate::upgrade::{lemma_upgraded_channel_table, upgraded_channel_table};

verus! {

/// The name shown above channel `x` of the synthesizer: six sines, then
/// square and saw twice, then four triangles.
pub open spec fn spec_channel_label(x: int) -> &'static str {
    if x < 6 {
        "SIN"
    } else if x == 6 || x == 8 {
        "SQR"
    } else if x == 7 || x == 9 {
        "SAW"
    } else {
        "TRI"
    }
}

/// The name above each of the synthesizer's channels is the name of the
/// instrument that the standard channel table (the one that upgraded files
/// receive) gives that channel.
pub proof fn lemma_channel_labels_name_instruments(x: int)
    requires
        0 <= x < CHANNEL_COUNT,
    ensures
        upgraded_channel_table()[4 * x] == 0,
        spec_instrument_kind(upgraded_channel_table()[4 * x + 1] as u16) is Some,
        spec_channel_label(x)@ == spec_instrument_name(
            spec_instrument_kind(upgraded_channel_table()[4 * x + 1] as u16).unwrap(),
        )@,
{
    lemma_upgraded_channel_table();
}

/// The decimal digit `d` (0 ..= 9).
pub open spec fn spec_digit(d: int) -> &'static str {
    if d == 0 { "0" }
    else if d == 1 { "1" }
    else if d == 2 { "2" }
    else if d == 3 { "3" }
    else if d == 4 { "4" }
    else if d == 5 { "5" }
    else if d == 6 { "6" }
    else if d == 7 { "7" }
    else if d == 8 { "8" }
    else { "9" }
}

/// Each digit is drawn as the character of its value.
pub proof fn lemma_digit_chars(d: int)
    requires
        0 <= d < 10,
    ensures
        spec_digit(d)@ == seq![(48 + d) as char],
{
    reveal_strlit("0");
    reveal_strlit("1");
    reveal_strlit("2");
    reveal_strlit("3");
    reveal_strlit("4");
    reveal_strlit("5");
    reveal_strlit("6");
    reveal_strlit("7");
    reveal_strlit("8");
    reveal_strlit("9");
}

/// `n` in decimal, without leading zeros.
pub open spec fn spec_decimal(n: nat) -> Seq<char>
    decreases n,
{
    if n < 10 {
        spec_digit(n as int)@
    } else {
        spec_decimal(n / 10) + spec_digit((n % 10) as int)@
    }
}

/// `n` in decimal, padded with zeros to at least three digits.
pub open spec fn spec_row_number(n: nat) -> Seq<char> {
    if n < 10 {
        "00"@ + spec_decimal(n)
    } else if n < 100 {
        "0"@ + spec_decimal(n)
    } else {
        spec_decimal(n)
    }
}

/// Row numbers below 1000 are drawn as exactly three digits: hundreds, tens
/// and ones.
pub proof fn lemma_row_number_digits(n: nat)
    requires
        n < 1000,
    ensures
        spec_row_number(n) == seq![
            (48 + n / 100) as char,
            (48 + n / 10 % 10) as char,
            (48 + n % 10) as char,
        ],
{
    lemma_digit_chars((n % 10) as int);
    lemma_digit_chars((n / 10 % 10) as int);
    lemma_digit_chars((n / 100) as int);
    reveal_strlit("00");
    reveal_strlit("0");
    if n >= 100 {
        assert(n / 10 / 10 == n / 100);
        assert(n / 10 >= 10 && n / 10 / 10 < 10);
        assert(spec_decimal(n / 10 / 10) == spec_digit((n / 100) as int)@);
        assert(spec_decimal(n / 10) == spec_decimal(n / 10 / 10) + spec_digit(((n / 10) % 10) as int)@);
        assert(spec_row_number(n) =~= seq![
            (48 + n / 100) as char,
            (48 + n / 10 % 10) as char,
            (48 + n % 10) as char,
        ]);
    } else if n >= 10 {
        assert(n / 100 == 0 && n / 10 < 10);
        assert(spec_decimal(n / 10) == spec_digit((n / 10) as int)@);
        assert(spec_row_number(n) =~= seq![
            (48 + n / 100) as char,
            (48 + n / 10 % 10) as char,
            (48 + n % 10) as char,
        ]);
    } else {
        assert(spec_row_number(n) =~= seq![
            (48 + n / 100) as char,
            (48 + n / 10 % 10) as char,
            (48 + n % 10) as char,
        ]);
    }
}

/// The header cells of the first `n` channels.
pub open spec fn header_cells(n: nat) -> Seq<char>
    decreases n,
{
    if n == 0 {
        seq![]
    } else {
        header_cells((n - 1) as nat) + " \x1b[1;32m"@ + spec_channel_label(n - 1)@ + "\x1b[0m "@
    }
}

/// Whether the cell in channel `x` of row `y` has the lighter background:
/// channels alternate, and the pattern flips with each section.
pub open spec fn shaded(x: int, y: int, section_height: int) -> bool {
    x % 2 == (y / section_height) % 2
}

/// The drawn cell in channel `x` of row `y`: highlighted under the cursor,
/// otherwise on an alternating background that is darker in the played row.
pub open spec fn cell_text(e: EditorState, x: int, y: int) -> Seq<char> {
    let t = spec_tone_text(e.song.notes[y][x]);
    if x == e.cursor.0 && y == e.cursor.1 {
        "\x1b[48;5;240m "@ + t + " \x1b[0m"@
    } else {
        let light = shaded(x, y, e.song.section_height as int);
        let bg = if y == e.play_cursor {
            if light { "\x1b[48;5;236m" } else { "\x1b[48;5;237m" }
        } else {
            if light { "\x1b[48;5;237m" } else { "\x1b[48;5;238m" }
        };
        bg@ + " "@ + t + " \x1b[0m"@
    }
}

/// The first `n` drawn cells of row `y`.
pub open spec fn row_cells(e: EditorState, y: int, n: nat) -> Seq<char>
    decreases n,
{
    if n == 0 {
        seq![]
    } else {
        row_cells(e, y, (n - 1) as nat) + cell_text(e, n - 1, y)
    }
}

/// `n` blank cells, drawn below the last row.
pub open spec fn blank_cells(n: nat) -> Seq<char>
    decreases n,
{
    if n == 0 {
        seq![]
    } else {
        blank_cells((n - 1) as nat) + "      "@
    }
}

/// The drawn line of row `y`: its number (highlighted in the played row),
/// its cells or blanks past the last row, and the scroll bar, which is
/// solid on the `bar_height` lines from line `bar_top` of the window.
pub open spec fn screen_line(e: EditorState, y: int, bar_top: int, bar_height: int) -> Seq<char> {
    let number = if y == e.play_cursor {
        " \x1b[48;5;237m"@ + spec_row_number(y as nat) + "\x1b[0m │ "@
    } else {
        " "@ + spec_row_number(y as nat) + " │ "@
    };
    let cells = if y >= e.song.notes.len() {
        blank_cells(e.song.ic.len())
    } else {
        row_cells(e, y, e.song.ic.len())
    };
    let a = y - e.viewport;
    let bar = if bar_top <= a < bar_top + bar_height { " █"@ } else { " ║"@ };
    number + cells + bar + "\n"@
}

/// The first `n` lines of the window.
pub open spec fn screen_lines(e: EditorState, n: nat, bar_top: int, bar_height: int) -> Seq<char>
    decreases n,
{
    if n == 0 {
        seq![]
    } else {
        screen_lines(e, (n - 1) as nat, bar_top, bar_height) + screen_line(
            e,
            e.viewport + n - 1,
            bar_top,
            bar_height,
        )
    }
}

/// The whole screen: the channel names, then the window's lines.
pub open spec fn spec_screen(e: EditorState, bar_top: int, bar_height: int) -> Seq<char> {
    "       "@ + header_cells(e.song.ic.len()) + "\n"@ + screen_lines(
        e,
        e.viewport_height as nat,
        bar_top,
        bar_height,
    )
}

/// The screen can be drawn: at most one name per synthesizer channel, and
/// every visible row holds a drawable tone for each channel, with a section
/// height to shade by.
pub open spec fn can_render(e: EditorState) -> bool {
    &&& e.song.ic.len() <= CHANNEL_COUNT
    &&& e.viewport >= 0
    &&& e.viewport + e.viewport_height <= i32::MAX
    &&& e.viewport_height >= 0
    &&& forall|y: int|
        e.viewport <= y < e.viewport + e.viewport_height && y < e.song.notes.len() ==> {
            &&& #[trigger] e.song.notes[y].len() >= e.song.ic.len()
            &&& e.song.ic.len() > 0 ==> e.song.section_height > 0
            &&& forall|x: int|
                0 <= x < e.song.ic.len() ==> tone_is_renderable(#[trigger] e.song.notes[y][x])
        }
}

fn digit(d: usize) -> (r: &'static str)
    requires
        d < 10,
    ensures
        r@ == spec_digit(d as int)@,
{
    match d {
        0 => "0",
        1 => "1",
        2 => "2",
        3 => "3",
        4 => "4",
        5 => "5",
        6 => "6",
        7 => "7",
        8 => "8",
        _ => "9",
    }
}

fn push_decimal(out: &mut String, n: usize)
    ensures
        final(out)@ == old(out)@ + spec_decimal(n as nat),
    decreases n,
{
    if n < 10 {
        out.append(digit(n));
    } else {
        push_decimal(out, n / 10);
        out.append(digit(n % 10));
        assert(out@ =~= old(out)@ + spec_decimal(n as nat));
    }
}


fn push_row_number(out: &mut String, n: usize)
    ensures
        final(out)@ == old(out)@ + spec_row_number(n as nat),
{
    if n < 10 {
        out.append("00");
    } else if n < 100 {
        out.append("0");
    }
    push_decimal(out, n);
    assert(out@ =~= old(out)@ + spec_row_number(n as nat));
}

fn channel_label(x: usize) -> (r: &'static str)
    ensures
        r@ == spec_channel_label(x as int)@,
{
    if x < 6 {
        "SIN"
    } else if x == 6 || x == 8 {
        "SQR"
    } else if x == 7 || x == 9 {
        "SAW"
    } else {
        "TRI"
    }
}

impl Editor {
    /// Appends the drawn cell in channel `x` of row `y`.
    fn push_cell(&self, out: &mut String, x: usize, y: usize)
        requires
            y < self@.song.notes.len(),
            x < self@.song.notes[y as int].len(),
            x < CHANNEL_COUNT,
            y <= i32::MAX,
            tone_is_renderable(self@.song.notes[y as int][x as int]),
            self@.song.section_height > 0,
        ensures
            final(out)@ == old(out)@ + cell_text(self@, x as int, y as int),
    {
        let t: Tone = *self.music.at(x, y);
        let note = t.render();
        let light = x % 2 == y / (self.music.section_height as usize) % 2;
        if x as i32 == self.cursor.0 && y as i32 == self.cursor.1 {
            out.append("\x1b[48;5;240m ");
        } else if y as i32 == self.play_cursor {
            if light {
                out.append("\x1b[48;5;236m");
            } else {
                out.append("\x1b[48;5;237m");
            }
            out.append(" ");
        } else {
            if light {
                out.append("\x1b[48;5;237m");
            } else {
                out.append("\x1b[48;5;238m");
            }
            out.append(" ");
        }
        out.append(note.as_str());
        out.append(" \x1b[0m");
        assert(out@ =~= old(out)@ + cell_text(self@, x as int, y as int));
    }

    /// Appends the drawn line of row `y`.
    fn push_line(&self, out: &mut String, y: usize, bar_top: usize, bar_height: usize)
        requires
            can_render(self@),
            self.viewport <= y < self.viewport + self.viewport_height,
        ensures
            final(out)@ == old(out)@ + screen_line(self@, y as int, bar_top as int, bar_height as int),
    {
        let ghost start = out@;
        let width = self.music.ic.len();
        if y as i32 == self.play_cursor {
            out.append(" \x1b[48;5;237m");
            push_row_number(out, y);
            out.append("\x1b[0m │ ");
        } else {
            out.append(" ");
            push_row_number(out, y);
            out.append(" │ ");
        }
        let ghost numbered = out@;
        if y >= self.music.notes.len() {
            let mut x: usize = 0;
            while x < width
                invariant
                    x <= width,
                    width == self@.song.ic.len(),
                    out@ == numbered + blank_cells(x as nat),
                decreases width - x,
            {
                out.append("      ");
                x = x + 1;
            }
        } else {
            assert(self@.song.notes[y as int].len() >= width);
            let mut x: usize = 0;
            while x < width
                invariant
                    x <= width,
                    width == self@.song.ic.len(),
                    width <= CHANNEL_COUNT,
                    can_render(self@),
                    self.viewport <= y < self.viewport + self.viewport_height,
                    y < self@.song.notes.len(),
                    self@.song.notes[y as int].len() >= width,
                    out@ == numbered + row_cells(self@, y as int, x as nat),
                decreases width - x,
            {
                assert(tone_is_renderable(self@.song.notes[y as int][x as int]));
                self.push_cell(out, x, y);
                x = x + 1;
            }
        }
        let a = y - self.viewport as usize;
        if a >= bar_top && a - bar_top < bar_height {
            out.append(" █");
        } else {
            out.append(" ║");
        }
        out.append("\n");
        assert(out@ =~= start + screen_line(self@, y as int, bar_top as int, bar_height as int));
    }

    /// Whether `render` can draw the screen now.
    pub fn screen_is_drawable(&self) -> (r: bool)
        ensures
            r == can_render(self@),
    {
        let width = self.music.ic.len();
        if width > CHANNEL_COUNT || self.viewport < 0 || self.viewport_height < 0
            || self.viewport > i32::MAX - self.viewport_height {
            return false;
        }
        let first = self.viewport as usize;
        let end = (self.viewport + self.viewport_height) as usize;
        let rows = self.music.notes.len();
        let mut y = first;
        while y < end
            invariant
                width == self@.song.ic.len(),
                width <= CHANNEL_COUNT,
                rows == self@.song.notes.len(),
                self.viewport >= 0,
                self.viewport_height >= 0,
                self.viewport + self.viewport_height <= i32::MAX,
                first == self.viewport,
                end == self.viewport + self.viewport_height,
                first <= y <= end,
                forall|k: int|
                    self.viewport <= k < y && k < rows ==> {
                        &&& #[trigger] self@.song.notes[k].len() >= width
                        &&& width > 0 ==> self@.song.section_height > 0
                        &&& forall|x: int|
                            0 <= x < width ==> tone_is_renderable(#[trigger] self@.song.notes[k][x])
                    },
            decreases end - y,
        {
            if y < rows {
                let row = &self.music.notes[y];
                if row.len() < width || (width > 0 && self.music.section_height == 0) {
                    assert(!(self@.song.notes[y as int].len() >= width && (width > 0
                        ==> self@.song.section_height > 0)));
                    return false;
                }
                let mut x: usize = 0;
                while x < width
                    invariant
                        x <= width,
                        width <= row@.len(),
                        y < self@.song.notes.len(),
                        self.viewport <= y < self.viewport + self.viewport_height,
                        width == self@.song.ic.len(),
                        row@ == self@.song.notes[y as int],
                        forall|j: int| 0 <= j < x ==> tone_is_renderable(#[trigger] row@[j]),
                    decreases width - x,
                {
                    if let Some(n) = row[x].note {
                        if !(n.note >= 1 && n.note <= 12 && n.octave <= 9) {
                            assert(!tone_is_renderable(self@.song.notes[y as int][x as int]));
                            return false;
                        }
                    }
                    x = x + 1;
                }
            }
            y = y + 1;
        }
        true
    }

    /// The whole editor screen, with the scroll bar solid on the
    /// `bar_height` lines from line `bar_top` of the window.
    pub fn render(&self, bar_top: usize, bar_height: usize) -> (r: String)
        requires
            can_render(self@),
        ensures
            r@ == spec_screen(self@, bar_top as int, bar_height as int),
    {
        let mut out = String::new();
        out.append("       ");
        let width = self.music.ic.len();
        let mut x: usize = 0;
        while x < width
            invariant
                x <= width,
                width == self@.song.ic.len(),
                out@ == "       "@ + header_cells(x as nat),
            decreases width - x,
        {
            out.append(" \x1b[1;32m");
            out.append(channel_label(x));
            out.append("\x1b[0m ");
            x = x + 1;
        }
        out.append("\n");
        let ghost header = out@;
        let first = self.viewport as usize;
        let end = (self.viewport + self.viewport_height) as usize;
        let mut y = first;
        while y < end
            invariant
                can_render(self@),
                first == self.viewport,
                end == self.viewport + self.viewport_height,
                first <= y <= end,
                out@ == header + screen_lines(self@, (y - first) as nat, bar_top as int, bar_height as int),
            decreases end - y,
        {
            self.push_line(&mut out, y, bar_top, bar_height);
            y = y + 1;
        }
        out
    }
}

} // verus!
