# syb_tracker

A terminal music tracker. The library (`src/`) holds the verified core:

- `music`: notes, tones, channels and songs; the song file format
  (`serialize`, `deserialize`, `try_deserialize`) and note editing.
- `upgrade`: bringing files of format versions 0 and 1 to version 2.
- `roundtrip`: the proofs that a stored song reads back as itself, and that
  a canonical file is the only file of its song.
- `editor`: cursor, scrolling, key handling and playback decisions.
- `screen`: the text drawn for the editor.
- `instrument`, `wav`: instrument ids, and the WAV file header.

`app/` is the program around it: terminal input, audio output through
rodio, the synthesizer waveforms, file saving and WAV export.
