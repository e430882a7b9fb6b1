//! What a song file gives back: reading a stored song yields the song.
use vstd::prelude::*;
use crate::music::{
    lemma_parse_tones_advance, spec_channel_at, spec_channel_bytes, spec_channels_bytes,
    spec_deserialize, spec_parse_rows, spec_parse_song,
    spec_parse_tone, spec_parse_tones, spec_rows_bytes, spec_serialize, spec_tone_bytes,
    spec_tones_bytes, InstrChannel, Song, Tone,
};
use crate::upgrade::{spec_upgrade, FILE_VERSION};

verus! {

/// A tone survives storage: an empty cell, or a note whose pitch byte is
/// not 0 (0 marks the empty cell) and whose octave fits in seven bits.
pub open spec fn tone_is_storable(t: Tone) -> bool {
    match t.note {
        Some(n) => n.note != 0 && n.octave < 128,
        None => true,
    }
}

/// A song survives storage: at most 255 channels (the count is one byte),
/// rows only where there are channels, every row exactly one tone per
/// channel, and every tone storable.
pub open spec fn song_is_storable(m: Song) -> bool {
    &&& m.ic.len() <= 255
    &&& m.ic.len() == 0 ==> m.notes.len() == 0
    &&& forall|y: int| 0 <= y < m.notes.len() ==> #[trigger] m.notes[y].len() == m.ic.len()
    &&& forall|y: int, x: int|
        0 <= y < m.notes.len() && 0 <= x < m.notes[y].len() ==> tone_is_storable(
            #[trigger] m.notes[y][x],
        )
}

proof fn lemma_parse_stored_tone(s: Seq<u8>, p: int, t: Tone)
    requires
        tone_is_storable(t),
        0 <= p,
        p + spec_tone_bytes(t).len() <= s.len(),
        s.subrange(p, p + spec_tone_bytes(t).len()) == spec_tone_bytes(t),
    ensures
        spec_parse_tone(s, p) == Some((t, p + spec_tone_bytes(t).len())),
{
    let b = spec_tone_bytes(t);
    assert(s[p] == b[0]) by {
        assert(s.subrange(p, p + b.len())[0] == s[p]);
    }
    match t.note {
        None => {},
        Some(n) => {
            assert(s[p + 1] == b[1]) by {
                assert(s.subrange(p, p + b.len())[1] == s[p + 1]);
            }
            let o = n.octave;
            if n.short {
                assert((o | 0x80u8) & 0x7fu8 == o && (o | 0x80u8) & 0x80u8 > 0) by (bit_vector)
                    requires
                        o < 128,
                ;
            } else {
                assert((o | 0u8) & 0x7fu8 == o && !((o | 0u8) & 0x80u8 > 0)) by (bit_vector)
                    requires
                        o < 128,
                ;
            }
        },
    }
}

proof fn lemma_split(s: Seq<u8>, p: int, a: Seq<u8>, b: Seq<u8>)
    requires
        0 <= p,
        p + a.len() + b.len() <= s.len(),
        s.subrange(p, p + a.len() + b.len()) == a + b,
    ensures
        s.subrange(p, p + a.len()) == a,
        s.subrange(p + a.len(), p + a.len() + b.len()) == b,
{
    let whole = s.subrange(p, p + a.len() + b.len());
    assert forall|i: int| 0 <= i < a.len() implies #[trigger] s.subrange(p, p + a.len())[i] == a[i] by {
        assert(whole[i] == s[p + i]);
        assert((a + b)[i] == a[i]);
    }
    assert forall|i: int| 0 <= i < b.len() implies #[trigger] s.subrange(
        p + a.len(),
        p + a.len() + b.len(),
    )[i] == b[i] by {
        assert(whole[a.len() + i] == s[p + a.len() + i]);
        assert((a + b)[a.len() + i] == b[i]);
    }
    assert(s.subrange(p, p + a.len()) =~= a);
    assert(s.subrange(p + a.len(), p + a.len() + b.len()) =~= b);
}

proof fn lemma_tones_bytes_len(ts: Seq<Tone>)
    ensures
        spec_tones_bytes(ts).len() >= ts.len(),
    decreases ts.len(),
{
    if ts.len() > 0 {
        lemma_tones_bytes_len(ts.drop_last());
    }
}

proof fn lemma_parse_stored_tones(s: Seq<u8>, p: int, ts: Seq<Tone>)
    requires
        forall|i: int| 0 <= i < ts.len() ==> tone_is_storable(#[trigger] ts[i]),
        0 <= p,
        p + spec_tones_bytes(ts).len() <= s.len(),
        s.subrange(p, p + spec_tones_bytes(ts).len()) == spec_tones_bytes(ts),
    ensures
        spec_parse_tones(s, p, ts.len()) == Some((ts, p + spec_tones_bytes(ts).len())),
    decreases ts.len(),
{
    if ts.len() > 0 {
        let front = ts.drop_last();
        let a = spec_tones_bytes(front);
        let b = spec_tone_bytes(ts.last());
        assert(spec_tones_bytes(ts) == a + b);
        lemma_split(s, p, a, b);
        assert(forall|i: int| 0 <= i < front.len() ==> #[trigger] front[i] == ts[i]);
        lemma_parse_stored_tones(s, p, front);
        lemma_parse_stored_tone(s, p + a.len(), ts.last());
        assert(front.push(ts.last()) =~= ts);
    }
}

proof fn lemma_rows_bytes_front(rs: Seq<Seq<Tone>>, w: nat)
    requires
        rs.len() > 0,
    ensures
        spec_rows_bytes(rs, w) == spec_tones_bytes(rs[0].take(w as int)) + spec_rows_bytes(
            rs.drop_first(),
            w,
        ),
    decreases rs.len(),
{
    if rs.len() == 1 {
        assert(spec_rows_bytes(rs.drop_last(), w) == Seq::<u8>::empty());
        assert(spec_rows_bytes(rs.drop_first(), w) == Seq::<u8>::empty());
        assert(rs.last() == rs[0]);
        assert(spec_rows_bytes(rs, w) =~= spec_tones_bytes(rs[0].take(w as int)));
    } else {
        let front = rs.drop_last();
        lemma_rows_bytes_front(front, w);
        assert(front.drop_first() =~= rs.drop_first().drop_last());
        assert(rs.drop_first().last() == rs.last());
        assert(front[0] == rs[0]);
        assert(spec_rows_bytes(rs, w) =~= spec_tones_bytes(rs[0].take(w as int))
            + spec_rows_bytes(rs.drop_first(), w));
    }
}

proof fn lemma_parse_stored_rows(s: Seq<u8>, p: int, rs: Seq<Seq<Tone>>, w: nat)
    requires
        w > 0 || rs.len() == 0,
        forall|y: int| 0 <= y < rs.len() ==> #[trigger] rs[y].len() == w,
        forall|y: int, x: int|
            0 <= y < rs.len() && 0 <= x < rs[y].len() ==> tone_is_storable(#[trigger] rs[y][x]),
        0 <= p <= s.len(),
        s.subrange(p, s.len() as int) == spec_rows_bytes(rs, w),
    ensures
        spec_parse_rows(s, p, w) == Some(rs),
    decreases rs.len(),
{
    if rs.len() == 0 {
        assert(s.subrange(p, s.len() as int).len() == 0);
        assert(rs =~= Seq::<Seq<Tone>>::empty());
    } else {
        let row = rs[0];
        let rest = rs.drop_first();
        lemma_rows_bytes_front(rs, w);
        assert(row.take(w as int) =~= row);
        let a = spec_tones_bytes(row);
        let b = spec_rows_bytes(rest, w);
        lemma_tones_bytes_len(row);
        assert(spec_rows_bytes(rs, w) == a + b);
        assert(rs[0].len() == w);
        assert(s.subrange(p, s.len() as int).len() == s.len() - p);
        assert((a + b).len() == a.len() + b.len());
        assert(p < s.len());
        lemma_split(s, p, a, b);
        assert(forall|x: int| 0 <= x < row.len() ==> tone_is_storable(#[trigger] row[x])) by {
            assert(forall|x: int| 0 <= x < row.len() ==> #[trigger] row[x] == rs[0][x]);
        }
        lemma_parse_stored_tones(s, p, row);
        assert(p + a.len() + b.len() == s.len());
        assert forall|y: int| 0 <= y < rest.len() implies #[trigger] rest[y].len() == w by {
            assert(rest[y] == rs[y + 1]);
        }
        assert forall|y: int, x: int|
            0 <= y < rest.len() && 0 <= x < rest[y].len() implies tone_is_storable(
                #[trigger] rest[y][x],
            ) by {
            assert(rest[y] == rs[y + 1]);
        }
        lemma_parse_stored_rows(s, p + a.len(), rest, w);
        assert(seq![row] + rest =~= rs);
    }
}

proof fn lemma_channels_bytes(cs: Seq<InstrChannel>)
    ensures
        spec_channels_bytes(cs).len() == 4 * cs.len(),
        forall|i: int, k: int|
            0 <= i < cs.len() && 0 <= k < 4 ==> #[trigger] spec_channels_bytes(cs)[4 * i + k]
                == spec_channel_bytes(cs[i])[k],
    decreases cs.len(),
{
    if cs.len() > 0 {
        let front = cs.drop_last();
        lemma_channels_bytes(front);
        assert forall|i: int, k: int| 0 <= i < cs.len() && 0 <= k < 4 implies #[trigger] spec_channels_bytes(cs)[4 * i + k]
            == spec_channel_bytes(cs[i])[k] by {
            if i < cs.len() - 1 {
                assert(front[i] == cs[i]);
                assert(spec_channels_bytes(front)[4 * i + k] == spec_channel_bytes(front[i])[k]);
            }
        }
    }
}

proof fn lemma_channel_stored(c: InstrChannel)
    ensures
        ({
            let b = spec_channel_bytes(c);
            (b[0] * 256 + b[1]) as u16 == c.id && b[2] == c.volume && (b[3] > 0) == c.enabled
        }),
{
    let id = c.id;
    assert(((id / 256) as u8) * 256 + ((id % 256) as u8) == id) by (nonlinear_arith);
}

/// Reading back a stored song gives the song: for every storable song `m`,
/// the file that `serialize` writes for `m` is read by `deserialize` as `m`.
pub proof fn lemma_serialize_deserialize(m: Song)
    requires
        song_is_storable(m),
    ensures
        spec_deserialize(spec_serialize(m)) == Some(m),
{
    let w = m.ic.len();
    let h = seq![FILE_VERSION, w as u8, m.bps, m.section_height];
    let c = spec_channels_bytes(m.ic);
    let r = spec_rows_bytes(m.notes, w);
    let s = spec_serialize(m);
    assert(s == h + c + r);
    lemma_channels_bytes(m.ic);
    assert(s[0] == FILE_VERSION);
    assert(s[1] == w);
    assert(s[2] == m.bps && s[3] == m.section_height);
    assert(4 + 4 * w <= s.len());
    let ic = Seq::new(w, |i: int| spec_channel_at(s, 4 + 4 * i));
    assert forall|i: int| 0 <= i < w implies #[trigger] ic[i] == m.ic[i] by {
        lemma_channel_stored(m.ic[i]);
        assert(s[4 + 4 * i] == c[4 * i + 0]);
        assert(s[4 + 4 * i + 1] == c[4 * i + 1]);
        assert(s[4 + 4 * i + 2] == c[4 * i + 2]);
        assert(s[4 + 4 * i + 3] == c[4 * i + 3]);
    }
    assert(ic =~= m.ic);
    assert(s.subrange((4 + 4 * w) as int, s.len() as int) =~= r);
    lemma_parse_stored_rows(s, (4 + 4 * w) as int, m.notes, w);
}


proof fn lemma_parsed_tone_bytes(s: Seq<u8>, p: int)
    requires
        spec_parse_tone(s, p) is Some,
    ensures
        ({
            let (t, q) = spec_parse_tone(s, p).unwrap();
            q == p + spec_tone_bytes(t).len() && q <= s.len() && s.subrange(p, q) == spec_tone_bytes(t)
        }),
{
    let (t, q) = spec_parse_tone(s, p).unwrap();
    if s[p] != 0 {
        let d = s[p + 1];
        assert(((d & 0x7fu8) | (if d & 0x80u8 > 0 { 0x80u8 } else { 0u8 })) == d) by (bit_vector);
        assert(s.subrange(p, q) =~= spec_tone_bytes(t));
    } else {
        assert(s.subrange(p, q) =~= spec_tone_bytes(t));
    }
}

proof fn lemma_parsed_tones_bytes(s: Seq<u8>, p: int, n: nat)
    requires
        0 <= p <= s.len(),
        spec_parse_tones(s, p, n) is Some,
    ensures
        ({
            let (ts, q) = spec_parse_tones(s, p, n).unwrap();
            &&& ts.len() == n
            &&& p <= q <= s.len()
            &&& s.subrange(p, q) == spec_tones_bytes(ts)
        }),
    decreases n,
{
    if n == 0 {
        assert(s.subrange(p, p) =~= Seq::<u8>::empty());
    } else {
        lemma_parsed_tones_bytes(s, p, (n - 1) as nat);
        let (front, m) = spec_parse_tones(s, p, (n - 1) as nat).unwrap();
        lemma_parsed_tone_bytes(s, m);
        let (t, q) = spec_parse_tone(s, m).unwrap();
        let ts = front.push(t);
        assert(ts.drop_last() =~= front);
        assert(s.subrange(p, q) =~= s.subrange(p, m) + s.subrange(m, q));
    }
}

proof fn lemma_parsed_rows_bytes(s: Seq<u8>, p: int, w: nat)
    requires
        0 <= p <= s.len(),
        spec_parse_rows(s, p, w) is Some,
    ensures
        s.subrange(p, s.len() as int) == spec_rows_bytes(spec_parse_rows(s, p, w).unwrap(), w),
        forall|y: int|
            0 <= y < spec_parse_rows(s, p, w).unwrap().len() ==> #[trigger] spec_parse_rows(
                s,
                p,
                w,
            ).unwrap()[y].len() == w,
    decreases s.len() - p,
{
    let rows = spec_parse_rows(s, p, w).unwrap();
    if p >= s.len() {
        assert(s.subrange(p, s.len() as int) =~= Seq::<u8>::empty());
    } else {
        lemma_parsed_tones_bytes(s, p, w);
        let (row, q) = spec_parse_tones(s, p, w).unwrap();
        lemma_parse_tones_advance(s, p, w);
        lemma_parsed_rows_bytes(s, q, w);
        let rest = spec_parse_rows(s, q, w).unwrap();
        assert(rows == seq![row] + rest);
        assert(rows[0] == row);
        assert(rows.drop_first() =~= rest);
        lemma_rows_bytes_front(rows, w);
        assert(row.take(w as int) =~= row);
        assert(s.subrange(p, s.len() as int) =~= s.subrange(p, q) + s.subrange(q, s.len() as int));
        assert forall|y: int| 0 <= y < rows.len() implies #[trigger] rows[y].len() == w by {
            if y > 0 {
                assert(rows[y] == rest[y - 1]);
            }
        }
    }
}

/// Every channel of a current-version file stores its enabled flag as 0 or 1.
pub open spec fn channel_flags_canonical(s: Seq<u8>) -> bool {
    forall|i: int| 0 <= i < s[1] ==> #[trigger] s[4 + 4 * i + 3] <= 1
}

/// The current-version bytes `s` with each channel's enabled flag written
/// as 1 where it is not 0.
pub open spec fn normalise_flags(s: Seq<u8>) -> Seq<u8> {
    Seq::new(
        s.len(),
        |j: int|
            if 4 <= j < 4 + 4 * (s[1] as int) && (j - 4) % 4 == 3 {
                if s[j] > 0 { 1u8 } else { 0u8 }
            } else {
                s[j]
            },
    )
}

/// Writing a read song gives back its file, with every enabled flag above 1
/// written as 1: for current-version bytes `s` that hold a song, the file
/// that `serialize` writes for it is `normalise_flags(s)`.
pub proof fn lemma_parse_serialize(s: Seq<u8>)
    requires
        spec_parse_song(s) is Some,
    ensures
        spec_serialize(spec_parse_song(s).unwrap()) == normalise_flags(s),
{
    let m = spec_parse_song(s).unwrap();
    let w = s[1] as nat;
    let start = (4 + 4 * w) as int;
    let n = normalise_flags(s);
    lemma_parsed_rows_bytes(s, start, w);
    lemma_channels_bytes(m.ic);
    let c = spec_channels_bytes(m.ic);
    assert forall|j: int| 0 <= j < c.len() implies #[trigger] c[j] == n[4 + j] by {
        let i = j / 4;
        let k = j % 4;
        assert(j == 4 * i + k);
        let id = m.ic[i].id;
        let hi = s[4 + 4 * i];
        let lo = s[4 + 4 * i + 1];
        assert(id == (hi * 256 + lo) as u16);
        assert((((hi * 256 + lo) as u16) / 256) as u8 == hi && (((hi * 256 + lo) as u16) % 256) as u8
            == lo) by (nonlinear_arith);
        assert(c[4 * i + k] == spec_channel_bytes(m.ic[i])[k]);
        assert((4 + j - 4) % 4 == k);
    }
    assert(n =~= seq![FILE_VERSION, s[1], s[2], s[3]] + c + s.subrange(start, s.len() as int));
}

/// Writing the song read from a file of any version gives back the file
/// brought to the current version, with every enabled flag above 1 written
/// as 1.
pub proof fn lemma_deserialize_serialize_any_version(b: Seq<u8>)
    requires
        spec_deserialize(b) is Some,
    ensures
        spec_serialize(spec_deserialize(b).unwrap()) == normalise_flags(spec_upgrade(b)),
{
    lemma_parse_serialize(spec_upgrade(b));
}

/// A file is the only file of its song: when current-version bytes `s` hold
/// a song and store each enabled flag as 0 or 1, writing that song gives `s`
/// back.
pub proof fn lemma_deserialize_serialize(s: Seq<u8>)
    requires
        spec_parse_song(s) is Some,
        channel_flags_canonical(s),
    ensures
        spec_serialize(spec_parse_song(s).unwrap()) == s,
{
    lemma_parse_serialize(s);
    assert forall|j: int| 0 <= j < s.len() implies #[trigger] normalise_flags(s)[j] == s[j] by {
        if 4 <= j < 4 + 4 * (s[1] as int) && (j - 4) % 4 == 3 {
            let i = (j - 4) / 4;
            assert(j == 4 + 4 * i + 3);
            assert(s[4 + 4 * i + 3] <= 1);
        }
    }
    assert(normalise_flags(s) =~= s);
}

} // verus!
