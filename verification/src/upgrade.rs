use vstd::prelude::*;

verus! {

/// The version byte of the current file format.
pub const FILE_VERSION: u8 = 2;

/// `s` repeated `n` times.
pub open spec fn repeat_bytes(s: Seq<u8>, n: nat) -> Seq<u8>
    decreases n,
{
    if n == 0 {
        seq![]
    } else {
        repeat_bytes(s, (n - 1) as nat) + s
    }
}

/// The stored instrument channels that format 2 added to format-1 files:
/// six sines at full volume, two square/saw pairs at volume 74 and four
/// triangles at volume 191, all enabled (each: id high, id low, volume, enabled).
pub open spec fn upgraded_channel_table() -> Seq<u8> {
    repeat_bytes(seq![0u8, 1, 255, 1], 6) + repeat_bytes(seq![0u8, 2, 74, 1, 0, 3, 74, 1], 2)
        + repeat_bytes(seq![0u8, 4, 191, 1], 4)
}

/// The channel table spelled out: for channel `x`, bytes `4x ..= 4x + 3`
/// are the id (high byte 0), the volume and the enabled flag 1.
pub proof fn lemma_upgraded_channel_table()
    ensures
        upgraded_channel_table() == seq![
            0u8, 1, 255, 1, 0, 1, 255, 1, 0, 1, 255, 1, 0, 1, 255, 1, 0, 1, 255, 1, 0, 1, 255, 1,
            0, 2, 74, 1, 0, 3, 74, 1, 0, 2, 74, 1, 0, 3, 74, 1,
            0, 4, 191, 1, 0, 4, 191, 1, 0, 4, 191, 1, 0, 4, 191, 1,
        ],
{
    reveal_with_fuel(repeat_bytes, 7);
    assert(upgraded_channel_table() =~= seq![
        0u8, 1, 255, 1, 0, 1, 255, 1, 0, 1, 255, 1, 0, 1, 255, 1, 0, 1, 255, 1, 0, 1, 255, 1,
        0, 2, 74, 1, 0, 3, 74, 1, 0, 2, 74, 1, 0, 3, 74, 1,
        0, 4, 191, 1, 0, 4, 191, 1, 0, 4, 191, 1, 0, 4, 191, 1,
    ]);
}

/// A format-0 file upgraded to format 1: version 1, and a speed of 8 beats
/// per second and a section height of 4 inserted after the channel count.
pub open spec fn spec_upgrade_v1(b: Seq<u8>) -> Seq<u8> {
    seq![1u8, b[1], 8, 4] + b.skip(2)
}

/// A format-1 file upgraded to format 2: version 2, and the channel table
/// inserted after the four header bytes.
pub open spec fn spec_upgrade_v2(b: Seq<u8>) -> Seq<u8> {
    seq![FILE_VERSION, b[1], b[2], b[3]] + upgraded_channel_table() + b.skip(4)
}

/// The bytes on which `upgrade` succeeds: a known version, and for the older
/// versions the 14 channels that the format-2 table describes.
pub open spec fn spec_upgrade_ok(b: Seq<u8>) -> bool {
    &&& b.len() >= 1
    &&& (b[0] == 2 || (b[0] == 1 && b.len() >= 4 && b[1] == 14) || (b[0] == 0 && b.len() >= 2
        && b[1] == 14))
}

/// A file of any known version brought to the current version.
pub open spec fn spec_upgrade(b: Seq<u8>) -> Seq<u8> {
    if b[0] == 0 {
        spec_upgrade_v2(spec_upgrade_v1(b))
    } else if b[0] == 1 {
        spec_upgrade_v2(b)
    } else {
        b
    }
}

/// Upgrading gives a current-version file, and upgrading it again changes
/// nothing; a current-version file is left as it is.
pub proof fn lemma_upgrade_idempotent(b: Seq<u8>)
    requires
        spec_upgrade_ok(b),
    ensures
        spec_upgrade(b)[0] == FILE_VERSION,
        spec_upgrade_ok(spec_upgrade(b)),
        spec_upgrade(spec_upgrade(b)) == spec_upgrade(b),
        b[0] == FILE_VERSION ==> spec_upgrade(b) == b,
{
}

/// Whether `upgrade` accepts these bytes.
pub fn can_upgrade(bytes: &[u8]) -> (r: bool)
    ensures
        r == spec_upgrade_ok(bytes@),
{
    if bytes.len() == 0 {
        false
    } else if bytes[0] == 2 {
        true
    } else if bytes[0] == 1 {
        bytes.len() >= 4 && bytes[1] == 14
    } else if bytes[0] == 0 {
        bytes.len() >= 2 && bytes[1] == 14
    } else {
        false
    }
}

/// Brings a song file of version 0, 1 or 2 to the current version 2.
pub fn upgrade(bytes: Vec<u8>) -> (r: Vec<u8>)
    requires
        spec_upgrade_ok(bytes@),
    ensures
        r@ == spec_upgrade(bytes@),
    decreases 2 - bytes@[0],
{
    let version = bytes[0];
    if version == 0 {
        upgrade(upgrade_v1(bytes))
    } else if version == 1 {
        upgrade(upgrade_v2(bytes))
    } else {
        bytes
    }
}

/// Upgrades a format-0 file to format 1.
pub fn upgrade_v1(bytes: Vec<u8>) -> (r: Vec<u8>)
    requires
        bytes@.len() >= 2,
    ensures
        r@ == spec_upgrade_v1(bytes@),
{
    let ghost b = bytes@;
    let mut bytes = bytes;
    bytes.set(0, 1);
    bytes.insert(2, 8);  // beats per second
    bytes.insert(3, 4);  // section height
    assert(bytes@ =~= spec_upgrade_v1(b));
    bytes
}

/// Appends `pattern` to `out` `times` times.
fn push_repeated(out: &mut Vec<u8>, pattern: &[u8], times: usize)
    ensures
        final(out)@ == old(out)@ + repeat_bytes(pattern@, times as nat),
{
    let mut i: usize = 0;
    while i < times
        invariant
            i <= times,
            out@ == old(out)@ + repeat_bytes(pattern@, i as nat),
        decreases times - i,
    {
        let ghost before = out@;
        let mut j: usize = 0;
        while j < pattern.len()
            invariant
                j <= pattern@.len(),
                out@ == before + pattern@.take(j as int),
            decreases pattern@.len() - j,
        {
            out.push(pattern[j]);
            assert(pattern@.take(j as int + 1) =~= pattern@.take(j as int).push(pattern@[j as int]));
            j = j + 1;
        }
        assert(pattern@.take(j as int) =~= pattern@);
        i = i + 1;
        assert(old(out)@ + repeat_bytes(pattern@, i as nat) =~= before + pattern@);
    }
}

/// Upgrades a format-1 file of 14 channels to format 2 by inserting the
/// channel table after the header.
pub fn upgrade_v2(bytes: Vec<u8>) -> (r: Vec<u8>)
    requires
        bytes@.len() >= 4,
        bytes@[1] == 14,
    ensures
        r@ == spec_upgrade_v2(bytes@),
{
    let ghost b = bytes@;
    let mut instrs: Vec<u8> = Vec::new();
    // sine
    push_repeated(&mut instrs, &[0, 1, 255, 1], 6);
    // square, then saw
    push_repeated(&mut instrs, &[0, 2, 74, 1, 0, 3, 74, 1], 2);
    // triangle
    push_repeated(&mut instrs, &[0, 4, 191, 1], 4);
    let mut out = bytes;
    out.set(0, FILE_VERSION);
    let mut post = out.split_off(4);
    out.append(&mut instrs);
    out.append(&mut post);
    assert(out@ =~= spec_upgrade_v2(b));
    out
}

} // verus!
