//! The header of an 8-bit mono PCM WAV file.
use vstd::prelude::*;

verus! {

/// Bits in one sample.
pub const BITS_PER_SAMPLE: u16 = 8;

/// `x` as four little-endian bytes.
pub open spec fn le32(x: u32) -> Seq<u8> {
    seq![(x % 0x100) as u8, (x / 0x100 % 0x100) as u8, (x / 0x1_0000 % 0x100) as u8, (x / 0x100_0000) as u8]
}

/// `x` as two little-endian bytes.
pub open spec fn le16(x: u16) -> Seq<u8> {
    seq![(x % 0x100) as u8, (x / 0x100) as u8]
}

/// The 44-byte header of a WAV file of `data_size` bytes of 8-bit mono
/// samples at `sample_rate` samples per second: the RIFF chunk (its size is
/// the data size plus 36), the format chunk (PCM, one channel, the sample
/// rate, the byte rate, block alignment 1, 8 bits) and the data chunk header.
pub open spec fn spec_wav_header(data_size: u32, sample_rate: u32) -> Seq<u8> {
    seq![0x52u8, 0x49, 0x46, 0x46] + le32((data_size + 36) as u32) + seq![0x57u8, 0x41, 0x56, 0x45]
        + seq![0x66u8, 0x6d, 0x74, 0x20] + le32(16) + le16(1) + le16(1) + le32(sample_rate)
        + le32(sample_rate) + le16(1) + le16(BITS_PER_SAMPLE) + seq![0x64u8, 0x61, 0x74, 0x61]
        + le32(data_size)
}

fn push_le32(out: &mut Vec<u8>, x: u32)
    ensures
        final(out)@ == old(out)@ + le32(x),
{
    out.push((x % 0x100) as u8);
    out.push((x / 0x100 % 0x100) as u8);
    out.push((x / 0x1_0000 % 0x100) as u8);
    out.push((x / 0x100_0000) as u8);
    assert(out@ =~= old(out)@ + le32(x));
}

fn push_le16(out: &mut Vec<u8>, x: u16)
    ensures
        final(out)@ == old(out)@ + le16(x),
{
    out.push((x % 0x100) as u8);
    out.push((x / 0x100) as u8);
    assert(out@ =~= old(out)@ + le16(x));
}

/// The header of a WAV file holding `sample_count` 8-bit mono samples at
/// `sample_rate` samples per second. The data size field holds the sample
/// count cut to 32 bits.
pub fn wav_header(sample_count: usize, sample_rate: u32) -> (r: Vec<u8>)
    requires
        sample_count * 8 <= usize::MAX,
        (sample_count as u32) + 36 <= u32::MAX,
        sample_rate * 8 <= u32::MAX,
    ensures
        r@ == spec_wav_header(sample_count as u32, sample_rate),
        r@.len() == 44,
{
    let data_size = (sample_count * (BITS_PER_SAMPLE as usize) / 8) as u32;
    assert(sample_count * 8 / 8 == sample_count);
    let byte_rate = sample_rate * (BITS_PER_SAMPLE as u32) / 8;
    let block_align: u16 = BITS_PER_SAMPLE / 8;
    let mut out: Vec<u8> = vec![0x52, 0x49, 0x46, 0x46];  // RIFF
    push_le32(&mut out, data_size + 36);
    out.push(0x57);  // WAVE
    out.push(0x41);
    out.push(0x56);
    out.push(0x45);
    out.push(0x66);  // "fmt "
    out.push(0x6d);
    out.push(0x74);
    out.push(0x20);
    push_le32(&mut out, 16);  // format chunk size
    push_le16(&mut out, 1);  // PCM
    push_le16(&mut out, 1);  // one channel
    push_le32(&mut out, sample_rate);
    push_le32(&mut out, byte_rate);
    push_le16(&mut out, block_align);
    push_le16(&mut out, BITS_PER_SAMPLE);
    out.push(0x64);  // data
    out.push(0x61);
    out.push(0x74);
    out.push(0x61);
    push_le32(&mut out, data_size);
    assert(out@ =~= spec_wav_header(sample_count as u32, sample_rate));
    out
}

} // verus!
