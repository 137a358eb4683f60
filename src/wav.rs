//! A mono 16-bit PCM WAV file held in memory, for the sound effects.

use vstd::prelude::*;

verus! {

/// The two bytes of `x`, least significant first.
pub open spec fn le16(x: u16) -> Seq<u8> {
    seq![(x & 0xff) as u8, (x >> 8u16) as u8]
}

/// The four bytes of `x`, least significant first.
pub open spec fn le32(x: u32) -> Seq<u8> {
    seq![(x & 0xff) as u8, ((x >> 8u32) & 0xff) as u8, ((x >> 16u32) & 0xff) as u8, (x >> 24u32) as u8]
}

/// The samples as little-endian 16-bit words, in order.
pub open spec fn sample_bytes(samples: Seq<i16>) -> Seq<u8>
    decreases samples.len(),
{
    if samples.len() == 0 {
        Seq::empty()
    } else {
        sample_bytes(samples.drop_last()) + le16(samples.last() as u16)
    }
}

/// The header of a mono 16-bit PCM file with `n` samples at `rate` Hz:
/// `RIFF`, the file size less 8, `WAVE`, the 16-byte `fmt ` chunk (format
/// 1, one channel, the rate, the byte rate, block alignment 2, 16 bits),
/// then `data` and the data size.
pub open spec fn wav_header(n: nat, rate: u32) -> Seq<u8> {
    seq![82u8, 73, 70, 70] + le32((36 + 2 * n) as u32) + seq![87u8, 65, 86, 69] + seq![102u8, 109, 116, 32]
        + le32(16) + le16(1) + le16(1) + le32(rate) + le32((rate * 2) as u32) + le16(2) + le16(16) + seq![
        100u8,
        97,
        116,
        97,
    ] + le32((2 * n) as u32)
}

fn push_le16(v: &mut Vec<u8>, x: u16)
    ensures
        final(v)@ == old(v)@ + le16(x),
{
    v.push((x & 0xff) as u8);
    v.push((x >> 8u16) as u8);
    assert(v@ =~= old(v)@ + le16(x));
}

fn push_le32(v: &mut Vec<u8>, x: u32)
    ensures
        final(v)@ == old(v)@ + le32(x),
{
    v.push((x & 0xff) as u8);
    v.push(((x >> 8u32) & 0xff) as u8);
    v.push(((x >> 16u32) & 0xff) as u8);
    v.push((x >> 24u32) as u8);
    assert(v@ =~= old(v)@ + le32(x));
}

fn push_tag(v: &mut Vec<u8>, a: u8, b: u8, c: u8, d: u8)
    ensures
        final(v)@ == old(v)@ + seq![a, b, c, d],
{
    v.push(a);
    v.push(b);
    v.push(c);
    v.push(d);
    assert(v@ =~= old(v)@ + seq![a, b, c, d]);
}

/// Frames `samples` as a mono 16-bit PCM WAV file at `sample_rate` Hz.
pub fn create_wav_data(samples: &[i16], sample_rate: u32) -> (r: Vec<u8>)
    requires
        sample_rate <= u32::MAX / 16,
        36 + 2 * samples@.len() <= u32::MAX,
    ensures
        r@ == wav_header(samples@.len(), sample_rate) + sample_bytes(samples@),
{
    let num_channels: u16 = 1;
    let bits_per_sample: u16 = 16;
    let byte_rate: u32 = sample_rate * num_channels as u32 * bits_per_sample as u32 / 8;
    let block_align: u16 = num_channels * bits_per_sample / 8;
    let data_size: u32 = samples.len() as u32 * 2;
    let file_size: u32 = 36 + data_size;

    let mut wav: Vec<u8> = Vec::new();
    push_tag(&mut wav, 82, 73, 70, 70);
    push_le32(&mut wav, file_size);
    push_tag(&mut wav, 87, 65, 86, 69);
    push_tag(&mut wav, 102, 109, 116, 32);
    push_le32(&mut wav, 16);
    push_le16(&mut wav, 1);
    push_le16(&mut wav, num_channels);
    push_le32(&mut wav, sample_rate);
    push_le32(&mut wav, byte_rate);
    push_le16(&mut wav, block_align);
    push_le16(&mut wav, bits_per_sample);
    push_tag(&mut wav, 100, 97, 116, 97);
    push_le32(&mut wav, data_size);
    let ghost header = wav@;
    assert(header =~= wav_header(samples@.len(), sample_rate));
    let mut i: usize = 0;
    assert(samples@.take(0) =~= Seq::<i16>::empty());
    assert(wav@ =~= header + sample_bytes(samples@.take(0)));
    while i < samples.len()
        invariant
            i <= samples@.len(),
            wav@ == header + sample_bytes(samples@.take(i as int)),
        decreases samples.len() - i,
    {
        let s = samples[i];
        push_le16(&mut wav, #[verifier::truncate] (s as u16));
        assert(samples@.take(i as int + 1).drop_last() =~= samples@.take(i as int));
        assert(wav@ =~= header + sample_bytes(samples@.take(i as int + 1)));
        i = i + 1;
    }
    assert(samples@.take(samples@.len() as int) =~= samples@);
    wav
}

} // verus!
