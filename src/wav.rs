//! The canonical container: a 44-byte RIFF/WAVE header for mono 16-bit PCM,
//! followed by the samples, little-endian.
use vstd::prelude::*;

verus! {

/// Bytes in the header.
pub const WAV_HEADER_LEN: usize = 44;

/// Smallest buffer that `validate_audio` accepts: the header and one second
/// of 16 kHz mono 16-bit audio.
pub const MIN_AUDIO_BYTES: usize = 32044;

/// Two little-endian bytes of `x` (taken modulo 2^16).
pub open spec fn le16(x: nat) -> Seq<u8> {
    seq![(x % 256) as u8, ((x / 256) % 256) as u8]
}

/// Four little-endian bytes of `x` (taken modulo 2^32).
pub open spec fn le32(x: nat) -> Seq<u8> {
    seq![
        (x % 256) as u8,
        ((x / 256) % 256) as u8,
        ((x / 65536) % 256) as u8,
        ((x / 16777216) % 256) as u8,
    ]
}

/// The unsigned integer in the two bytes at `i`.
pub open spec fn read_le16(b: Seq<u8>, i: int) -> nat {
    (b[i] + 256 * b[i + 1]) as nat
}

/// The unsigned integer in the four bytes at `i`.
pub open spec fn read_le32(b: Seq<u8>, i: int) -> nat {
    (b[i] + 256 * b[i + 1] + 65536 * b[i + 2] + 16777216 * b[i + 3]) as nat
}

/// The two's-complement bit pattern of a sample, as an unsigned number.
pub open spec fn sample_bits(s: i16) -> nat {
    if s < 0 {
        (s + 65536) as nat
    } else {
        s as nat
    }
}

/// The sample whose two's-complement bit pattern is `v` (below 2^16).
pub open spec fn sample_of_bits(v: nat) -> i16 {
    if v >= 32768 {
        (v - 65536) as i16
    } else {
        v as i16
    }
}

/// The header for `n` samples at `rate` Hz (the 32-bit byte-rate field holds
/// twice the rate, modulo 2^32).
pub open spec fn wav_header(rate: nat, n: nat) -> Seq<u8> {
    seq![82u8, 73u8, 70u8, 70u8] + le32(36 + 2 * n) + seq![87u8, 65u8, 86u8, 69u8] + seq![
        102u8,
        109u8,
        116u8,
        32u8,
    ] + le32(16) + le16(1) + le16(1) + le32(rate) + le32((rate * 2) % 4294967296) + le16(2) + le16(16) + seq![
        100u8,
        97u8,
        116u8,
        97u8,
    ] + le32(2 * n)
}

/// The samples as little-endian 16-bit words.
pub open spec fn pcm_bytes(s: Seq<i16>) -> Seq<u8> {
    Seq::new(
        2 * s.len(),
        |j: int|
            if j % 2 == 0 {
                (sample_bits(s[j / 2]) % 256) as u8
            } else {
                (sample_bits(s[j / 2]) / 256) as u8
            },
    )
}

/// The container bytes for `s` at `rate` Hz.
pub open spec fn wav_encoding(s: Seq<i16>, rate: nat) -> Seq<u8> {
    wav_header(rate, s.len()) + pcm_bytes(s)
}

/// The samples after the header: one per whole pair of bytes; a last odd
/// byte is ignored.
pub open spec fn pcm_samples(b: Seq<u8>) -> Seq<i16> {
    Seq::new(
        ((b.len() - 44) / 2) as nat,
        |i: int| sample_of_bits(read_le16(b, 44 + 2 * i)),
    )
}

/// Sum of the squared samples.
pub open spec fn sum_squares(s: Seq<i16>) -> int
    decreases s.len(),
{
    if s.len() == 0 {
        0
    } else {
        sum_squares(s.drop_last()) + s.last() * s.last()
    }
}

/// Why a buffer cannot be read as the container.
#[derive(Clone, Copy, Debug, PartialEq, Eq)]
pub enum WavError {
    /// Fewer bytes than the header.
    TooShort,
}

/// What the header says and the samples that follow it.
pub struct WavData {
    pub sample_rate: u32,
    pub channels: u16,
    pub bits_per_sample: u16,
    pub samples: Vec<i16>,
}

fn push_le16(buf: &mut Vec<u8>, x: u16)
    ensures
        final(buf)@ == old(buf)@ + le16(x as nat),
{
    buf.push((x % 256) as u8);
    buf.push((x / 256) as u8);
    assert(final(buf)@ =~= old(buf)@ + le16(x as nat));
}

fn push_le32(buf: &mut Vec<u8>, x: u32)
    ensures
        final(buf)@ == old(buf)@ + le32(x as nat),
{
    buf.push((x % 256) as u8);
    buf.push(((x / 256) % 256) as u8);
    buf.push(((x / 65536) % 256) as u8);
    buf.push((x / 16777216) as u8);
    assert(final(buf)@ =~= old(buf)@ + le32(x as nat));
}

fn push_tag(buf: &mut Vec<u8>, a: u8, b: u8, c: u8, d: u8)
    ensures
        final(buf)@ == old(buf)@ + seq![a, b, c, d],
{
    buf.push(a);
    buf.push(b);
    buf.push(c);
    buf.push(d);
    assert(final(buf)@ =~= old(buf)@ + seq![a, b, c, d]);
}

/// Encodes mono 16-bit samples at `sample_rate` Hz as the container.
pub fn samples_to_wav_bytes(samples: &[i16], sample_rate: u32) -> (r: Vec<u8>)
    requires
        36 + 2 * samples@.len() <= u32::MAX,
    ensures
        r@ == wav_encoding(samples@, sample_rate as nat),
{
    let n = samples.len();
    let data_size: u32 = (2 * n) as u32;
    let mut buf: Vec<u8> = Vec::new();
    push_tag(&mut buf, 82, 73, 70, 70);
    push_le32(&mut buf, 36 + data_size);
    push_tag(&mut buf, 87, 65, 86, 69);
    push_tag(&mut buf, 102, 109, 116, 32);
    push_le32(&mut buf, 16);
    push_le16(&mut buf, 1);
    push_le16(&mut buf, 1);
    push_le32(&mut buf, sample_rate);
    let byte_rate: u32 = ((sample_rate as u64 * 2) % 4294967296) as u32;
    push_le32(&mut buf, byte_rate);
    push_le16(&mut buf, 2);
    push_le16(&mut buf, 16);
    push_tag(&mut buf, 100, 97, 116, 97);
    push_le32(&mut buf, data_size);
    let ghost header = buf@;
    assert(header =~= wav_header(sample_rate as nat, n as nat));
    let mut i: usize = 0;
    while i < n
        invariant
            n == samples@.len(),
            i <= n,
            buf@ == header + pcm_bytes(samples@.take(i as int)),
        decreases n - i,
    {
        let s = samples[i];
        let bits: u16 = if s < 0 {
            (s as i32 + 65536) as u16
        } else {
            s as u16
        };
        let ghost before = samples@.take(i as int);
        buf.push((bits % 256) as u8);
        buf.push((bits / 256) as u8);
        assert(pcm_bytes(samples@.take(i + 1)) =~= pcm_bytes(before) + seq![
            (bits % 256) as u8,
            (bits / 256) as u8,
        ]);
        i = i + 1;
    }
    assert(samples@.take(n as int) =~= samples@);
    buf
}

fn sample_at(bytes: &[u8], i: usize) -> (r: i16)
    requires
        i + 1 < bytes@.len(),
    ensures
        r == sample_of_bits(read_le16(bytes@, i as int)),
{
    let v: u32 = bytes[i] as u32 + 256 * bytes[i + 1] as u32;
    if v >= 32768 {
        (v as i32 - 65536) as i16
    } else {
        v as i16
    }
}

/// The samples that follow the header (the buffer holds at least the header).
fn decode_samples(bytes: &[u8]) -> (r: Vec<i16>)
    requires
        bytes@.len() >= 44,
    ensures
        r@ == pcm_samples(bytes@),
{
    let len = bytes.len();
    let count = (len - 44) / 2;
    let mut out: Vec<i16> = Vec::new();
    let mut i: usize = 0;
    while i < count
        invariant
            len == bytes@.len(),
            count == (bytes@.len() - 44) / 2,
            i <= count,
            out@ == pcm_samples(bytes@).take(i as int),
        decreases count - i,
    {
        let s = sample_at(bytes, 44 + 2 * i);
        out.push(s);
        i = i + 1;
        assert(out@ =~= pcm_samples(bytes@).take(i as int));
    }
    assert(pcm_samples(bytes@).take(count as int) =~= pcm_samples(bytes@));
    out
}

/// Reads the container: the rate, channel count and sample width from the
/// header, and the 16-bit samples after it. Fails only on a buffer shorter
/// than the header.
pub fn wav_bytes_to_samples(bytes: &[u8]) -> (r: Result<WavData, WavError>)
    ensures
        bytes@.len() < 44 <==> r is Err,
        r is Err ==> r == Err::<WavData, WavError>(WavError::TooShort),
        r matches Ok(d) ==> {
            &&& d.sample_rate == read_le32(bytes@, 24)
            &&& d.channels == read_le16(bytes@, 22)
            &&& d.bits_per_sample == read_le16(bytes@, 34)
            &&& d.samples@ == pcm_samples(bytes@)
        },
{
    if bytes.len() < WAV_HEADER_LEN {
        return Err(WavError::TooShort);
    }
    let sample_rate: u32 = bytes[24] as u32 + 256 * bytes[25] as u32 + 65536 * bytes[26] as u32
        + 16777216 * bytes[27] as u32;
    let channels: u16 = bytes[22] as u16 + 256 * bytes[23] as u16;
    let bits_per_sample: u16 = bytes[34] as u16 + 256 * bytes[35] as u16;
    let samples = decode_samples(bytes);
    Ok(WavData { sample_rate, channels, bits_per_sample, samples })
}

/// Whether a buffer is worth transcribing: at least the header and one second
/// of audio, and a root-mean-square level of at least 0.01 of full scale
/// (full scale being 32768), that is `10000 * sum(s^2) >= n * 32768^2`.
pub fn validate_audio(audio_bytes: &[u8]) -> (r: bool)
    ensures
        r == (audio_bytes@.len() >= MIN_AUDIO_BYTES && 10000 * sum_squares(
            pcm_samples(audio_bytes@),
        ) >= pcm_samples(audio_bytes@).len() * 1073741824),
{
    if audio_bytes.len() < MIN_AUDIO_BYTES {
        return false;
    }
    let samples = decode_samples(audio_bytes);
    let n = samples.len();
    let mut sum: u128 = 0;
    let mut i: usize = 0;
    while i < n
        invariant
            n == samples@.len(),
            i <= n,
            sum == sum_squares(samples@.take(i as int)),
            sum <= i * 1073741824,
        decreases n - i,
    {
        let s = samples[i] as i64;
        assert(s * s <= 1073741824) by (nonlinear_arith)
            requires
                -32768 <= s <= 32767,
        ;
        assert(s * s >= 0) by (nonlinear_arith);
        assert(samples@.take(i + 1).drop_last() =~= samples@.take(i as int));
        sum = sum + (s * s) as u128;
        i = i + 1;
    }
    assert(samples@.take(n as int) =~= samples@);
    assert(sum * 10000 <= n * 1073741824 * 10000) by (nonlinear_arith)
        requires
            sum <= n * 1073741824,
    ;
    sum * 10000 >= n as u128 * 1073741824
}

/// Decoding the encoding of any samples gives back the rate and the samples:
/// the 16-bit container loses nothing.
pub proof fn lemma_wav_round_trip(s: Seq<i16>, rate: u32)
    requires
        36 + 2 * s.len() <= u32::MAX,
    ensures
        wav_encoding(s, rate as nat).len() >= 44,
        read_le32(wav_encoding(s, rate as nat), 24) == rate,
        pcm_samples(wav_encoding(s, rate as nat)) == s,
{
    let b = wav_encoding(s, rate as nat);
    let h = wav_header(rate as nat, s.len());
    assert(h.len() == 44);
    let x = rate as nat;
    assert(h.subrange(24, 28) =~= le32(x));
    assert(b[24] == h[24] && b[25] == h[25] && b[26] == h[26] && b[27] == h[27]);
    assert(x % 256 + 256 * ((x / 256) % 256) + 65536 * ((x / 65536) % 256) + 16777216 * ((x
        / 16777216) % 256) == x) by (nonlinear_arith)
        requires
            x < 4294967296,
    ;
    assert(pcm_samples(b).len() == s.len());
    assert forall|i: int| 0 <= i < s.len() implies pcm_samples(b)[i] == s[i] by {
        let u = sample_bits(s[i]);
        assert(b[44 + 2 * i] == pcm_bytes(s)[2 * i]);
        assert(b[44 + 2 * i + 1] == pcm_bytes(s)[2 * i + 1]);
        assert((2 * i) / 2 == i && (2 * i) % 2 == 0);
        assert((2 * i + 1) / 2 == i && (2 * i + 1) % 2 == 1);
        assert(u < 65536);
        assert(u % 256 + 256 * (u / 256) == u) by (nonlinear_arith);
    }
    assert(pcm_samples(b) =~= s);
}

} // verus!
