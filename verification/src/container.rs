use vstd::prelude::*;

verus! {

/// The shape of a persisted waveform: sample rate in Hz, interleaved channel
/// count, and the payload representation (integer or IEEE-float bits).
#[derive(Clone, Copy, Debug, PartialEq, Eq, Structural)]
pub struct WaveSpec {
    pub rate: u32,
    pub channels: u16,
    /// 1 for integer samples, 3 for IEEE-float samples.
    pub format_tag: u16,
}

/// What a spec and sample count must satisfy so the container's 32-bit size
/// and alignment fields can carry them.
pub open spec fn wave_wf(sp: WaveSpec, nsamples: int) -> bool {
    &&& 1 <= sp.channels <= 16383
    &&& 1 <= sp.rate
    &&& sp.rate * sp.channels * 4 <= u32::MAX
    &&& sp.format_tag == 1 || sp.format_tag == 3
    &&& 0 <= nsamples
    &&& 36 + 8 + nsamples * 4 <= u32::MAX
}

pub open spec fn byte0(x: int) -> u8 {
    (x % 256) as u8
}

pub open spec fn byte1(x: int) -> u8 {
    ((x / 256) % 256) as u8
}

pub open spec fn byte2(x: int) -> u8 {
    ((x / 65536) % 256) as u8
}

pub open spec fn byte3(x: int) -> u8 {
    ((x / 16777216) % 256) as u8
}

/// A little-endian 32-bit read at offset `i`.
pub open spec fn rd32(b: Seq<u8>, i: int) -> int {
    b[i] + 256 * b[i + 1] + 65536 * b[i + 2] + 16777216 * b[i + 3]
}

/// A little-endian 16-bit read at offset `i`.
pub open spec fn rd16(b: Seq<u8>, i: int) -> int {
    b[i] + 256 * b[i + 1]
}

/// Splitting a 32-bit value into little-endian bytes loses nothing.
pub proof fn lemma_le32_round_trip(x: int)
    requires
        0 <= x < 0x1_0000_0000,
    ensures
        byte0(x) + 256 * byte1(x) + 65536 * byte2(x) + 16777216 * byte3(x) == x,
{
    broadcast use vstd::arithmetic::div_mod::lemma_fundamental_div_mod;
    broadcast use vstd::arithmetic::div_mod::lemma_div_denominator;

    assert(x == 256 * (x / 256) + x % 256);
    assert(x / 256 == 256 * ((x / 256) / 256) + (x / 256) % 256);
    assert((x / 256) / 256 == x / 65536);
    assert(x / 65536 == 256 * ((x / 65536) / 256) + (x / 65536) % 256);
    assert((x / 65536) / 256 == x / 16777216);
    assert(x / 16777216 < 256) by {
        assert(x / 16777216 <= 0xFFFF_FFFFint / 16777216) by {
            broadcast use vstd::arithmetic::div_mod::lemma_div_is_ordered;

        };
    };
    assert(x / 16777216 >= 0) by {
        broadcast use vstd::arithmetic::div_mod::lemma_div_pos_is_pos;

    };
    assert((x / 16777216) % 256 == x / 16777216) by {
        vstd::arithmetic::div_mod::lemma_small_mod((x / 16777216) as nat, 256);
    };
}

/// Splitting a 16-bit value into little-endian bytes loses nothing.
pub proof fn lemma_le16_round_trip(x: int)
    requires
        0 <= x < 0x1_0000,
    ensures
        byte0(x) + 256 * byte1(x) == x,
{
    broadcast use vstd::arithmetic::div_mod::lemma_fundamental_div_mod;

    assert(x == 256 * (x / 256) + x % 256);
    assert(x / 256 < 256) by {
        broadcast use vstd::arithmetic::div_mod::lemma_div_is_ordered;

    };
    assert(x / 256 >= 0) by {
        broadcast use vstd::arithmetic::div_mod::lemma_div_pos_is_pos;

    };
    assert((x / 256) % 256 == x / 256) by {
        vstd::arithmetic::div_mod::lemma_small_mod((x / 256) as nat, 256);
    };
}

/// The 44 header bytes preceding the sample payload: a RIFF/WAVE header with
/// one format chunk and the size fields filled in for `nsamples` samples.
pub open spec fn wave_header(sp: WaveSpec, nsamples: int) -> Seq<u8> {
    let data_len = nsamples * 4;
    let riff_len = 36 + data_len;
    let byte_rate = sp.rate * sp.channels * 4;
    let block_align = sp.channels * 4;
    seq![
        82u8,
        73u8,
        70u8,
        70u8,
        byte0(riff_len),
        byte1(riff_len),
        byte2(riff_len),
        byte3(riff_len),
        87u8,
        65u8,
        86u8,
        69u8,
        102u8,
        109u8,
        116u8,
        32u8,
        16u8,
        0u8,
        0u8,
        0u8,
        byte0(sp.format_tag as int),
        byte1(sp.format_tag as int),
        byte0(sp.channels as int),
        byte1(sp.channels as int),
        byte0(sp.rate as int),
        byte1(sp.rate as int),
        byte2(sp.rate as int),
        byte3(sp.rate as int),
        byte0(byte_rate as int),
        byte1(byte_rate as int),
        byte2(byte_rate as int),
        byte3(byte_rate as int),
        byte0(block_align as int),
        byte1(block_align as int),
        32u8,
        0u8,
        100u8,
        97u8,
        116u8,
        97u8,
        byte0(data_len),
        byte1(data_len),
        byte2(data_len),
        byte3(data_len),
    ]
}

/// The little-endian payload bytes of a run of 32-bit samples.
pub open spec fn sample_bytes(samples: Seq<u32>) -> Seq<u8> {
    Seq::new(
        samples.len() * 4,
        |i: int|
            {
                let s = samples[i / 4] as int;
                if i % 4 == 0 {
                    byte0(s)
                } else if i % 4 == 1 {
                    byte1(s)
                } else if i % 4 == 2 {
                    byte2(s)
                } else {
                    byte3(s)
                }
            },
    )
}

/// The canonical container encoding: header, then the raw samples.
pub open spec fn encode_wave_spec(sp: WaveSpec, samples: Seq<u32>) -> Seq<u8> {
    wave_header(sp, samples.len() as int) + sample_bytes(samples)
}

/// The samples stored behind the header of a parsed container.
pub open spec fn stored_samples(b: Seq<u8>, n: int) -> Seq<u32> {
    Seq::new(n as nat, |i: int| rd32(b, 44 + 4 * i) as u32)
}

/// What parsing a byte string yields: the spec and samples of its canonical
/// encoding, or nothing when the bytes are not one.
pub open spec fn parse_wave_spec(b: Seq<u8>) -> Option<(WaveSpec, Seq<u32>)> {
    if b.len() < 44 {
        None
    } else {
        let data_len = rd32(b, 40);
        let sp = WaveSpec {
            rate: rd32(b, 24) as u32,
            channels: rd16(b, 22) as u16,
            format_tag: rd16(b, 20) as u16,
        };
        if {
            &&& b[0] == 82 && b[1] == 73 && b[2] == 70 && b[3] == 70
            &&& b[8] == 87 && b[9] == 65 && b[10] == 86 && b[11] == 69
            &&& b[12] == 102 && b[13] == 109 && b[14] == 116 && b[15] == 32
            &&& rd32(b, 16) == 16
            &&& rd16(b, 34) == 32
            &&& 1 <= rd16(b, 22) <= 16383
            &&& 1 <= rd32(b, 24)
            &&& rd16(b, 20) == 1 || rd16(b, 20) == 3
            &&& rd32(b, 28) == rd32(b, 24) * rd16(b, 22) * 4
            &&& rd32(b, 28) <= u32::MAX
            &&& rd16(b, 32) == rd16(b, 22) * 4
            &&& b[36] == 100 && b[37] == 97 && b[38] == 116 && b[39] == 97
            &&& data_len % 4 == 0
            &&& rd32(b, 4) == 36 + data_len
            &&& b.len() == 44 + data_len
        } {
            Some((sp, stored_samples(b, data_len / 4)))
        } else {
            None
        }
    }
}

/// Encoding then parsing a well-formed waveform gives back exactly the spec
/// and the samples that went in.
pub proof fn lemma_wave_round_trip(sp: WaveSpec, samples: Seq<u32>)
    requires
        wave_wf(sp, samples.len() as int),
    ensures
        parse_wave_spec(encode_wave_spec(sp, samples)) == Some((sp, samples)),
{
    let b = encode_wave_spec(sp, samples);
    let hdr = wave_header(sp, samples.len() as int);
    let n = samples.len() as int;
    let data_len = n * 4;
    assert(hdr.len() == 44);
    assert(sample_bytes(samples).len() == data_len);
    assert(b.len() == 44 + data_len);
    assert forall|i: int| 0 <= i < 44 implies b[i] == hdr[i] by {}
    lemma_le32_round_trip(36 + data_len);
    lemma_le32_round_trip(data_len);
    lemma_le32_round_trip(sp.rate as int);
    assert(0 <= sp.rate * sp.channels * 4) by {
        broadcast use vstd::arithmetic::mul::lemma_mul_nonnegative;

    };
    lemma_le32_round_trip(sp.rate * sp.channels * 4);
    lemma_le16_round_trip(sp.format_tag as int);
    lemma_le16_round_trip(sp.channels as int);
    lemma_le16_round_trip(sp.channels * 4);
    assert(rd32(b, 4) == 36 + data_len);
    assert(rd32(b, 40) == data_len);
    assert(rd32(b, 24) == sp.rate);
    assert(rd16(b, 20) == sp.format_tag);
    assert(rd16(b, 22) == sp.channels);
    assert(rd32(b, 28) == sp.rate * sp.channels * 4);
    assert(rd16(b, 32) == sp.channels * 4);
    assert(rd32(b, 16) == 16);
    assert(rd16(b, 34) == 32);
    assert(data_len % 4 == 0) by {
        vstd::arithmetic::div_mod::lemma_mod_multiples_basic(n, 4);
    }
    assert(data_len / 4 == n) by {
        vstd::arithmetic::div_mod::lemma_div_by_multiple(n, 4);
    }
    let parsed = parse_wave_spec(b);
    assert(parsed is Some);
    assert(parsed.unwrap().0 == sp);
    assert forall|i: int| 0 <= i < n implies stored_samples(b, n)[i] == samples[i] by {
        lemma_sample_at(samples, i);
        assert forall|k: int| 0 <= k < 4 implies #[trigger] b[44 + 4 * i + k] == sample_bytes(
            samples,
        )[4 * i + k] by {}
    }
    assert(stored_samples(b, n) =~= samples);
}

/// The four payload bytes at sample `i` read back as sample `i`.
pub proof fn lemma_sample_at(samples: Seq<u32>, i: int)
    requires
        0 <= i < samples.len(),
    ensures
        rd32(sample_bytes(samples), 4 * i) == samples[i],
{
    let sb = sample_bytes(samples);
    assert forall|k: int| 0 <= k < 4 implies (#[trigger] (4 * i + k)) / 4 == i && (4 * i + k) % 4
        == k by {
        vstd::arithmetic::div_mod::lemma_div_multiples_vanish_fancy(i, k, 4);
        vstd::arithmetic::div_mod::lemma_mod_multiples_vanish(i, k, 4);
        vstd::arithmetic::div_mod::lemma_small_mod(k as nat, 4);
    }
    assert(sb[4 * i] == byte0(samples[i] as int));
    assert(sb[4 * i + 1] == byte1(samples[i] as int));
    assert(sb[4 * i + 2] == byte2(samples[i] as int));
    assert(sb[4 * i + 3] == byte3(samples[i] as int));
    lemma_le32_round_trip(samples[i] as int);
}

fn push_le32(out: &mut Vec<u8>, x: u32)
    ensures
        final(out)@ == old(out)@ + seq![
            byte0(x as int),
            byte1(x as int),
            byte2(x as int),
            byte3(x as int),
        ],
{
    out.push((x % 256) as u8);
    out.push(((x / 256) % 256) as u8);
    out.push(((x / 65536) % 256) as u8);
    out.push(((x / 16777216) % 256) as u8);
    assert(final(out)@ =~= old(out)@ + seq![
        byte0(x as int),
        byte1(x as int),
        byte2(x as int),
        byte3(x as int),
    ]);
}

fn push_le16(out: &mut Vec<u8>, x: u16)
    ensures
        final(out)@ == old(out)@ + seq![byte0(x as int), byte1(x as int)],
{
    out.push((x % 256) as u8);
    out.push(((x / 256) % 256) as u8);
    assert(final(out)@ =~= old(out)@ + seq![byte0(x as int), byte1(x as int)]);
}

/// Writes the canonical container for `samples` under `sp`.
pub fn encode_wave(sp: WaveSpec, samples: &Vec<u32>) -> (r: Vec<u8>)
    requires
        wave_wf(sp, samples@.len() as int),
    ensures
        r@ == encode_wave_spec(sp, samples@),
{
    let n = samples.len();
    let data_len: u32 = (n as u32) * 4;
    let riff_len: u32 = 36 + data_len;
    let byte_rate: u32 = sp.rate * (sp.channels as u32) * 4;
    let block_align: u16 = sp.channels * 4;
    let mut out: Vec<u8> = Vec::new();
    out.push(82);
    out.push(73);
    out.push(70);
    out.push(70);
    push_le32(&mut out, riff_len);
    out.push(87);
    out.push(65);
    out.push(86);
    out.push(69);
    out.push(102);
    out.push(109);
    out.push(116);
    out.push(32);
    push_le32(&mut out, 16);
    push_le16(&mut out, sp.format_tag);
    push_le16(&mut out, sp.channels);
    push_le32(&mut out, sp.rate);
    push_le32(&mut out, byte_rate);
    push_le16(&mut out, block_align);
    out.push(32);
    out.push(0);
    out.push(100);
    out.push(97);
    out.push(116);
    out.push(97);
    push_le32(&mut out, data_len);
    assert(out@ =~= wave_header(sp, samples@.len() as int)) by {
        lemma_le32_round_trip(16);
    }
    let ghost hdr = out@;
    let mut i: usize = 0;
    while i < n
        invariant
            i <= n,
            n == samples@.len(),
            out@ =~= hdr + sample_bytes(samples@.take(i as int)),
            hdr == wave_header(sp, samples@.len() as int),
        decreases n - i,
    {
        push_le32(&mut out, samples[i]);
        proof {
            assert(out@ =~= hdr + sample_bytes(samples@.take(i as int + 1))) by {
                assert forall|k: int|
                    0 <= k < sample_bytes(samples@.take(i as int + 1)).len() implies sample_bytes(
                    samples@.take(i as int + 1),
                )[k] == (sample_bytes(samples@.take(i as int)) + seq![
                    byte0(samples@[i as int] as int),
                    byte1(samples@[i as int] as int),
                    byte2(samples@[i as int] as int),
                    byte3(samples@[i as int] as int),
                ])[k] by {
                    vstd::arithmetic::div_mod::lemma_fundamental_div_mod(k, 4);
                }
            }
        }
        i = i + 1;
    }
    proof {
        assert(samples@.take(n as int) =~= samples@);
    }
    out
}

fn read_le32(b: &Vec<u8>, i: usize) -> (r: u32)
    requires
        i + 4 <= b@.len(),
        b@.len() <= usize::MAX,
    ensures
        r == rd32(b@, i as int),
{
    (b[i] as u32) + 256 * (b[i + 1] as u32) + 65536 * (b[i + 2] as u32) + 16777216 * (b[i
        + 3] as u32)
}

fn read_le16(b: &Vec<u8>, i: usize) -> (r: u16)
    requires
        i + 2 <= b@.len(),
        b@.len() <= usize::MAX,
    ensures
        r == rd16(b@, i as int),
{
    (b[i] as u16) + 256 * (b[i + 1] as u16)
}

/// Reads a canonical container back into its spec and samples; anything that
/// is not a canonical encoding is rejected.
pub fn parse_wave(b: &Vec<u8>) -> (r: Option<(WaveSpec, Vec<u32>)>)
    ensures
        r is Some ==> parse_wave_spec(b@) == Some((r.unwrap().0, r.unwrap().1@)),
        r is None ==> parse_wave_spec(b@) is None,
{
    if b.len() < 44 {
        return None;
    }
    if !(b[0] == 82 && b[1] == 73 && b[2] == 70 && b[3] == 70) {
        return None;
    }
    if !(b[8] == 87 && b[9] == 65 && b[10] == 86 && b[11] == 69) {
        return None;
    }
    if !(b[12] == 102 && b[13] == 109 && b[14] == 116 && b[15] == 32) {
        return None;
    }
    if read_le32(b, 16) != 16 {
        return None;
    }
    if read_le16(b, 34) != 32 {
        return None;
    }
    let format_tag = read_le16(b, 20);
    let channels = read_le16(b, 22);
    let rate = read_le32(b, 24);
    if !(1 <= channels && channels <= 16383) {
        return None;
    }
    if rate < 1 {
        return None;
    }
    if !(format_tag == 1 || format_tag == 3) {
        return None;
    }
    assert((rate as u64) * (channels as u64) * 4 < 0x1_0000_0000_0000u64) by (nonlinear_arith)
        requires
            rate <= u32::MAX,
            channels <= 16383,
    ;
    let byte_rate: u64 = (rate as u64) * (channels as u64) * 4;
    if (read_le32(b, 28) as u64) != byte_rate {
        return None;
    }
    if read_le16(b, 32) != channels * 4 {
        return None;
    }
    if !(b[36] == 100 && b[37] == 97 && b[38] == 116 && b[39] == 97) {
        return None;
    }
    let data_len = read_le32(b, 40);
    if data_len % 4 != 0 {
        return None;
    }
    if (read_le32(b, 4) as u64) != 36 + (data_len as u64) {
        return None;
    }
    if (b.len() as u64) != 44 + (data_len as u64) {
        return None;
    }
    let n = (data_len / 4) as usize;
    let mut samples: Vec<u32> = Vec::new();
    let mut i: usize = 0;
    while i < n
        invariant
            i <= n,
            n == rd32(b@, 40) / 4,
            44 + n * 4 == b@.len(),
            b@.len() <= usize::MAX,
            samples@ =~= stored_samples(b@, i as int),
        decreases n - i,
    {
        assert(44 + 4 * i + 4 <= b@.len());
        samples.push(read_le32(b, 44 + 4 * i));
        proof {
            assert(samples@ =~= stored_samples(b@, i as int + 1));
        }
        i = i + 1;
    }
    let sp = WaveSpec { rate, channels, format_tag };
    assert(parse_wave_spec(b@) == Some((sp, stored_samples(b@, n as int))));
    Some((sp, samples))
}

} // verus!
