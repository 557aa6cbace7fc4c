use vstd::prelude::*;

verus! {

use crate::container::{lemma_sample_at, parse_wave, parse_wave_spec, rd32, sample_bytes};

/// The error taxonomy of the decode and library layers.
#[derive(Clone, Copy, Debug, PartialEq, Eq, Structural)]
pub enum AudioError {
    /// The demuxer offers no track to decode (fatal at construction).
    NoDefaultTrack,
    /// No registered decoder accepts the selected track's codec (fatal at
    /// construction).
    UnsupportedCodec,
    /// A malformed frame; `recoverable` frames are skipped, others abort.
    DecodeError { recoverable: bool },
    /// A failed read from the underlying medium (fatal for the operation).
    IoError,
    /// Every backend was consulted and none had a match.
    NotFound,
    /// A backend failed its one-time preparation (fatal at construction).
    BackendInit,
}

/// The codec-level description of one track.
#[derive(Clone, Copy, Debug, PartialEq, Eq, Structural)]
pub struct CodecParameters {
    /// The tag of the payload representation (1: integer, 3: IEEE float).
    pub codec: u16,
    pub sample_rate: Option<u32>,
    pub channels: Option<u16>,
}

/// Sample rate and channel count of decoded output.
#[derive(Clone, Copy, Debug, PartialEq, Eq, Structural)]
pub struct SignalSpec {
    pub rate: u32,
    pub channels: u16,
}

/// The signal shape that codec parameters imply: the reported rate, or
/// 44100 Hz when the codec does not report one.
pub open spec fn signal_spec_of(params: CodecParameters) -> SignalSpec {
    SignalSpec {
        rate: match params.sample_rate {
            Some(r) => r,
            None => 44100,
        },
        channels: match params.channels {
            Some(c) => c,
            None => 0,
        },
    }
}

/// One encoded packet, tagged with the track it belongs to.
#[derive(Debug)]
pub struct Packet {
    pub track_id: u32,
    pub payload: Vec<u8>,
}

/// One track a source offers.
#[derive(Debug)]
pub struct TrackInfo {
    pub id: u32,
    pub codec_params: CodecParameters,
}

/// A demuxed source: its track table and its packet stream, with a read
/// position. The packets of a source are plain values, so everything a
/// decode session does with them is checked.
#[derive(Debug)]
pub struct FormatSource {
    pub tracks: Vec<TrackInfo>,
    pub packets: Vec<Packet>,
    pub pos: usize,
}

/// The decoders a session may use, by codec tag.
#[derive(Debug)]
pub struct DecoderRegistry {
    pub supported: Vec<u16>,
}

impl DecoderRegistry {
    /// The registry of the payload representations this crate decodes
    /// itself: integer and IEEE-float raw samples.
    pub fn with_defaults() -> (r: Self)
        ensures
            r.supported@ =~= seq![1u16, 3u16],
    {
        let mut supported: Vec<u16> = Vec::new();
        supported.push(1);
        supported.push(3);
        assert(supported@ =~= seq![1u16, 3u16]);
        DecoderRegistry { supported }
    }

    pub fn supports(&self, codec: u16) -> (r: bool)
        ensures
            r == self.supported@.contains(codec),
    {
        let mut i: usize = 0;
        while i < self.supported.len()
            invariant
                i <= self.supported@.len(),
                forall|m: int| 0 <= m < i ==> self.supported@[m] != codec,
            decreases self.supported@.len() - i,
        {
            if self.supported[i] == codec {
                return true;
            }
            i = i + 1;
        }
        false
    }
}

/// Knobs handed to decoder construction.
#[derive(Clone, Copy, Debug, PartialEq, Eq, Structural)]
pub struct DecoderOptions {
    pub verify: bool,
}

/// What decoding a raw-sample payload yields: one 32-bit sample per four
/// little-endian bytes, or nothing when the payload is not sample-aligned
/// (a malformed, recoverable frame).
pub open spec fn decode_pcm_spec(payload: Seq<u8>) -> Option<Seq<u32>> {
    if payload.len() % 4 == 0 {
        Some(Seq::new(payload.len() / 4, |i: int| rd32(payload, 4 * i) as u32))
    } else {
        None
    }
}

/// The raw-sample decoder: stateless except for the parameters of the track
/// it was built for.
#[derive(Clone, Copy, Debug, PartialEq, Eq, Structural)]
pub struct PcmDecoder {
    pub params: CodecParameters,
}

impl PcmDecoder {
    /// Decodes one payload; a payload that is not sample-aligned is a
    /// malformed frame, reported as recoverable.
    pub fn decode(&self, payload: &Vec<u8>) -> (r: Result<Vec<u32>, AudioError>)
        ensures
            match decode_pcm_spec(payload@) {
                Some(ss) => r matches Ok(v) && v@ == ss,
                None => r == Result::<Vec<u32>, AudioError>::Err(
                    AudioError::DecodeError { recoverable: true },
                ),
            },
    {
        if payload.len() % 4 != 0 {
            return Err(AudioError::DecodeError { recoverable: true });
        }
        let n = payload.len() / 4;
        let mut out: Vec<u32> = Vec::new();
        let mut i: usize = 0;
        while i < n
            invariant
                i <= n,
                n == payload@.len() / 4,
                payload@.len() % 4 == 0,
                payload@.len() <= usize::MAX,
                out@ =~= decode_pcm_spec(payload@).unwrap().take(i as int),
            decreases n - i,
        {
            assert(4 * i + 4 <= payload@.len()) by {
                assert(i + 1 <= n);
                assert(4 * (i + 1) <= 4 * n);
                assert(4 * n == payload@.len()) by {
                    vstd::arithmetic::div_mod::lemma_fundamental_div_mod(
                        payload@.len() as int,
                        4,
                    );
                };
            };
            let b0 = payload[4 * i] as u32;
            let b1 = payload[4 * i + 1] as u32;
            let b2 = payload[4 * i + 2] as u32;
            let b3 = payload[4 * i + 3] as u32;
            out.push(b0 + 256 * b1 + 65536 * b2 + 16777216 * b3);
            proof {
                assert(out@ =~= decode_pcm_spec(payload@).unwrap().take(i as int + 1));
            }
            i = i + 1;
        }
        proof {
            assert(out@ =~= decode_pcm_spec(payload@).unwrap());
        }
        Ok(out)
    }
}

/// The packet-pulling step starting at `pos`: packets of other tracks and
/// malformed own packets are passed over; the first own packet that decodes
/// yields its samples and the position after it; running out of packets is
/// the end of the stream.
pub open spec fn next_frame(packets: Seq<Packet>, pos: int, track_id: u32) -> Option<
    (int, Seq<u32>),
>
    decreases packets.len() - pos,
{
    if pos < 0 || pos >= packets.len() {
        None
    } else if packets[pos].track_id != track_id {
        next_frame(packets, pos + 1, track_id)
    } else {
        match decode_pcm_spec(packets[pos].payload@) {
            Some(ss) => Some((pos + 1, ss)),
            None => next_frame(packets, pos + 1, track_id),
        }
    }
}

/// A successful pull lands strictly past `pos` and within the stream.
pub proof fn lemma_next_frame_bounds(packets: Seq<Packet>, pos: int, track_id: u32)
    requires
        0 <= pos,
    ensures
        next_frame(packets, pos, track_id) matches Some(f) ==> pos < f.0 <= packets.len(),
    decreases packets.len() - pos,
{
    if pos < packets.len() {
        lemma_next_frame_bounds(packets, pos + 1, track_id);
    }
}

/// Every sample still ahead of `pos`, in stream order.
pub open spec fn remaining_samples(packets: Seq<Packet>, pos: int, track_id: u32) -> Seq<u32>
    decreases packets.len() - pos,
    when 0 <= pos
    via remaining_samples_decreases
{
    match next_frame(packets, pos, track_id) {
        None => Seq::empty(),
        Some(f) => f.1 + remaining_samples(packets, f.0, track_id),
    }
}

#[via_fn]
proof fn remaining_samples_decreases(packets: Seq<Packet>, pos: int, track_id: u32) {
    lemma_next_frame_bounds(packets, pos, track_id);
}

/// A typed, fixed-capacity buffer of interleaved samples: one decoded
/// frame's worth of samples at a time, converted to 32-bit patterns.
#[derive(Debug)]
pub struct SampleBuffer {
    samples: Vec<u32>,
    capacity: usize,
}

impl SampleBuffer {
    /// The samples of the last frame copied in, in order.
    pub closed spec fn samples_spec(&self) -> Seq<u32> {
        self.samples@
    }

    /// The fixed capacity chosen at construction.
    pub closed spec fn capacity_spec(&self) -> int {
        self.capacity as int
    }

    pub fn new(capacity: usize) -> (r: Self)
        ensures
            r.samples_spec() =~= Seq::<u32>::empty(),
            r.capacity_spec() == capacity,
    {
        SampleBuffer { samples: Vec::new(), capacity }
    }

    pub fn len(&self) -> (r: usize)
        ensures
            r == self.samples_spec().len(),
    {
        self.samples.len()
    }

    pub fn capacity(&self) -> (r: usize)
        ensures
            r == self.capacity_spec(),
    {
        self.capacity
    }

    /// A view of the samples currently held.
    pub fn samples(&self) -> (r: &[u32])
        ensures
            r@ == self.samples_spec(),
    {
        self.samples.as_slice()
    }
}

/// What one read into a sample buffer produced.
#[derive(Debug)]
pub enum ReadOutcome {
    /// One frame of this many samples now fills the buffer.
    Read(usize),
    /// The source is exhausted; the buffer is untouched.
    Eof,
}

/// The outcome of pulling one frame out of a decode session.
#[derive(Debug)]
pub enum ConsumeOutcome {
    /// One decoded frame of interleaved samples.
    Frame(Vec<u32>),
    /// The source is exhausted: the session's normal completion signal.
    Eof,
}

/// A pull-based decode session over one selected track of a demuxed source.
#[derive(Debug)]
pub struct AudioReader {
    pub format_reader: FormatSource,
    pub decoder: PcmDecoder,
    pub track_id: u32,
}

impl AudioReader {
    /// Selects the source's default (first) track and builds its decoder.
    /// Fails with `NoDefaultTrack` on a trackless source and with
    /// `UnsupportedCodec` when the registry cannot serve the track's codec.
    pub fn new(
        format_reader: FormatSource,
        codecs: &DecoderRegistry,
        opts: &DecoderOptions,
    ) -> (r: Result<Self, AudioError>)
        ensures
            format_reader.tracks@.len() == 0 ==> r == Result::<Self, AudioError>::Err(
                AudioError::NoDefaultTrack,
            ),
            format_reader.tracks@.len() > 0 && !codecs.supported@.contains(
                format_reader.tracks@[0].codec_params.codec,
            ) ==> r == Result::<Self, AudioError>::Err(AudioError::UnsupportedCodec),
            format_reader.tracks@.len() > 0 && codecs.supported@.contains(
                format_reader.tracks@[0].codec_params.codec,
            ) ==> (r matches Ok(s) && s.format_reader == format_reader && s.track_id
                == format_reader.tracks@[0].id && s.decoder.params
                == format_reader.tracks@[0].codec_params),
    {
        if format_reader.tracks.len() == 0 {
            return Err(AudioError::NoDefaultTrack);
        }
        let params = format_reader.tracks[0].codec_params;
        if !codecs.supports(params.codec) {
            return Err(AudioError::UnsupportedCodec);
        }
        let track_id = format_reader.tracks[0].id;
        let _ = opts;
        Ok(AudioReader { format_reader, decoder: PcmDecoder { params }, track_id })
    }

    /// The parameters of the decoder bound to the selected track.
    pub fn codec_params(&self) -> (r: &CodecParameters)
        ensures
            *r == self.decoder.params,
    {
        &self.decoder.params
    }

    /// The decoded signal's shape, with the 44100 Hz fallback rate.
    pub fn signal_spec(&self) -> (r: SignalSpec)
        ensures
            r == signal_spec_of(self.decoder.params),
    {
        let rate = match self.decoder.params.sample_rate {
            Some(r) => r,
            None => 44100,
        };
        let channels = match self.decoder.params.channels {
            Some(c) => c,
            None => 0,
        };
        SignalSpec { rate, channels }
    }

    /// Pulls packets until one of the selected track decodes: packets of
    /// other tracks are discarded silently, malformed own packets are skipped
    /// as recoverable, and exhaustion is the `Eof` outcome, not an error.
    pub fn consume_next(&mut self) -> (r: Result<ConsumeOutcome, AudioError>)
        ensures
            final(self).format_reader.tracks@ == old(self).format_reader.tracks@,
            final(self).format_reader.packets@ == old(self).format_reader.packets@,
            final(self).decoder == old(self).decoder,
            final(self).track_id == old(self).track_id,
            match next_frame(
                old(self).format_reader.packets@,
                old(self).format_reader.pos as int,
                old(self).track_id,
            ) {
                None => (r matches Ok(o) && o is Eof) && final(self).format_reader.pos
                    == final(self).format_reader.packets@.len(),
                Some(f) => (r matches Ok(o) && (o matches ConsumeOutcome::Frame(v) && v@ == f.1))
                    && final(self).format_reader.pos == f.0,
            },
    {
        let ghost packets = self.format_reader.packets@;
        let ghost start = self.format_reader.pos as int;
        let ghost tid = self.track_id;
        loop
            invariant
                packets == self.format_reader.packets@,
                tid == self.track_id,
                old(self).format_reader.tracks@ == self.format_reader.tracks@,
                old(self).format_reader.packets@ == packets,
                old(self).decoder == self.decoder,
                old(self).track_id == tid,
                self.decoder == old(self).decoder,
                self.format_reader.tracks@ == old(self).format_reader.tracks@,
                start == old(self).format_reader.pos as int,
                next_frame(packets, start, tid) == next_frame(
                    packets,
                    self.format_reader.pos as int,
                    tid,
                ),
            decreases packets.len() - self.format_reader.pos,
        {
            if self.format_reader.pos >= self.format_reader.packets.len() {
                let n = self.format_reader.packets.len();
                self.format_reader.pos = n;
                return Ok(ConsumeOutcome::Eof);
            }
            let pos = self.format_reader.pos;
            self.format_reader.pos = pos + 1;
            if self.format_reader.packets[pos].track_id != self.track_id {
                continue ;
            }
            match self.decoder.decode(&self.format_reader.packets[pos].payload) {
                Ok(samples) => {
                    assert(next_frame(packets, pos as int, tid) == Some(
                        (pos as int + 1, samples@),
                    ));
                    return Ok(ConsumeOutcome::Frame(samples));
                },
                Err(AudioError::DecodeError { recoverable: true }) => {
                    continue ;
                },
                Err(e) => {
                    return Err(e);
                },
            }
        }
    }

    /// Drains the whole stream, frame by frame, until `Eof`: the samples of
    /// every remaining frame of the selected track, in order. On return the
    /// session sits at the end of its source.
    pub fn read_all_samples(&mut self) -> (r: Result<Vec<u32>, AudioError>)
        ensures
            (r matches Ok(v) && v@ == remaining_samples(
                old(self).format_reader.packets@,
                old(self).format_reader.pos as int,
                old(self).track_id,
            )),
            final(self).format_reader.tracks@ == old(self).format_reader.tracks@,
            final(self).format_reader.packets@ == old(self).format_reader.packets@,
            final(self).decoder == old(self).decoder,
            final(self).track_id == old(self).track_id,
            final(self).format_reader.pos == final(self).format_reader.packets@.len(),
    {
        let ghost packets = self.format_reader.packets@;
        let ghost tid = self.track_id;
        let ghost start = self.format_reader.pos as int;
        let mut out: Vec<u32> = Vec::new();
        proof {
            lemma_next_frame_bounds(packets, start, tid);
        }
        loop
            invariant
                packets == self.format_reader.packets@,
                tid == self.track_id,
                old(self).format_reader.tracks@ == self.format_reader.tracks@,
                old(self).format_reader.packets@ == packets,
                old(self).decoder == self.decoder,
                old(self).track_id == tid,
                start == old(self).format_reader.pos as int,
                remaining_samples(packets, start, tid) =~= out@ + remaining_samples(
                    packets,
                    self.format_reader.pos as int,
                    tid,
                ),
            decreases packets.len() - self.format_reader.pos,
        {
            let ghost pos_before = self.format_reader.pos as int;
            proof {
                lemma_next_frame_bounds(packets, pos_before, tid);
            }
            match self.consume_next() {
                Ok(ConsumeOutcome::Frame(samples)) => {
                    let ghost frame = next_frame(packets, pos_before, tid).unwrap();
                    out.append(&mut { samples });
                    proof {
                        assert(remaining_samples(packets, pos_before, tid) == frame.1
                            + remaining_samples(packets, frame.0, tid));
                        assert(remaining_samples(packets, start, tid) =~= out@
                            + remaining_samples(packets, self.format_reader.pos as int, tid));
                    }
                },
                Ok(ConsumeOutcome::Eof) => {
                    proof {
                        assert(remaining_samples(packets, pos_before, tid) =~= Seq::<u32>::empty());
                        assert(out@ =~= remaining_samples(packets, start, tid));
                    }
                    return Ok(out);
                },
                Err(e) => {
                    return Err(e);
                },
            }
        }
    }
}

impl AudioReader {
    /// Copies the next decoded frame's samples into `dst`, replacing its
    /// contents; `Eof` reports normal completion, not a failure, and callers
    /// drain a stream by calling this until it comes. The buffer must have
    /// room for the frame — the underlying copy refuses a short buffer.
    pub fn read_next_as_samples(&mut self, dst: &mut SampleBuffer) -> (r: Result<
        ReadOutcome,
        AudioError,
    >)
        requires
            match next_frame(
                old(self).format_reader.packets@,
                old(self).format_reader.pos as int,
                old(self).track_id,
            ) {
                Some(f) => f.1.len() <= old(dst).capacity_spec(),
                None => true,
            },
        ensures
            final(self).format_reader.tracks@ == old(self).format_reader.tracks@,
            final(self).format_reader.packets@ == old(self).format_reader.packets@,
            final(self).decoder == old(self).decoder,
            final(self).track_id == old(self).track_id,
            final(dst).capacity_spec() == old(dst).capacity_spec(),
            match next_frame(
                old(self).format_reader.packets@,
                old(self).format_reader.pos as int,
                old(self).track_id,
            ) {
                None => (r matches Ok(o) && o is Eof) && final(dst).samples_spec()
                    == old(dst).samples_spec() && final(self).format_reader.pos
                    == final(self).format_reader.packets@.len(),
                Some(f) => (r matches Ok(o) && (o matches ReadOutcome::Read(n) && n == f.1.len()))
                    && final(dst).samples_spec() == f.1 && final(self).format_reader.pos == f.0,
            },
    {
        match self.consume_next() {
            Ok(ConsumeOutcome::Frame(samples)) => {
                let n = samples.len();
                dst.samples = samples;
                Ok(ReadOutcome::Read(n))
            },
            Ok(ConsumeOutcome::Eof) => Ok(ReadOutcome::Eof),
            Err(e) => Err(e),
        }
    }
}

/// A stream every packet of which belongs to `track_id` and decodes cleanly.
pub open spec fn stream_wf(packets: Seq<Packet>, track_id: u32) -> bool {
    forall|i: int|
        0 <= i < packets.len() ==> (#[trigger] packets[i]).track_id == track_id
            && packets[i].payload@.len() % 4 == 0
}

/// The sample count carried by the packets from `pos` on.
pub open spec fn total_samples_from(packets: Seq<Packet>, pos: int) -> int
    decreases packets.len() - pos,
{
    if pos < 0 || pos >= packets.len() {
        0
    } else {
        packets[pos].payload@.len() / 4 + total_samples_from(packets, pos + 1)
    }
}

/// Decode completeness: a well-formed stream of packets carrying K samples
/// in total yields exactly those K samples and then the end of the stream,
/// never an error; no packet is dropped and none is read twice.
pub proof fn lemma_decode_completeness(packets: Seq<Packet>, pos: int, track_id: u32)
    requires
        stream_wf(packets, track_id),
        0 <= pos <= packets.len(),
    ensures
        remaining_samples(packets, pos, track_id).len() == total_samples_from(packets, pos),
    decreases packets.len() - pos,
{
    if pos < packets.len() {
        lemma_decode_completeness(packets, pos + 1, track_id);
        assert(packets[pos].track_id == track_id && packets[pos].payload@.len() % 4 == 0);
        let ss = decode_pcm_spec(packets[pos].payload@).unwrap();
        assert(next_frame(packets, pos, track_id) == Some((pos + 1, ss)));
        assert(remaining_samples(packets, pos, track_id) == ss + remaining_samples(
            packets,
            pos + 1,
            track_id,
        ));
    }
}

/// Sample-aligned payload bytes decode back to exactly their samples.
pub proof fn lemma_decode_of_sample_bytes(samples: Seq<u32>)
    ensures
        decode_pcm_spec(sample_bytes(samples)) == Some(samples),
{
    let payload = sample_bytes(samples);
    assert(payload.len() == samples.len() * 4);
    assert(payload.len() % 4 == 0) by {
        vstd::arithmetic::div_mod::lemma_mod_multiples_basic(samples.len() as int, 4);
    };
    assert(payload.len() / 4 == samples.len()) by {
        vstd::arithmetic::div_mod::lemma_div_by_multiple(samples.len() as int, 4);
    };
    let decoded = decode_pcm_spec(payload).unwrap();
    assert forall|i: int| 0 <= i < samples.len() implies decoded[i] == samples[i] by {
        lemma_sample_at(samples, i);
    }
    assert(decoded =~= samples);
}

impl FormatSource {
    /// Reads a demuxed source out of a canonical waveform container: one
    /// track (id 0) whose codec parameters mirror the container's header, and
    /// the samples as the packet stream. A byte string that is no canonical
    /// container is rejected as an I/O-level failure.
    pub fn from_wave(bytes: &Vec<u8>) -> (r: Result<Self, AudioError>)
        ensures
            parse_wave_spec(bytes@) is None ==> r == Result::<Self, AudioError>::Err(
                AudioError::IoError,
            ),
            parse_wave_spec(bytes@) matches Some(parsed) ==> (r matches Ok(fs) && {
                &&& fs.tracks@.len() == 1
                &&& fs.tracks@[0].id == 0
                &&& fs.tracks@[0].codec_params == (CodecParameters {
                    codec: parsed.0.format_tag,
                    sample_rate: Some(parsed.0.rate),
                    channels: Some(parsed.0.channels),
                })
                &&& fs.pos == 0
                &&& stream_wf(fs.packets@, 0)
                &&& remaining_samples(fs.packets@, 0, 0) == parsed.1
            }),
    {
        let (sp, samples) = match parse_wave(bytes) {
            Some(parsed) => parsed,
            None => {
                return Err(AudioError::IoError);
            },
        };
        let n = samples.len();
        let mut payload: Vec<u8> = Vec::new();
        let mut i: usize = 0;
        proof {
            assert(payload@ =~= sample_bytes(samples@.take(0)));
        }
        while i < n
            invariant
                i <= n,
                n == samples@.len(),
                payload@ =~= sample_bytes(samples@.take(i as int)),
            decreases n - i,
        {
            let x = samples[i];
            payload.push((x % 256) as u8);
            payload.push(((x / 256) % 256) as u8);
            payload.push(((x / 65536) % 256) as u8);
            payload.push(((x / 16777216) % 256) as u8);
            proof {
                assert forall|k: int|
                    0 <= k < sample_bytes(samples@.take(i as int + 1)).len() implies sample_bytes(
                    samples@.take(i as int + 1),
                )[k] == payload@[k] by {
                    vstd::arithmetic::div_mod::lemma_fundamental_div_mod(k, 4);
                }
                assert(payload@ =~= sample_bytes(samples@.take(i as int + 1)));
            }
            i = i + 1;
        }
        proof {
            assert(samples@.take(n as int) =~= samples@);
        }
        let packet = Packet { track_id: 0, payload };
        let mut packets: Vec<Packet> = Vec::new();
        packets.push(packet);
        let info = TrackInfo {
            id: 0,
            codec_params: CodecParameters {
                codec: sp.format_tag,
                sample_rate: Some(sp.rate),
                channels: Some(sp.channels),
            },
        };
        let mut tracks: Vec<TrackInfo> = Vec::new();
        tracks.push(info);
        proof {
            lemma_decode_of_sample_bytes(samples@);
            assert(packets@[0].payload@ == sample_bytes(samples@));
            assert(packets@[0].payload@.len() % 4 == 0);
            assert(next_frame(packets@, 0, 0) == Some((1int, samples@)));
            assert(next_frame(packets@, 1, 0) is None);
            assert(remaining_samples(packets@, 1, 0) =~= Seq::<u32>::empty());
            assert(remaining_samples(packets@, 0, 0) =~= samples@);
        }
        Ok(FormatSource { tracks, packets, pos: 0 })
    }
}

} // verus!

