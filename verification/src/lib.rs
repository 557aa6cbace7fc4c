//! The core of a personal audio server: a pull-based decode session over
//! demuxed packet streams, a multi-backend track library with a read-through
//! cache, a canonical waveform container, and a windowed transform pipeline
//! with bounded queues between its stages. Every function here carries a
//! contract; the surrounding process (I/O, the network gateway, codec
//! plumbing) lives in the application crate next door.

mod audio;
mod audio_compression;
mod audio_source;
mod container;
mod fs_provider;
mod gateway;
mod library;
mod pipeline;
mod playback;
mod provider;
pub mod providers;
mod storage;
mod text;

pub use audio::{
    decode_pcm_spec, lemma_decode_completeness, lemma_decode_of_sample_bytes,
    lemma_next_frame_bounds, next_frame, remaining_samples, signal_spec_of, stream_wf,
    total_samples_from, AudioError, AudioReader, CodecParameters, ConsumeOutcome, DecoderOptions,
    DecoderRegistry, FormatSource, Packet, PcmDecoder, ReadOutcome, SampleBuffer, SignalSpec,
    TrackInfo,
};
pub use audio_compression::AudioCompression;
pub use audio_source::AudioSource;
pub use container::{
    byte0, byte1, byte2, byte3, encode_wave, encode_wave_spec, lemma_wave_round_trip, parse_wave,
    parse_wave_spec, rd16, rd32, sample_bytes, stored_samples, wave_header, wave_wf, WaveSpec,
};
pub use fs_provider::{reader_reads, reader_samples, wave_spec_of_reader, FsAudioProvider};
pub use gateway::{hex_digit_spec, parse_hex_id, parse_hex_partial, parse_hex_spec, HttpGateway};
pub use library::{
    all_answering, cache_with, cached_answer, first_blob_holder, lemma_get_track_idempotent,
    lemma_merged_prefix, lemma_merged_push, lemma_query_stability, merged_responses, models_of,
    readable_name_index, writeable_name_index, AudioLibrary, AudioLibraryBuilder, AudioProvider,
    BlobProvider, NamedReadable, NamedWriteable, ReadableBlobProvider, StorageBackend,
    WriteableBlobProvider,
};
pub use pipeline::{
    apply_filter, context_wf, filter_sample, lemma_backpressure_bound, lemma_pipeline_concat,
    lemma_pipeline_identity, lemma_pipeline_len, pipeline_output, stage_output, stage_sample,
    AudioPipeline, BoundedQueue, FilterKind, Stage, TransformContext, TransformPipeline,
};
pub use playback::{
    current_track_spec, enqueue_index, notes_for, playback_wf, skip_target, Notification,
    ObservablePlaybackState, PlaybackEvent, PlaybackState,
};
pub use provider::{ProviderError, ProviderObject, ReadableProvider, WriteableProvider};
pub use storage::{
    find_index, find_track, matching_tracks, paged, query_spec, track_matches, upsert_all,
    upsert_track, AudioStorage, FSAudioStorage, Track, TrackQuery,
};
pub use text::{contains_bytes, is_substring_of, lower_bytes, matches_at};
