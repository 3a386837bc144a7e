use file_streamer::reader::{handoff_due, FileSlot, Reader, StepOutcome};
use file_streamer::source::{MemorySource, SourceError};
use file_streamer::streamer::{FileStreamer, StreamingError};
use file_streamer::timeline::Entry;

const B: u32 = 4;

fn target(channels: u32) -> Vec<Vec<i32>> {
    (0..channels).map(|_| vec![99i32; B as usize]).collect()
}

fn mono_engine(
    samples_per_file: Vec<Vec<i32>>,
    entries: Vec<Entry>,
) -> (FileStreamer, Reader<MemorySource>) {
    let files: Vec<FileSlot<MemorySource>> = samples_per_file
        .into_iter()
        .map(|s| FileSlot {
            source: MemorySource::new(vec![s]),
            channel_map: vec![Some(0)],
        })
        .collect();
    FileStreamer::new(entries, files, B, 1, 2)
}

fn empty_engine() -> (FileStreamer, Reader<MemorySource>) {
    mono_engine(vec![], vec![])
}

// Polls `seek` with interleaved reader steps until the handshake completes,
// returning how many polls it took.
fn poll_seek(
    streamer: &mut FileStreamer,
    reader: &mut Reader<MemorySource>,
    frame: u64,
) -> Result<u32, SourceError> {
    for polls in 1..100u32 {
        if streamer.seek(frame) {
            return Ok(polls);
        }
        reader.step()?;
        reader.step()?;
    }
    panic!("seek handshake did not converge");
}

#[test]
fn seek_handshake_converges_within_lookahead() {
    let (mut streamer, mut reader) = empty_engine();
    // Two blocks of look-ahead at two reader steps per poll: the second
    // poll must adopt the pre-buffered consumer.
    let polls = poll_seek(&mut streamer, &mut reader, 0).unwrap();
    assert!(polls <= 2, "took {polls} polls");
}

#[test]
fn seek_to_current_position_is_idempotent() {
    let (mut streamer, mut reader) = empty_engine();
    poll_seek(&mut streamer, &mut reader, 0).unwrap();
    // Already Playing(0): immediate success, and the queued data is left
    // alone — the next data request still sees the first block.
    assert!(streamer.seek(0));
    assert!(streamer.seek(0));
    let mut out = target(1);
    assert_eq!(streamer.get_data(&mut out, true), Ok(()));
}

#[test]
fn silent_timeline_plays_silence() {
    let (mut streamer, mut reader) = empty_engine();
    poll_seek(&mut streamer, &mut reader, 0).unwrap();
    let mut out = target(1);
    assert_eq!(streamer.get_data(&mut out, true), Ok(()));
    assert_eq!(out, vec![vec![0, 0, 0, 0]]);
}

#[test]
fn paused_request_before_seek_is_silent_success() {
    let (mut streamer, _reader) = empty_engine();
    let mut out = target(1);
    assert_eq!(streamer.get_data(&mut out, false), Ok(()));
    assert_eq!(out, vec![vec![0, 0, 0, 0]]);
}

#[test]
fn rolling_request_before_seek_reports_incomplete_seek() {
    let (mut streamer, _reader) = empty_engine();
    let mut out = target(1);
    assert_eq!(
        streamer.get_data(&mut out, true),
        Err(StreamingError::IncompleteSeek)
    );
    assert_eq!(out, vec![vec![0, 0, 0, 0]]);
}

#[test]
fn underrun_yields_empty_buffer_and_silence() {
    let (mut streamer, mut reader) = empty_engine();
    poll_seek(&mut streamer, &mut reader, 0).unwrap();
    let mut out = target(1);
    // Two blocks of look-ahead were queued; drain them, then hit the
    // empty queue without letting the reader catch up.
    assert_eq!(streamer.get_data(&mut out, true), Ok(()));
    assert_eq!(streamer.get_data(&mut out, true), Ok(()));
    out = vec![vec![7, 7, 7, 7]];
    assert_eq!(
        streamer.get_data(&mut out, true),
        Err(StreamingError::EmptyBuffer)
    );
    assert_eq!(out, vec![vec![0, 0, 0, 0]]);
}

#[test]
fn seeking_while_rolling_is_detected() {
    let (mut streamer, mut reader) = empty_engine();
    poll_seek(&mut streamer, &mut reader, 0).unwrap();
    let mut out = target(1);
    assert_eq!(streamer.get_data(&mut out, true), Ok(()));
    // A seek during rolling playback is deferred...
    assert!(!streamer.seek(100));
    // ...and asking for rolling data in that state is a misuse.
    assert_eq!(
        streamer.get_data(&mut out, true),
        Err(StreamingError::SeekWhileRolling)
    );
    assert_eq!(out, vec![vec![0, 0, 0, 0]]);
}

#[test]
fn fade_in_steady_fade_out_shapes_the_stream() {
    let entries = vec![Entry { idx: 0, begin: 0, duration: 16 }];
    let (mut streamer, mut reader) = mono_engine(vec![vec![8; 16]], entries);
    poll_seek(&mut streamer, &mut reader, 0).unwrap();
    let mut out = target(1);

    // First rolling block after silence: fade-in, gains [1/4, 2/4, 3/4, 1].
    assert_eq!(streamer.get_data(&mut out, true), Ok(()));
    assert_eq!(out, vec![vec![2, 4, 6, 8]]);

    // Steady rolling: straight copy.
    assert_eq!(streamer.get_data(&mut out, true), Ok(()));
    assert_eq!(out, vec![vec![8, 8, 8, 8]]);

    // Pause: fade-out, gains [1, 3/4, 2/4, 1/4].
    reader.step().unwrap();
    assert_eq!(streamer.get_data(&mut out, false), Ok(()));
    assert_eq!(out, vec![vec![8, 6, 4, 2]]);

    // Paused afterwards: silence.
    assert_eq!(streamer.get_data(&mut out, false), Ok(()));
    assert_eq!(out, vec![vec![0, 0, 0, 0]]);
}

#[test]
fn deferred_seek_is_issued_after_the_fade_out() {
    let entries = vec![Entry { idx: 0, begin: 0, duration: 1000 }];
    let (mut streamer, mut reader) = mono_engine(vec![vec![8; 1000]], entries);
    poll_seek(&mut streamer, &mut reader, 0).unwrap();
    let mut out = target(1);
    assert_eq!(streamer.get_data(&mut out, true), Ok(()));
    assert_eq!(streamer.get_data(&mut out, true), Ok(()));

    // A seek during rolling playback is deferred until the fade-out.
    assert!(!streamer.seek(100));
    reader.step().unwrap();
    assert_eq!(streamer.get_data(&mut out, false), Ok(()));
    // The fade-out still delivered the queued block...
    assert_eq!(out, vec![vec![8, 6, 4, 2]]);
    // ...and the re-seek was issued internally: polling completes it.
    let polls = poll_seek(&mut streamer, &mut reader, 100).unwrap();
    assert!(polls <= 3, "took {polls} polls");
    // Playback now starts at frame 100 with a fresh fade-in.
    assert_eq!(streamer.get_data(&mut out, true), Ok(()));
    assert_eq!(out, vec![vec![2, 4, 6, 8]]);
}

#[test]
fn entry_starting_mid_block_is_offset_and_faded() {
    let entries = vec![Entry { idx: 0, begin: 2, duration: 4 }];
    let (mut streamer, mut reader) = mono_engine(vec![vec![10, 10, 10, 10]], entries);
    poll_seek(&mut streamer, &mut reader, 0).unwrap();
    let mut out = target(1);
    // Fade-in over [0, 0, 10, 10]: gains [1/4, 2/4, 3/4, 1].
    assert_eq!(streamer.get_data(&mut out, true), Ok(()));
    assert_eq!(out, vec![vec![0, 0, 7, 10]]);
    // Steady: the remaining two frames, then past the end of the file.
    assert_eq!(streamer.get_data(&mut out, true), Ok(()));
    assert_eq!(out, vec![vec![10, 10, 0, 0]]);
}

#[test]
fn overlapping_entries_mix_additively() {
    let entries = vec![
        Entry { idx: 0, begin: 0, duration: 8 },
        Entry { idx: 1, begin: 0, duration: 8 },
    ];
    let (mut streamer, mut reader) = mono_engine(vec![vec![3; 8], vec![4; 8]], entries);
    poll_seek(&mut streamer, &mut reader, 0).unwrap();
    let mut out = target(1);
    assert_eq!(streamer.get_data(&mut out, true), Ok(()));
    // Fade-in over the mixed [7, 7, 7, 7].
    assert_eq!(out, vec![vec![1, 3, 5, 7]]);
    assert_eq!(streamer.get_data(&mut out, true), Ok(()));
    assert_eq!(out, vec![vec![7, 7, 7, 7]]);
}

#[test]
fn mixing_saturates_instead_of_wrapping() {
    let entries = vec![
        Entry { idx: 0, begin: 0, duration: 8 },
        Entry { idx: 1, begin: 0, duration: 8 },
    ];
    let (mut streamer, mut reader) =
        mono_engine(vec![vec![i32::MAX; 8], vec![1; 8]], entries);
    poll_seek(&mut streamer, &mut reader, 0).unwrap();
    let mut out = target(1);
    assert_eq!(streamer.get_data(&mut out, true), Ok(()));
    assert_eq!(streamer.get_data(&mut out, true), Ok(()));
    assert_eq!(out, vec![vec![i32::MAX; 4]]);
}

#[test]
fn seek_to_prebuffered_position_repeats_it() {
    // After playback went past frame 0, seeking back to 0 drains and
    // refills the queue: the same first block plays again.
    let entries = vec![Entry { idx: 0, begin: 0, duration: 16 }];
    let samples: Vec<i32> = (1..=16).collect();
    let (mut streamer, mut reader) = mono_engine(vec![samples], entries);
    poll_seek(&mut streamer, &mut reader, 0).unwrap();
    let mut out = target(1);
    assert_eq!(streamer.get_data(&mut out, true), Ok(()));
    assert_eq!(streamer.get_data(&mut out, true), Ok(()));
    assert_eq!(out, vec![vec![5, 6, 7, 8]]);
    reader.step().unwrap();
    assert_eq!(streamer.get_data(&mut out, false), Ok(()));

    let polls = poll_seek(&mut streamer, &mut reader, 4).unwrap();
    assert!(polls <= 3, "took {polls} polls");
    assert_eq!(streamer.get_data(&mut out, true), Ok(()));
    // Fade-in over frames 4..8, i.e. samples [5, 6, 7, 8].
    assert_eq!(out, vec![vec![1, 3, 5, 8]]);
}

#[test]
fn channels_reports_the_configuration() {
    let files: Vec<FileSlot<MemorySource>> = vec![];
    let (streamer, _reader) = FileStreamer::new(vec![], files, 8, 3, 2);
    assert_eq!(streamer.channels(), 3);
}

#[test]
fn reader_reports_queue_full_when_saturated() {
    let (_streamer, mut reader) = empty_engine();
    // Capacity is two blocks; the third fill finds no room.
    assert_eq!(reader.step(), Ok(StepOutcome::Filled));
    assert_eq!(reader.step(), Ok(StepOutcome::Filled));
    assert_eq!(reader.step(), Ok(StepOutcome::NoRoom));
}

#[test]
fn multichannel_blocks_keep_channels_apart() {
    let files = vec![FileSlot {
        source: MemorySource::new(vec![vec![4; 8], vec![8; 8]]),
        channel_map: vec![Some(1), Some(0)],
    }];
    let entries = vec![Entry { idx: 0, begin: 0, duration: 8 }];
    let (mut streamer, mut reader) = FileStreamer::new(entries, files, B, 2, 2);
    poll_seek(&mut streamer, &mut reader, 0).unwrap();
    let mut out = target(2);
    assert_eq!(streamer.get_data(&mut out, true), Ok(()));
    assert_eq!(streamer.get_data(&mut out, true), Ok(()));
    // File channel 0 (all 4) routes to output 1 and vice versa.
    assert_eq!(out, vec![vec![8, 8, 8, 8], vec![4, 4, 4, 4]]);
}

#[test]
fn handoff_threshold_is_buffer_blocks_of_lookahead() {
    // Two blocks of four frames: due exactly from eight frames of look-ahead.
    assert!(!handoff_due(7, 0, 2, 4));
    assert!(handoff_due(8, 0, 2, 4));
    assert!(handoff_due(108, 100, 2, 4));
    assert!(!handoff_due(107, 100, 2, 4));
    assert!(handoff_due(0, 0, 0, 4));
}

#[test]
fn superseded_seek_completes_to_the_new_target() {
    // A second seek issued while a request is in flight keeps polling: the
    // in-flight hand-off completes first, then the new target goes out.
    let entries = vec![Entry { idx: 0, begin: 0, duration: 1000 }];
    let (mut streamer, mut reader) = mono_engine(vec![vec![8; 1000]], entries);
    poll_seek(&mut streamer, &mut reader, 0).unwrap();

    // Sends the consumer towards frame 400...
    assert!(!streamer.seek(400));
    // ...and immediately retargets to 800 before the reader was driven.
    let polls = poll_seek(&mut streamer, &mut reader, 800).unwrap();
    assert!(polls <= 5, "took {polls} polls");
    let mut out = target(1);
    assert_eq!(streamer.get_data(&mut out, true), Ok(()));
    assert_eq!(out, vec![vec![2, 4, 6, 8]]);
}

#[test]
fn single_block_lookahead_converges() {
    let files: Vec<FileSlot<MemorySource>> = vec![];
    let (mut streamer, mut reader) = FileStreamer::new(vec![], files, 4, 1, 1);
    // The reader pre-buffers frame 0 first; one recycle round retargets it.
    let polls = poll_seek(&mut streamer, &mut reader, 12).unwrap();
    assert!(polls <= 3, "took {polls} polls");
    let mut out = target(1);
    assert_eq!(streamer.get_data(&mut out, true), Ok(()));
    assert_eq!(out, vec![vec![0, 0, 0, 0]]);
}

#[test]
fn unrouted_output_channels_stay_silent() {
    // One file channel, routed only to output 1: output 0 must keep its
    // zero initialization through steady playback.
    let files = vec![FileSlot {
        source: MemorySource::new(vec![vec![5; 8]]),
        channel_map: vec![Some(1)],
    }];
    let entries = vec![Entry { idx: 0, begin: 0, duration: 8 }];
    let (mut streamer, mut reader) = FileStreamer::new(entries, files, B, 2, 2);
    poll_seek(&mut streamer, &mut reader, 0).unwrap();
    let mut out = target(2);
    assert_eq!(streamer.get_data(&mut out, true), Ok(()));
    assert_eq!(streamer.get_data(&mut out, true), Ok(()));
    assert_eq!(out, vec![vec![0, 0, 0, 0], vec![5, 5, 5, 5]]);
}

#[test]
fn fill_block_of_empty_timeline_is_shaped_silence() {
    let (_streamer, mut reader) = empty_engine();
    let block = reader.fill_block().unwrap();
    assert_eq!(block, vec![vec![0, 0, 0, 0]]);
}
