use humla::capture::{
    chunk_file_name, full_file_name, parse_command, parse_mode, parse_out_dir, wav_spec,
    ChunkOutcome, ChunkTracker, Command, FullOutcome, FullRecordingTracker, Mode, TARGET_RATE,
};
use humla::diarize::{mono_16k_encoding, SampleEncoding};

fn args(a: &[&str]) -> Vec<String> {
    a.iter().map(|s| s.to_string()).collect()
}

#[test]
fn chunk_names_are_zero_padded() {
    assert_eq!(chunk_file_name("mic", 1), "mic-chunk-0001.wav");
    assert_eq!(chunk_file_name("sys", 42), "sys-chunk-0042.wav");
    assert_eq!(chunk_file_name("mic", 9999), "mic-chunk-9999.wav");
    assert_eq!(chunk_file_name("mic", 12345), "mic-chunk-12345.wav");
    assert_eq!(chunk_file_name("mic", 0), "mic-chunk-0000.wav");
    assert_eq!(chunk_file_name("mic", u32::MAX), "mic-chunk-4294967295.wav");
    for i in [3u32, 70, 100, 1000, 10000, 100000] {
        assert_eq!(chunk_file_name("sys", i), format!("sys-chunk-{:04}.wav", i));
    }
}

#[test]
fn full_recording_names() {
    assert_eq!(full_file_name("mic"), "mic-full.wav");
    assert_eq!(full_file_name("sys"), "sys-full.wav");
}

#[test]
fn written_format_is_readable_by_diarizer() {
    let f = wav_spec();
    assert_eq!(f.channels, 1);
    assert_eq!(f.sample_rate, TARGET_RATE);
    assert_eq!(f.bits_per_sample, 16);
    assert!(!f.float_samples);
    assert_eq!(
        mono_16k_encoding(f.sample_rate, f.channels, f.float_samples, f.bits_per_sample),
        Ok(SampleEncoding::Int16)
    );
}

#[test]
fn modes() {
    assert_eq!(parse_mode(&args(&["audio-capture", "status"])), Mode::Status);
    assert_eq!(parse_mode(&args(&["audio-capture", "request-microphone"])), Mode::RequestMicrophone);
    assert_eq!(parse_mode(&args(&["audio-capture", "request-screen"])), Mode::RequestScreen);
    assert_eq!(parse_mode(&args(&["audio-capture", "--out", "x"])), Mode::Record);
    assert_eq!(parse_mode(&args(&["audio-capture"])), Mode::Record);
    assert_eq!(parse_mode(&args(&["status"])), Mode::Record);
}

#[test]
fn out_dir_argument() {
    assert_eq!(parse_out_dir(&args(&["p", "--out", "/tmp/rec"])), Some("/tmp/rec".to_string()));
    assert_eq!(parse_out_dir(&args(&["p", "--out"])), None);
    assert_eq!(parse_out_dir(&args(&["p"])), None);
    assert_eq!(parse_out_dir(&args(&["p", "x", "--out", "a", "--out", "b"])), Some("a".to_string()));
    assert_eq!(parse_out_dir(&args(&["p", "--out", "--out", "b"])), Some("--out".to_string()));
}

#[test]
fn stdin_commands() {
    assert_eq!(parse_command("pause"), Command::Pause);
    assert_eq!(parse_command("resume"), Command::Resume);
    assert_eq!(parse_command("stop"), Command::Stop);
    assert_eq!(parse_command("Stop"), Command::Unknown);
    assert_eq!(parse_command("quit"), Command::Unknown);
}

#[test]
fn chunk_rotates_on_pause_after_minimum() {
    // 1 s minimum, 15 s maximum, 500 ms pause at 16 kHz
    let mut t = ChunkTracker::new(16_000, 240_000, 8_000);
    assert!(!t.is_open());
    assert_eq!(t.next_index(), 1);
    t.chunk_opened();
    // loud speech for 0.5 s, then a long pause: too short to rotate
    assert!(!t.record_buffer(7_000, true, true));
    assert!(!t.record_buffer(8_000, false, false));
    // reaching the minimum with the pause long enough rotates
    assert!(t.record_buffer(1_100, false, false));
    assert_eq!(t.finish_chunk(), ChunkOutcome::Keep { start_frames: 0 });
    assert!(!t.is_open());
    assert_eq!(t.next_index(), 2);
    t.chunk_opened();
    assert_eq!(t.chunk_start_frames, 16_100);
}

#[test]
fn voice_resets_the_pause() {
    let mut t = ChunkTracker::new(10, 1_000, 5);
    t.next_index();
    t.chunk_opened();
    assert!(!t.record_buffer(4, false, false));
    assert!(!t.record_buffer(4, true, true));
    assert_eq!(t.silent_run, 0);
    assert!(!t.record_buffer(4, false, false));
    assert!(t.record_buffer(1, false, false));
}

#[test]
fn chunk_rotates_at_maximum_even_while_talking() {
    let mut t = ChunkTracker::new(16_000, 240_000, 8_000);
    t.next_index();
    t.chunk_opened();
    for _ in 0..14 {
        assert!(!t.record_buffer(16_000, true, true));
    }
    assert!(t.record_buffer(16_000, true, true));
    assert_eq!(t.written, 240_000);
}

#[test]
fn quiet_chunks_are_discarded() {
    let mut t = ChunkTracker::new(1, 100, 1);
    t.next_index();
    t.chunk_opened();
    assert!(t.record_buffer(10, false, false));
    assert_eq!(t.finish_chunk(), ChunkOutcome::Discard);
    // an opened but empty chunk is discarded too
    t.next_index();
    t.chunk_opened();
    assert_eq!(t.finish_chunk(), ChunkOutcome::Discard);
}

#[test]
fn chunk_starts_count_all_earlier_frames() {
    let mut t = ChunkTracker::new(1, 10, 100);
    t.next_index();
    t.chunk_opened();
    assert!(t.record_buffer(10, true, false));
    assert_eq!(t.finish_chunk(), ChunkOutcome::Discard);
    t.next_index();
    t.chunk_opened();
    assert!(t.record_buffer(12, true, true));
    assert_eq!(t.finish_chunk(), ChunkOutcome::Keep { start_frames: 10 });
    assert_eq!(t.total_frames_written, 22);
}

#[test]
fn silent_run_saturates() {
    let mut t = ChunkTracker::new(0, u32::MAX, u32::MAX);
    t.next_index();
    t.chunk_opened();
    t.silent_run = u32::MAX - 1;
    assert!(t.record_buffer(5, false, false));
    assert_eq!(t.silent_run, u32::MAX);
}

#[test]
fn lost_chunk_keeps_counters_until_next_open() {
    let mut t = ChunkTracker::new(1, 100, 100);
    t.next_index();
    t.chunk_opened();
    t.record_buffer(7, true, true);
    t.chunk_lost();
    assert!(!t.is_open());
    assert_eq!(t.written, 7);
    t.next_index();
    t.chunk_opened();
    assert_eq!(t.written, 0);
    assert_eq!(t.chunk_start_frames, 7);
    assert_eq!(t.index, 2);
}

#[test]
fn full_recording_outcomes() {
    let mut f = FullRecordingTracker::new();
    assert_eq!(f.close(), FullOutcome::Nothing);
    f.opened();
    assert_eq!(f.close(), FullOutcome::Discard);
    f.opened();
    f.record(16_000);
    f.record(8_000);
    assert_eq!(f.close(), FullOutcome::Keep { frames: 24_000 });
    assert!(!f.is_open());
    // the frame count carries over if the writer is used again
    f.opened();
    f.record(1);
    assert_eq!(f.close(), FullOutcome::Keep { frames: 24_001 });
}

/// Drives a tracker the way the chunk writer does and returns, for each
/// finalized chunk, its number, its length, its outcome and whether a
/// rotation ended it.
fn drive(
    t: &mut ChunkTracker,
    buffers: &[(u32, bool, bool)],
    close: bool,
) -> Vec<(u32, u32, ChunkOutcome, bool)> {
    let mut out = Vec::new();
    let mut current = 0u32;
    for &(n, voice, loud) in buffers {
        if n == 0 {
            continue;
        }
        if !t.is_open() {
            current = t.next_index();
            t.chunk_opened();
        }
        if t.record_buffer(n, voice, loud) {
            let written = t.written;
            let outcome = t.finish_chunk();
            out.push((current, written, outcome, true));
            current = t.next_index();
            t.chunk_opened();
        }
    }
    if close && t.is_open() {
        let written = t.written;
        let outcome = t.finish_chunk();
        out.push((current, written, outcome, false));
    }
    out
}

#[test]
fn writer_run_numbers_starts_and_keeps() {
    // minimum 10 frames, cap 30, pause of 6 quiet frames; buffers of at most 8
    let mut t = ChunkTracker::new(10, 30, 6);
    let buffers = [
        (8, true, true),
        (0, false, false),
        (4, false, false),
        (3, false, false), // 15 frames, quiet run 7: pause rotation
        (8, false, false),
        (8, false, false), // 16 frames, quiet run 16: pause rotation, nothing loud
        (8, true, true),
        (8, true, false),
        (8, true, false),
        (8, true, false), // 32 frames: cap rotation
        (5, true, true),
    ];
    let chunks = drive(&mut t, &buffers, true);
    assert_eq!(
        chunks,
        vec![
            (1, 15, ChunkOutcome::Keep { start_frames: 0 }, true),
            (2, 16, ChunkOutcome::Discard, true),
            (3, 32, ChunkOutcome::Keep { start_frames: 31 }, true),
            (4, 5, ChunkOutcome::Keep { start_frames: 63 }, false),
        ]
    );
    // every frame lies in one chunk
    assert_eq!(t.total_frames_written, 68);
    assert_eq!(t.index, 4);
    for &(_, len, _, rotated) in &chunks {
        if rotated {
            assert!(10 <= len && len <= 30 + 8 - 1);
        } else {
            assert!(len < 30);
        }
    }
}

#[test]
fn writer_run_close_after_rotation_discards_empty_chunk() {
    let mut t = ChunkTracker::new(1, 4, 100);
    let chunks = drive(&mut t, &[(4, true, true)], true);
    assert_eq!(
        chunks,
        vec![
            (1, 4, ChunkOutcome::Keep { start_frames: 0 }, true),
            (2, 0, ChunkOutcome::Discard, false),
        ]
    );
    // a later write opens chunk 3, starting after the four frames
    let more = drive(&mut t, &[(2, true, true)], true);
    assert_eq!(more, vec![(3, 2, ChunkOutcome::Keep { start_frames: 4 }, false)]);
}

#[test]
fn rotation_length_stays_within_bounds() {
    // cap 100, buffers of at most 40: a chunk at 99 frames rotates at 139
    let mut t = ChunkTracker::new(50, 100, 1_000);
    t.next_index();
    t.chunk_opened();
    assert!(!t.record_buffer(40, true, true));
    assert!(!t.record_buffer(40, true, true));
    assert!(!t.record_buffer(19, true, true));
    assert!(t.record_buffer(40, true, true));
    assert_eq!(t.written, 139);
    assert!(t.written <= 100 + 40 - 1);
}

#[test]
fn writer_run_with_zero_cap_rotates_every_buffer() {
    // a cap of 0 frames ends a chunk after every buffer; numbering, starts
    // and keeping work as for any other cap
    let mut t = ChunkTracker::new(0, 0, 0);
    let chunks = drive(&mut t, &[(3, true, true), (2, false, false), (4, false, true)], true);
    assert_eq!(
        chunks,
        vec![
            (1, 3, ChunkOutcome::Keep { start_frames: 0 }, true),
            (2, 2, ChunkOutcome::Discard, true),
            (3, 4, ChunkOutcome::Keep { start_frames: 5 }, true),
            (4, 0, ChunkOutcome::Discard, false),
        ]
    );
    assert_eq!(t.total_frames_written, 9);
}
