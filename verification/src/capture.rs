//! Decisions of the audio-capture sidecar: the command line and stdin
//! commands it understands, the names and format of the WAV files it writes,
//! and the bookkeeping of its two writers.
//!
//! The chunk writer cuts the recording of one source into files at natural
//! speech pauses: a chunk rotates once it holds at least the minimum number
//! of frames and the trailing run of quiet buffers reached the pause length,
//! or unconditionally once it reaches the maximum number of frames. A chunk
//! in which no buffer was loud enough is discarded rather than handed on.
//! The full-recording writer keeps every frame of a source in one file.
//!
//! How loud a buffer is gets measured by the caller (the samples are floating
//! point); the trackers here receive the outcome of those comparisons.

use vstd::prelude::*;
use vstd::string::StringExecFns;
use crate::text::str_eq;

verus! {

/// Sample rate of every file the capture sidecar writes.
pub const TARGET_RATE: u32 = 16_000;

/// Shape of the WAV files the capture sidecar writes.
#[derive(Debug, Clone, Copy, PartialEq, Eq, Structural)]
pub struct WavFormat {
    pub channels: u16,
    pub sample_rate: u32,
    pub bits_per_sample: u16,
    pub float_samples: bool,
}

/// 16-bit integer PCM, mono, at `TARGET_RATE`.
pub open spec fn capture_format() -> WavFormat {
    WavFormat { channels: 1, sample_rate: TARGET_RATE, bits_per_sample: 16, float_samples: false }
}

/// The shape of the WAV files the capture sidecar writes.
pub fn wav_spec() -> (r: WavFormat)
    ensures
        r == capture_format(),
{
    WavFormat { channels: 1, sample_rate: TARGET_RATE, bits_per_sample: 16, float_samples: false }
}

/// What the capture sidecar writes, the diarizer reads: the WAV shape of the
/// recordings passes the diarizer's input check as 16-bit integer samples.
pub proof fn law_capture_format_is_diarizable()
    ensures
        crate::diarize::wav_verdict(
            capture_format().sample_rate,
            capture_format().channels,
            capture_format().float_samples,
            capture_format().bits_per_sample,
        ) == Ok::<crate::diarize::SampleEncoding, crate::diarize::WavFormatError>(
            crate::diarize::SampleEncoding::Int16,
        ),
{
}

// ---------------------------------------------------------------------------
// File names
// ---------------------------------------------------------------------------

/// The decimal digit `d` as text.
pub open spec fn digit_text(d: int) -> Seq<char> {
    if d == 0 {
        "0"@
    } else if d == 1 {
        "1"@
    } else if d == 2 {
        "2"@
    } else if d == 3 {
        "3"@
    } else if d == 4 {
        "4"@
    } else if d == 5 {
        "5"@
    } else if d == 6 {
        "6"@
    } else if d == 7 {
        "7"@
    } else if d == 8 {
        "8"@
    } else {
        "9"@
    }
}

/// Decimal notation of `n`, without leading zeros.
pub open spec fn decimal_text(n: nat) -> Seq<char>
    decreases n,
{
    if n < 10 {
        digit_text(n as int)
    } else {
        decimal_text(n / 10) + digit_text((n % 10) as int)
    }
}

/// Decimal notation of `n`, padded with leading zeros to at least four digits.
pub open spec fn four_digit_text(n: nat) -> Seq<char> {
    if n < 10000 {
        digit_text((n / 1000) as int) + digit_text(((n / 100) % 10) as int) + digit_text(
            ((n / 10) % 10) as int,
        ) + digit_text((n % 10) as int)
    } else {
        decimal_text(n)
    }
}

fn digit_str(d: u32) -> (r: &'static str)
    requires
        d < 10,
    ensures
        r@ == digit_text(d as int),
{
    match d {
        0 => "0",
        1 => "1",
        2 => "2",
        3 => "3",
        4 => "4",
        5 => "5",
        6 => "6",
        7 => "7",
        8 => "8",
        _ => "9",
    }
}

fn push_decimal(s: &mut String, n: u32)
    ensures
        final(s)@ == old(s)@ + decimal_text(n as nat),
    decreases n,
{
    if n >= 10 {
        push_decimal(s, n / 10);
    }
    s.append(digit_str(n % 10));
}

/// Name of the `index`-th chunk file of a source: `<source>-chunk-NNNN.wav`.
pub fn chunk_file_name(source: &str, index: u32) -> (r: String)
    ensures
        r@ == source@ + "-chunk-"@ + four_digit_text(index as nat) + ".wav"@,
{
    let mut s = source.to_owned();
    s.append("-chunk-");
    if index < 10000 {
        s.append(digit_str(index / 1000));
        s.append(digit_str((index / 100) % 10));
        s.append(digit_str((index / 10) % 10));
        s.append(digit_str(index % 10));
    } else {
        push_decimal(&mut s, index);
    }
    s.append(".wav");
    s
}

/// The number a decimal digit character stands for.
pub open spec fn digit_value(c: char) -> int {
    c as int - 48
}

/// The number the digit characters `s` spell, most significant first.
pub open spec fn digits_value(s: Seq<char>) -> int
    decreases s.len(),
{
    if s.len() == 0 {
        0
    } else {
        digits_value(s.drop_last()) * 10 + digit_value(s.last())
    }
}

/// Every character of `s` is one of `0` to `9`.
pub open spec fn all_digits(s: Seq<char>) -> bool {
    forall|k: int| 0 <= k < s.len() ==> 48 <= #[trigger] s[k] as int <= 57
}

/// The digit `d` is written as the single character `'0' + d`.
pub proof fn law_digit_text_is_its_character(d: int)
    requires
        0 <= d < 10,
    ensures
        digit_text(d).len() == 1,
        digit_text(d)[0] as int == 48 + d,
{
    reveal_strlit("0");
    reveal_strlit("1");
    reveal_strlit("2");
    reveal_strlit("3");
    reveal_strlit("4");
    reveal_strlit("5");
    reveal_strlit("6");
    reveal_strlit("7");
    reveal_strlit("8");
    reveal_strlit("9");
}

proof fn lemma_digits_value_push(s: Seq<char>, d: int)
    requires
        0 <= d < 10,
    ensures
        digits_value(s + digit_text(d)) == digits_value(s) * 10 + d,
        all_digits(s) ==> all_digits(s + digit_text(d)),
        (s + digit_text(d)).len() == s.len() + 1,
{
    law_digit_text_is_its_character(d);
    let t = s + digit_text(d);
    assert(t.drop_last() =~= s);
    assert(t.last() == digit_text(d)[0]);
}

/// Decimal notation reads back as the number it was written for.
pub proof fn law_decimal_text_reads_back(n: nat)
    ensures
        all_digits(decimal_text(n)),
        digits_value(decimal_text(n)) == n,
        decimal_text(n).len() >= 1,
    decreases n,
{
    if n < 10 {
        law_digit_text_is_its_character(n as int);
        lemma_digits_value_push(Seq::empty(), n as int);
        assert(Seq::<char>::empty() + digit_text(n as int) =~= digit_text(n as int));
    } else {
        law_decimal_text_reads_back(n / 10);
        lemma_digits_value_push(decimal_text(n / 10), (n % 10) as int);
    }
}

/// The zero-padded number of a chunk file reads back as the chunk's number:
/// exactly four digits below 10000, plain decimal notation above.
pub proof fn law_four_digit_text_reads_back(n: nat)
    ensures
        all_digits(four_digit_text(n)),
        digits_value(four_digit_text(n)) == n,
        n < 10000 ==> four_digit_text(n).len() == 4,
{
    if n < 10000 {
        let a = (n / 1000) as int;
        let b = ((n / 100) % 10) as int;
        let c = ((n / 10) % 10) as int;
        let e = (n % 10) as int;
        assert(a < 10);
        let s0 = Seq::<char>::empty();
        lemma_digits_value_push(s0, a);
        assert(s0 + digit_text(a) =~= digit_text(a));
        lemma_digits_value_push(digit_text(a), b);
        lemma_digits_value_push(digit_text(a) + digit_text(b), c);
        lemma_digits_value_push(digit_text(a) + digit_text(b) + digit_text(c), e);
        assert(((a * 10 + b) * 10 + c) * 10 + e == n) by (nonlinear_arith)
            requires
                n < 10000,
                a == n / 1000,
                b == (n / 100) % 10,
                c == (n / 10) % 10,
                e == n % 10,
        ;
    } else {
        law_decimal_text_reads_back(n);
    }
}

/// Different chunk numbers give different chunk file names.
pub proof fn law_chunk_names_distinct(source: Seq<char>, a: nat, b: nat)
    ensures
        a != b ==> source + "-chunk-"@ + four_digit_text(a) + ".wav"@ != source + "-chunk-"@
            + four_digit_text(b) + ".wav"@,
{
    reveal_strlit("-chunk-");
    reveal_strlit(".wav");
    let x = source + "-chunk-"@ + four_digit_text(a) + ".wav"@;
    let y = source + "-chunk-"@ + four_digit_text(b) + ".wav"@;
    if a != b && x == y {
        let p: int = source.len() as int + 7;
        assert("-chunk-"@.len() == 7 && ".wav"@.len() == 4);
        assert(x.len() == y.len());
        assert(four_digit_text(a).len() == four_digit_text(b).len());
        let q: int = p + four_digit_text(a).len();
        assert(x.subrange(p, q) =~= four_digit_text(a));
        assert(y.subrange(p, q) =~= four_digit_text(b));
        law_four_digit_text_reads_back(a);
        law_four_digit_text_reads_back(b);
    }
}

/// Name of the full-recording file of a source: `<source>-full.wav`.
pub fn full_file_name(source: &str) -> (r: String)
    ensures
        r@ == source@ + "-full.wav"@,
{
    let mut s = source.to_owned();
    s.append("-full.wav");
    s
}

// ---------------------------------------------------------------------------
// Chunk writer
// ---------------------------------------------------------------------------

/// What happens to a chunk file once it is finalized.
#[derive(Debug, Clone, Copy, PartialEq, Eq, Structural)]
pub enum ChunkOutcome {
    /// Hand the chunk on; it starts `start_frames` frames into the recording.
    Keep { start_frames: u64 },
    /// Delete the chunk: it is empty or nothing in it was loud enough.
    Discard,
}

/// Bookkeeping of one source's chunk writer.
pub struct ChunkTracker {
    /// Fewest frames before a pause may end a chunk.
    pub min_frames: u32,
    /// Frames at which a chunk ends regardless of pauses.
    pub max_frames: u32,
    /// Length of the quiet run that counts as a pause.
    pub vad_silence_frames: u32,
    /// Number of the most recent chunk (the first chunk is 1).
    pub index: u32,
    /// Whether a chunk file is open.
    pub open: bool,
    /// Frames in the open chunk.
    pub written: u32,
    /// Whether some buffer of the open chunk was loud enough to keep it.
    pub audible: bool,
    /// Frames in the trailing run of quiet buffers.
    pub silent_run: u32,
    /// Frames received since the writer was created, over all chunks.
    pub total_frames_written: u64,
    /// Value of `total_frames_written` when the open chunk started.
    pub chunk_start_frames: u64,
}

/// What rotation asks for after the open chunk grew to `written` frames with
/// a trailing quiet run of `silent_run` frames.
pub open spec fn should_rotate(t: ChunkTracker, written: u32, silent_run: u32) -> bool {
    written >= t.max_frames || (written >= t.min_frames && silent_run >= t.vad_silence_frames)
}

/// The tracker once the next chunk number was taken.
pub open spec fn indexed(t: ChunkTracker) -> ChunkTracker {
    ChunkTracker { index: (t.index + 1) as u32, ..t }
}

/// The tracker once a new, empty chunk was opened.
pub open spec fn opened(t: ChunkTracker) -> ChunkTracker {
    ChunkTracker {
        open: true,
        written: 0,
        audible: false,
        silent_run: 0,
        chunk_start_frames: t.total_frames_written,
        ..t
    }
}

/// The tracker once a buffer of `frames` frames went into the open chunk;
/// `voice` says whether the buffer's peak reached the voice level, `loud`
/// whether it reached the level that makes the chunk worth keeping.
pub open spec fn recorded(t: ChunkTracker, frames: u32, voice: bool, loud: bool) -> ChunkTracker {
    ChunkTracker {
        written: (t.written + frames) as u32,
        total_frames_written: (t.total_frames_written + frames) as u64,
        audible: t.audible || loud,
        silent_run: if voice {
            0
        } else if t.silent_run + frames > u32::MAX {
            u32::MAX
        } else {
            (t.silent_run + frames) as u32
        },
        ..t
    }
}

/// The tracker once the open chunk was finalized.
pub open spec fn finished(t: ChunkTracker) -> ChunkTracker {
    ChunkTracker { open: false, written: 0, audible: false, silent_run: 0, ..t }
}

/// What becomes of the open chunk when it is finalized: kept when it holds
/// frames and some buffer of it was loud, discarded otherwise.
pub open spec fn outcome_of(t: ChunkTracker) -> ChunkOutcome {
    if t.written > 0 && t.audible {
        ChunkOutcome::Keep { start_frames: t.chunk_start_frames }
    } else {
        ChunkOutcome::Discard
    }
}

impl ChunkTracker {
    /// While a chunk is open, it started where the frames before it ended.
    pub open spec fn wf(self) -> bool {
        self.open ==> self.chunk_start_frames + self.written == self.total_frames_written
    }

    /// A tracker with no chunk yet, for the given frame limits.
    pub fn new(min_frames: u32, max_frames: u32, vad_silence_frames: u32) -> (r: ChunkTracker)
        ensures
            r == fresh_tracker(min_frames, max_frames, vad_silence_frames),
            r.wf(),
    {
        ChunkTracker {
            min_frames,
            max_frames,
            vad_silence_frames,
            index: 0,
            open: false,
            written: 0,
            audible: false,
            silent_run: 0,
            total_frames_written: 0,
            chunk_start_frames: 0,
        }
    }

    pub fn is_open(&self) -> (r: bool)
        ensures
            r == self.open,
    {
        self.open
    }

    /// Takes the number of the next chunk.
    pub fn next_index(&mut self) -> (r: u32)
        requires
            old(self).index < u32::MAX,
        ensures
            r == old(self).index + 1,
            *final(self) == indexed(*old(self)),
    {
        self.index = self.index + 1;
        self.index
    }

    /// A new chunk file was opened: it starts after every frame so far.
    pub fn chunk_opened(&mut self)
        requires
            !old(self).open,
        ensures
            *final(self) == opened(*old(self)),
            final(self).wf(),
    {
        self.open = true;
        self.written = 0;
        self.audible = false;
        self.silent_run = 0;
        self.chunk_start_frames = self.total_frames_written;
    }

    /// Records a buffer of `frames` frames written to the open chunk, and
    /// says whether the chunk must rotate now.
    pub fn record_buffer(&mut self, frames: u32, voice: bool, loud: bool) -> (rotate: bool)
        requires
            old(self).open,
            old(self).wf(),
            old(self).written + frames <= u32::MAX,
            old(self).total_frames_written + frames <= u64::MAX,
        ensures
            *final(self) == recorded(*old(self), frames, voice, loud),
            final(self).wf(),
            rotate == should_rotate(*old(self), final(self).written, final(self).silent_run),
    {
        self.written = self.written + frames;
        self.total_frames_written = self.total_frames_written + frames as u64;
        if loud {
            self.audible = true;
        }
        if voice {
            self.silent_run = 0;
        } else {
            self.silent_run = self.silent_run.saturating_add(frames);
        }
        self.written >= self.max_frames || (self.written >= self.min_frames && self.silent_run
            >= self.vad_silence_frames)
    }

    /// Finalizes the open chunk and says whether it is kept.
    pub fn finish_chunk(&mut self) -> (r: ChunkOutcome)
        requires
            old(self).open,
            old(self).wf(),
        ensures
            r == outcome_of(*old(self)),
            *final(self) == finished(*old(self)),
            final(self).wf(),
    {
        let outcome = if self.written > 0 && self.audible {
            ChunkOutcome::Keep { start_frames: self.chunk_start_frames }
        } else {
            ChunkOutcome::Discard
        };
        self.open = false;
        self.written = 0;
        self.audible = false;
        self.silent_run = 0;
        outcome
    }

    /// The open chunk could not be finalized: it is gone, and nothing is
    /// handed on for it.
    pub fn chunk_lost(&mut self)
        requires
            old(self).open,
        ensures
            *final(self) == (ChunkTracker { open: false, ..*old(self) }),
            final(self).wf(),
    {
        self.open = false;
    }
}

/// A tracker with no chunk yet.
pub open spec fn fresh_tracker(min_frames: u32, max_frames: u32, vad_silence_frames: u32) -> ChunkTracker {
    ChunkTracker {
        min_frames,
        max_frames,
        vad_silence_frames,
        index: 0,
        open: false,
        written: 0,
        audible: false,
        silent_run: 0,
        total_frames_written: 0,
        chunk_start_frames: 0,
    }
}

/// The quiet run after a buffer: a buffer below the voice level extends it
/// by its frames (stopping at `u32::MAX`), a voice buffer ends it, and
/// whether the buffer was loud enough to keep the chunk plays no part; nor
/// does the voice level decide whether a chunk is worth keeping. So a chunk
/// past the minimum rotates once a quiet buffer brings the run to the pause
/// length.
pub proof fn law_quiet_run(t: ChunkTracker, frames: u32, voice: bool, loud: bool)
    requires
        t.written + frames <= u32::MAX,
    ensures
        recorded(t, frames, false, loud).silent_run == (if t.silent_run + frames <= u32::MAX {
            t.silent_run + frames
        } else {
            u32::MAX as int
        }),
        recorded(t, frames, true, loud).silent_run == 0,
        recorded(t, frames, voice, true).silent_run == recorded(t, frames, voice, false).silent_run,
        recorded(t, frames, true, loud).audible == recorded(t, frames, false, loud).audible,
        recorded(t, frames, voice, loud).audible == (t.audible || loud),
        recorded(t, frames, voice, loud).written == t.written + frames,
        !voice && t.written + frames >= t.min_frames && t.silent_run + frames
            >= t.vad_silence_frames ==> should_rotate(
            t,
            recorded(t, frames, voice, loud).written,
            recorded(t, frames, voice, loud).silent_run,
        ),
{
}

/// Chunk length at rotation: when an open chunk below the cap takes a buffer
/// of at most `cap` frames, a rotation leaves it holding at least the minimum
/// and at most the cap plus `cap - 1` frames, and without a rotation it stays
/// below the cap.
pub proof fn law_rotation_bounds(t: ChunkTracker, frames: u32, voice: bool, loud: bool, cap: u32)
    requires
        t.open,
        t.min_frames <= t.max_frames,
        t.written < t.max_frames,
        frames <= cap,
        t.written + frames <= u32::MAX,
    ensures
        ({
            let r = recorded(t, frames, voice, loud);
            &&& should_rotate(t, r.written, r.silent_run) ==> t.min_frames <= r.written
                <= t.max_frames + cap - 1
            &&& !should_rotate(t, r.written, r.silent_run) ==> r.written < t.max_frames
        }),
{
}

// ---------------------------------------------------------------------------
// A whole run of the chunk writer
// ---------------------------------------------------------------------------

/// One buffer handed to the chunk writer, as the tracker sees it.
pub struct BufferInfo {
    pub frames: u32,
    /// The buffer's peak reached the voice level.
    pub voice: bool,
    /// The buffer's peak reached the level that makes a chunk worth keeping.
    pub loud: bool,
}

/// A call on the chunk writer.
pub enum WriterEvent {
    Write(BufferInfo),
    Close,
}

/// A finalized chunk.
pub struct ChunkRecord {
    /// The number in its file name.
    pub index: u32,
    /// The frame count the tracker reported as its start.
    pub start_frames: u64,
    /// Frames in the chunk.
    pub frames: u32,
    /// The buffers that went into it, in order.
    pub buffers: Seq<BufferInfo>,
    /// What the tracker decided for it.
    pub outcome: ChunkOutcome,
    /// Finalized by a rotation rather than by closing the writer.
    pub rotated: bool,
}

/// The tracker after a sequence of calls, with the buffers of the open chunk
/// and every chunk finalized so far.
pub struct WriterRun {
    pub tracker: ChunkTracker,
    pub current: Seq<BufferInfo>,
    pub chunks: Seq<ChunkRecord>,
}

/// The record of the open chunk of `t`, holding `buffers`, when finalized.
pub open spec fn finalized(t: ChunkTracker, buffers: Seq<BufferInfo>, rotated: bool) -> ChunkRecord {
    ChunkRecord {
        index: t.index,
        start_frames: t.chunk_start_frames,
        frames: t.written,
        buffers,
        outcome: outcome_of(t),
        rotated,
    }
}

/// One call on the chunk writer, through the tracker's operations in the
/// order the writer makes them. An empty buffer changes nothing. A buffer
/// first opens a chunk if none is open (`next_index`, then `chunk_opened`),
/// then goes into it (`record_buffer`); when that asks for a rotation, the
/// chunk is finalized (`finish_chunk`) and the next one opened at once.
/// Closing finalizes the open chunk, if there is one.
pub open spec fn writer_step(r: WriterRun, ev: WriterEvent) -> WriterRun {
    match ev {
        WriterEvent::Write(b) => {
            if b.frames == 0 {
                r
            } else {
                let t1 = if r.tracker.open {
                    r.tracker
                } else {
                    opened(indexed(r.tracker))
                };
                let cur1 = if r.tracker.open {
                    r.current
                } else {
                    Seq::empty()
                };
                let t2 = recorded(t1, b.frames, b.voice, b.loud);
                let cur2 = cur1.push(b);
                if should_rotate(t1, t2.written, t2.silent_run) {
                    WriterRun {
                        tracker: opened(indexed(finished(t2))),
                        current: Seq::empty(),
                        chunks: r.chunks.push(finalized(t2, cur2, true)),
                    }
                } else {
                    WriterRun { tracker: t2, current: cur2, chunks: r.chunks }
                }
            }
        },
        WriterEvent::Close => {
            if r.tracker.open {
                WriterRun {
                    tracker: finished(r.tracker),
                    current: Seq::empty(),
                    chunks: r.chunks.push(finalized(r.tracker, r.current, false)),
                }
            } else {
                r
            }
        },
    }
}

/// A new chunk writer's tracker after the calls `events`.
pub open spec fn writer_run(
    min_frames: u32,
    max_frames: u32,
    vad_silence_frames: u32,
    events: Seq<WriterEvent>,
) -> WriterRun
    decreases events.len(),
{
    if events.len() == 0 {
        WriterRun {
            tracker: fresh_tracker(min_frames, max_frames, vad_silence_frames),
            current: Seq::empty(),
            chunks: Seq::empty(),
        }
    } else {
        writer_step(
            writer_run(min_frames, max_frames, vad_silence_frames, events.drop_last()),
            events.last(),
        )
    }
}

/// The non-empty buffers among `events`, in order.
pub open spec fn written_buffers(events: Seq<WriterEvent>) -> Seq<BufferInfo>
    decreases events.len(),
{
    if events.len() == 0 {
        Seq::empty()
    } else {
        let rest = written_buffers(events.drop_last());
        match events.last() {
            WriterEvent::Write(b) => if b.frames > 0 {
                rest.push(b)
            } else {
                rest
            },
            WriterEvent::Close => rest,
        }
    }
}

/// Total frames of `bufs`.
pub open spec fn buffer_frames(bufs: Seq<BufferInfo>) -> nat
    decreases bufs.len(),
{
    if bufs.len() == 0 {
        0
    } else {
        buffer_frames(bufs.drop_last()) + bufs.last().frames as nat
    }
}

/// Total frames of `chunks`.
pub open spec fn chunk_frames(chunks: Seq<ChunkRecord>) -> nat
    decreases chunks.len(),
{
    if chunks.len() == 0 {
        0
    } else {
        chunk_frames(chunks.drop_last()) + chunks.last().frames as nat
    }
}

/// The buffers of `chunks`, one chunk after the other.
pub open spec fn chunk_buffers(chunks: Seq<ChunkRecord>) -> Seq<BufferInfo>
    decreases chunks.len(),
{
    if chunks.len() == 0 {
        Seq::empty()
    } else {
        chunk_buffers(chunks.drop_last()) + chunks.last().buffers
    }
}

/// Some buffer of `bufs` was loud.
pub open spec fn any_loud(bufs: Seq<BufferInfo>) -> bool {
    exists|j: int| 0 <= j < bufs.len() && (#[trigger] bufs[j]).loud
}

/// A call that hands over at most `cap` frames.
pub open spec fn event_within(ev: WriterEvent, cap: u32) -> bool {
    match ev {
        WriterEvent::Write(b) => b.frames <= cap,
        WriterEvent::Close => true,
    }
}

/// What holds of the `i`-th finalized chunk `c`, with `before` the chunks
/// finalized ahead of it.
spec fn chunk_ok(c: ChunkRecord, i: int, before: Seq<ChunkRecord>, min: u32, max: u32, cap: u32) -> bool {
    &&& c.index == i + 1
    &&& c.start_frames == chunk_frames(before)
    &&& c.frames == buffer_frames(c.buffers)
    &&& c.outcome == (if c.frames > 0 && any_loud(c.buffers) {
        ChunkOutcome::Keep { start_frames: c.start_frames }
    } else {
        ChunkOutcome::Discard
    })
    &&& c.rotated ==> (c.frames >= min || c.frames >= max) && c.frames <= max + cap
    &&& c.rotated && 1 <= max ==> c.frames <= max + cap - 1
    &&& !c.rotated ==> c.frames < max || c.frames == 0
}

spec fn run_inv(
    r: WriterRun,
    min: u32,
    max: u32,
    vad: u32,
    cap: u32,
    bufs: Seq<BufferInfo>,
    steps: nat,
) -> bool {
    let t = r.tracker;
    &&& t.min_frames == min && t.max_frames == max && t.vad_silence_frames == vad
    &&& t.wf()
    &&& t.index == r.chunks.len() + (if t.open {
        1int
    } else {
        0int
    })
    &&& t.index <= 2 * steps
    &&& t.total_frames_written == buffer_frames(bufs)
    &&& t.open ==> {
        &&& t.chunk_start_frames == chunk_frames(r.chunks)
        &&& t.written == buffer_frames(r.current)
        &&& t.audible == any_loud(r.current)
        &&& t.written < max || t.written == 0
    }
    &&& !t.open ==> r.current.len() == 0 && t.total_frames_written == chunk_frames(r.chunks)
    &&& chunk_buffers(r.chunks) + r.current == bufs
    &&& forall|i: int|
        0 <= i < r.chunks.len() ==> chunk_ok(#[trigger] r.chunks[i], i, r.chunks.take(i), min, max, cap)
}

proof fn lemma_buffer_frames_push(s: Seq<BufferInfo>, b: BufferInfo)
    ensures
        buffer_frames(s.push(b)) == buffer_frames(s) + b.frames,
{
    assert(s.push(b).drop_last() =~= s);
}

proof fn lemma_any_loud_push(s: Seq<BufferInfo>, b: BufferInfo)
    ensures
        any_loud(s.push(b)) == (any_loud(s) || b.loud),
{
    let t = s.push(b);
    if any_loud(s) {
        let j = choose|j: int| 0 <= j < s.len() && (#[trigger] s[j]).loud;
        assert(t[j] == s[j]);
    }
    if b.loud {
        assert(t[s.len() as int] == b);
    }
    if any_loud(t) {
        let j = choose|j: int| 0 <= j < t.len() && (#[trigger] t[j]).loud;
        if j < s.len() {
            assert(t[j] == s[j]);
        }
    }
}

/// Pushing a record that meets `chunk_ok` keeps every record meeting it.
proof fn lemma_chunks_push(
    chunks: Seq<ChunkRecord>,
    c: ChunkRecord,
    min: u32,
    max: u32,
    cap: u32,
)
    requires
        forall|i: int|
            0 <= i < chunks.len() ==> chunk_ok(#[trigger] chunks[i], i, chunks.take(i), min, max, cap),
        chunk_ok(c, chunks.len() as int, chunks, min, max, cap),
    ensures
        ({
            let n = chunks.push(c);
            &&& forall|i: int|
                0 <= i < n.len() ==> chunk_ok(#[trigger] n[i], i, n.take(i), min, max, cap)
            &&& chunk_frames(n) == chunk_frames(chunks) + c.frames
            &&& chunk_buffers(n) == chunk_buffers(chunks) + c.buffers
        }),
{
    let n = chunks.push(c);
    assert(n.drop_last() =~= chunks);
    assert forall|i: int| 0 <= i < n.len() implies chunk_ok(#[trigger] n[i], i, n.take(i), min, max, cap) by {
        if i < chunks.len() {
            assert(n.take(i) =~= chunks.take(i));
            assert(n[i] == chunks[i]);
        } else {
            assert(n.take(i) =~= chunks);
        }
    }
}

proof fn lemma_close_step(
    r: WriterRun,
    min: u32,
    max: u32,
    vad: u32,
    cap: u32,
    bufs: Seq<BufferInfo>,
    steps: nat,
)
    requires
        run_inv(r, min, max, vad, cap, bufs, steps),
    ensures
        run_inv(writer_step(r, WriterEvent::Close), min, max, vad, cap, bufs, steps + 1),
{
    if r.tracker.open {
        let c = finalized(r.tracker, r.current, false);
        lemma_chunks_push(r.chunks, c, min, max, cap);
        assert(chunk_buffers(r.chunks) + r.current + Seq::<BufferInfo>::empty() =~= chunk_buffers(r.chunks) + r.current);
    }
}

#[verifier::rlimit(40)]
proof fn lemma_write_step(
    r: WriterRun,
    b: BufferInfo,
    min: u32,
    max: u32,
    vad: u32,
    cap: u32,
    bufs: Seq<BufferInfo>,
    steps: nat,
)
    requires
        run_inv(r, min, max, vad, cap, bufs, steps),
        max + cap <= u32::MAX + 1,
        0 < b.frames <= cap,
        buffer_frames(bufs) + b.frames <= u64::MAX,
        2 * (steps + 1) <= u32::MAX,
    ensures
        run_inv(writer_step(r, WriterEvent::Write(b)), min, max, vad, cap, bufs.push(b), steps + 1),
{
    let t = r.tracker;
    let t1 = if t.open {
        t
    } else {
        opened(indexed(t))
    };
    let cur1 = if t.open {
        r.current
    } else {
        Seq::<BufferInfo>::empty()
    };
    assert(chunk_buffers(r.chunks) + cur1 == bufs) by {
        if !t.open {
            assert(r.current =~= Seq::<BufferInfo>::empty());
            assert(chunk_buffers(r.chunks) + cur1 =~= chunk_buffers(r.chunks) + r.current);
        }
    }
    assert(t1.written == buffer_frames(cur1) && t1.audible == any_loud(cur1)
        && t1.chunk_start_frames == chunk_frames(r.chunks) && (t1.written < max || t1.written == 0)
        && t1.index == r.chunks.len() + 1);
    let t2 = recorded(t1, b.frames, b.voice, b.loud);
    let cur2 = cur1.push(b);
    lemma_buffer_frames_push(cur1, b);
    lemma_buffer_frames_push(bufs, b);
    lemma_any_loud_push(cur1, b);
    assert(t2.written == buffer_frames(cur2));
    assert(t2.audible == any_loud(cur2));
    assert(t2.total_frames_written == buffer_frames(bufs.push(b)));
    assert(chunk_buffers(r.chunks) + cur2 =~= bufs.push(b));
    if should_rotate(t1, t2.written, t2.silent_run) {
        let c = finalized(t2, cur2, true);
        assert(chunk_ok(c, r.chunks.len() as int, r.chunks, min, max, cap));
        lemma_chunks_push(r.chunks, c, min, max, cap);
        assert(chunk_buffers(r.chunks.push(c)) + Seq::<BufferInfo>::empty() =~= bufs.push(b));
    }
}

proof fn lemma_run(
    min: u32,
    max: u32,
    vad: u32,
    cap: u32,
    events: Seq<WriterEvent>,
)
    requires
        max + cap <= u32::MAX + 1,
        forall|k: int| 0 <= k < events.len() ==> event_within(#[trigger] events[k], cap),
        buffer_frames(written_buffers(events)) <= u64::MAX,
        2 * events.len() <= u32::MAX,
    ensures
        run_inv(
            writer_run(min, max, vad, events),
            min,
            max,
            vad,
            cap,
            written_buffers(events),
            events.len(),
        ),
    decreases events.len(),
{
    if events.len() == 0 {
        let r = writer_run(min, max, vad, events);
        assert(chunk_buffers(r.chunks) + r.current =~= written_buffers(events));
    } else {
        let pre = events.drop_last();
        let ev = events.last();
        assert forall|k: int| 0 <= k < pre.len() implies event_within(#[trigger] pre[k], cap) by {
            assert(pre[k] == events[k]);
        }
        assert(event_within(events[events.len() - 1], cap));
        match ev {
            WriterEvent::Write(b) => {
                if b.frames > 0 {
                    lemma_buffer_frames_push(written_buffers(pre), b);
                }
            },
            WriterEvent::Close => {},
        }
        lemma_run(min, max, vad, cap, pre);
        let r = writer_run(min, max, vad, pre);
        match ev {
            WriterEvent::Write(b) => {
                if b.frames > 0 {
                    lemma_write_step(r, b, min, max, vad, cap, written_buffers(pre), pre.len());
                }
            },
            WriterEvent::Close => {
                lemma_close_step(r, min, max, vad, cap, written_buffers(pre), pre.len());
            },
        }
    }
}

/// What a run of the chunk writer keeps, over any sequence of writes and
/// closes on a new writer, with any frame limits, where no buffer holds more
/// than `cap` frames and the counters cannot overflow:
/// - the finalized chunks are numbered 1, 2, 3, ... in order, and an open
///   chunk carries the number after them;
/// - each chunk starts at the total frames of the chunks before it, which is
///   the number of frames written before its first frame, so the starts
///   never decrease;
/// - a chunk is kept, with that start, exactly when it holds frames and one
///   of its buffers was loud, and discarded otherwise;
/// - a chunk ended by rotation reached the minimum or the cap and holds at
///   most the cap plus `cap` frames; when the cap is at least one frame, it
///   holds at most the cap plus `cap - 1` frames, and at least the minimum
///   when the minimum is not above the cap;
/// - a chunk ended by closing, and the open chunk, stay below the cap or are
///   empty;
/// - every frame written lies in exactly one chunk, in order.
pub proof fn law_chunk_writer_run(
    min_frames: u32,
    max_frames: u32,
    vad_silence_frames: u32,
    cap: u32,
    events: Seq<WriterEvent>,
)
    requires
        max_frames + cap - 1 <= u32::MAX,
        forall|k: int| 0 <= k < events.len() ==> event_within(#[trigger] events[k], cap),
        buffer_frames(written_buffers(events)) <= u64::MAX,
        2 * events.len() <= u32::MAX,
    ensures
        ({
            let r = writer_run(min_frames, max_frames, vad_silence_frames, events);
            let cs = r.chunks;
            &&& forall|i: int| 0 <= i < cs.len() ==> (#[trigger] cs[i]).index == i + 1
            &&& r.tracker.open ==> r.tracker.index == cs.len() + 1
            &&& forall|i: int|
                0 <= i < cs.len() ==> (#[trigger] cs[i]).start_frames == chunk_frames(cs.take(i))
            &&& forall|i: int, j: int|
                #![trigger cs[i], cs[j]]
                0 <= i && j == i + 1 && j < cs.len() ==> cs[j].start_frames == cs[i].start_frames
                    + cs[i].frames
            &&& forall|i: int|
                0 <= i < cs.len() ==> (#[trigger] cs[i]).frames == buffer_frames(cs[i].buffers)
            &&& forall|i: int|
                0 <= i < cs.len() ==> (#[trigger] cs[i]).outcome == (if cs[i].frames > 0 && any_loud(
                    cs[i].buffers,
                ) {
                    ChunkOutcome::Keep { start_frames: cs[i].start_frames }
                } else {
                    ChunkOutcome::Discard
                })
            &&& forall|i: int|
                0 <= i < cs.len() && (#[trigger] cs[i]).rotated ==> (cs[i].frames >= min_frames
                    || cs[i].frames >= max_frames) && cs[i].frames <= max_frames + cap
            &&& forall|i: int|
                0 <= i < cs.len() && (#[trigger] cs[i]).rotated && 1 <= max_frames
                    ==> cs[i].frames <= max_frames + cap - 1
            &&& forall|i: int|
                0 <= i < cs.len() && (#[trigger] cs[i]).rotated && min_frames <= max_frames
                    ==> min_frames <= cs[i].frames
            &&& forall|i: int|
                0 <= i < cs.len() && !(#[trigger] cs[i]).rotated ==> cs[i].frames < max_frames
                    || cs[i].frames == 0
            &&& r.tracker.open ==> r.tracker.chunk_start_frames == chunk_frames(cs) && (
            r.tracker.written < max_frames || r.tracker.written == 0)
            &&& chunk_buffers(cs) + r.current == written_buffers(events)
            &&& r.tracker.total_frames_written == buffer_frames(written_buffers(events))
        }),
{
    lemma_run(min_frames, max_frames, vad_silence_frames, cap, events);
    let r = writer_run(min_frames, max_frames, vad_silence_frames, events);
    let cs = r.chunks;
    assert forall|i: int, j: int|
        #![trigger cs[i], cs[j]]
        0 <= i && j == i + 1 && j < cs.len() implies cs[j].start_frames == cs[i].start_frames
        + cs[i].frames by {
        assert(cs.take(j).drop_last() =~= cs.take(i));
        assert(chunk_ok(cs[i], i, cs.take(i), min_frames, max_frames, cap));
        assert(chunk_ok(cs[j], j, cs.take(j), min_frames, max_frames, cap));
    }
}

// ---------------------------------------------------------------------------
// Full-recording writer
// ---------------------------------------------------------------------------

/// What happens to the full recording when the writer closes.
#[derive(Debug, Clone, Copy, PartialEq, Eq, Structural)]
pub enum FullOutcome {
    /// No file was open.
    Nothing,
    /// Hand the recording on; it holds `frames` frames.
    Keep { frames: u64 },
    /// Delete the file: no audio ever arrived.
    Discard,
}

/// Bookkeeping of one source's full-recording writer.
pub struct FullRecordingTracker {
    /// Whether the recording file is open.
    pub open: bool,
    /// Frames received since the writer was created.
    pub written: u64,
}

impl FullRecordingTracker {
    pub fn new() -> (r: FullRecordingTracker)
        ensures
            !r.open,
            r.written == 0,
    {
        FullRecordingTracker { open: false, written: 0 }
    }

    pub fn is_open(&self) -> (r: bool)
        ensures
            r == self.open,
    {
        self.open
    }

    /// The recording file was created.
    pub fn opened(&mut self)
        ensures
            *final(self) == (FullRecordingTracker { open: true, ..*old(self) }),
    {
        self.open = true;
    }

    /// Records `frames` frames written to the recording.
    pub fn record(&mut self, frames: u64)
        requires
            old(self).written + frames <= u64::MAX,
        ensures
            *final(self) == (FullRecordingTracker {
                written: (old(self).written + frames) as u64,
                ..*old(self)
            }),
    {
        self.written = self.written + frames;
    }

    /// Closes the recording: keeps it if any frame arrived, otherwise the
    /// empty file is deleted. The frame count is not reset.
    pub fn close(&mut self) -> (r: FullOutcome)
        ensures
            r == (if !old(self).open {
                FullOutcome::Nothing
            } else if old(self).written > 0 {
                FullOutcome::Keep { frames: old(self).written }
            } else {
                FullOutcome::Discard
            }),
            *final(self) == (FullRecordingTracker { open: false, ..*old(self) }),
    {
        if !self.open {
            return FullOutcome::Nothing;
        }
        self.open = false;
        if self.written > 0 {
            FullOutcome::Keep { frames: self.written }
        } else {
            FullOutcome::Discard
        }
    }
}

// ---------------------------------------------------------------------------
// Command line and stdin commands
// ---------------------------------------------------------------------------

/// What the sidecar was started to do.
#[derive(Debug, Clone, Copy, PartialEq, Eq, Structural)]
pub enum Mode {
    /// Report microphone and screen permissions.
    Status,
    /// Probe the microphone again and report it.
    RequestMicrophone,
    /// Report the screen permission.
    RequestScreen,
    /// Record until told to stop.
    Record,
}

pub open spec fn args_view(args: Seq<String>) -> Seq<Seq<char>> {
    args.map_values(|a: String| a@)
}

/// The mode selected by the first argument after the program name.
pub open spec fn mode_of(args: Seq<Seq<char>>) -> Mode {
    if args.len() >= 2 && args[1] == "status"@ {
        Mode::Status
    } else if args.len() >= 2 && args[1] == "request-microphone"@ {
        Mode::RequestMicrophone
    } else if args.len() >= 2 && args[1] == "request-screen"@ {
        Mode::RequestScreen
    } else {
        Mode::Record
    }
}

/// Chooses the mode from the program arguments (the program name first).
pub fn parse_mode(args: &Vec<String>) -> (r: Mode)
    ensures
        r == mode_of(args_view(args@)),
{
    if args.len() >= 2 {
        let a = args[1].as_str();
        if str_eq(a, "status") {
            return Mode::Status;
        } else if str_eq(a, "request-microphone") {
            return Mode::RequestMicrophone;
        } else if str_eq(a, "request-screen") {
            return Mode::RequestScreen;
        }
    }
    Mode::Record
}

/// The output directory: the argument after the first `--out`, if the
/// arguments go on after it.
pub open spec fn out_dir_of(args: Seq<Seq<char>>) -> Option<Seq<char>>
    decreases args.len(),
{
    if args.len() == 0 {
        None
    } else if args[0] == "--out"@ {
        if args.len() >= 2 {
            Some(args[1])
        } else {
            None
        }
    } else {
        out_dir_of(args.drop_first())
    }
}

pub open spec fn opt_string_view(o: Option<String>) -> Option<Seq<char>> {
    match o {
        Some(s) => Some(s@),
        None => None,
    }
}

/// Finds the output directory given with `--out` in the program arguments.
pub fn parse_out_dir(args: &Vec<String>) -> (r: Option<String>)
    ensures
        opt_string_view(r) == out_dir_of(args_view(args@)),
{
    let ghost all = args_view(args@);
    assert(all.skip(0) =~= all);
    let mut i: usize = 0;
    while i < args.len()
        invariant
            all == args_view(args@),
            0 <= i <= args@.len(),
            out_dir_of(all.skip(i as int)) == out_dir_of(all),
        decreases args.len() - i,
    {
        let ghost rest = all.skip(i as int);
        assert(rest[0] == args@[i as int]@);
        if str_eq(args[i].as_str(), "--out") {
            if i + 1 < args.len() {
                assert(rest[1] == args@[i + 1]@);
                return Some(args[i + 1].clone());
            }
            return None;
        }
        assert(rest.drop_first() =~= all.skip(i + 1));
        i += 1;
    }
    None
}

/// A command read from stdin.
#[derive(Debug, Clone, Copy, PartialEq, Eq, Structural)]
pub enum Command {
    Pause,
    Resume,
    Stop,
    Unknown,
}

pub open spec fn command_of(line: Seq<char>) -> Command {
    if line == "pause"@ {
        Command::Pause
    } else if line == "resume"@ {
        Command::Resume
    } else if line == "stop"@ {
        Command::Stop
    } else {
        Command::Unknown
    }
}

/// Interprets one (trimmed, non-empty) stdin line.
pub fn parse_command(line: &str) -> (r: Command)
    ensures
        r == command_of(line@),
{
    if str_eq(line, "pause") {
        Command::Pause
    } else if str_eq(line, "resume") {
        Command::Resume
    } else if str_eq(line, "stop") {
        Command::Stop
    } else {
        Command::Unknown
    }
}

} // verus!
