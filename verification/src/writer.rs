//! The writer's plan: scoop-major transposition offsets, chunking,
//! progress and the resume trailer.
//!
//! The writer owns the output file. For every buffer frame it receives it
//! seeks once per scoop stripe and writes that stripe's slice of the
//! frame, chunked into fixed-size pieces. This module computes everything
//! the writer decides — offsets, lengths, progress, trailer bytes — as a
//! plan over plain values; performing the seeks and writes on a file
//! handle is the host's part.

use vstd::prelude::*;

use crate::plotter::NONCE_SIZE;
use crate::plotter::NUM_SCOOPS;
use crate::plotter::SCOOP_SIZE;
use crate::plotter::TASK_SIZE;
use crate::trailer::encode_resume_info;
use crate::trailer::spec_trailer;

verus! {

/// One seek-and-write of a whole scoop stripe slice: `len` bytes from the
/// frame at `buf_start` go to the file at `file_offset`.
pub struct WriteOp {
    /// Absolute file offset of the seek.
    pub file_offset: u64,
    /// First byte of the slice within the buffer frame.
    pub buf_start: u64,
    /// Bytes to write.
    pub len: u64,
}

/// File offset of nonce `n`'s scoop within stripe `scoop` of a plot file
/// holding `plot_nonces` nonces.
pub open spec fn spec_file_offset(plot_nonces: int, scoop: int, n: int) -> int {
    scoop * plot_nonces * 64 + n * 64
}

/// Offset of nonce slot `n` of scoop `scoop` within a frame of capacity
/// `frame_cap` nonces, laid out scoop-major.
pub open spec fn spec_buf_offset(frame_cap: int, scoop: int, n: int) -> int {
    scoop * frame_cap * 64 + n * 64
}

/// Nonces the writer takes from a frame: the frame's capacity, or what is
/// left of the job if that is less.
pub fn nonces_to_write(buffer_len: u64, plot_nonces: u64, nonces_written: u64) -> (r: u64)
    requires
        nonces_written <= plot_nonces,
    ensures
        r == if buffer_len / NONCE_SIZE <= plot_nonces - nonces_written {
            (buffer_len / NONCE_SIZE) as int
        } else {
            plot_nonces - nonces_written
        },
        r <= buffer_len / NONCE_SIZE,
        nonces_written + r <= plot_nonces,
{
    let cap = buffer_len / NONCE_SIZE;
    let remaining = plot_nonces - nonces_written;
    if cap <= remaining {
        cap
    } else {
        remaining
    }
}

/// Builds the per-stripe write plan for one frame: stripe `s` is written
/// at file offset `s * plot_nonces * 64 + nonces_written * 64` from frame
/// offset `s * frame_cap * 64`, `f * 64` bytes.
pub fn build_write_plan(plot_nonces: u64, nonces_written: u64, frame_cap: u64, f: u64) -> (plan:
    Vec<WriteOp>)
    requires
        plot_nonces * NONCE_SIZE <= u64::MAX,
        frame_cap * NONCE_SIZE <= u64::MAX,
        f <= frame_cap,
        nonces_written + f <= plot_nonces,
    ensures
        plan@.len() == NUM_SCOOPS,
        forall|s: int|
            0 <= s < NUM_SCOOPS ==> {
                &&& (#[trigger] plan@[s]).file_offset == spec_file_offset(
                    plot_nonces as int,
                    s,
                    nonces_written as int,
                )
                &&& plan@[s].buf_start == spec_buf_offset(frame_cap as int, s, 0)
                &&& plan@[s].len == f * 64
            },
{
    let mut plan: Vec<WriteOp> = Vec::new();
    let mut scoop: u64 = 0;
    while scoop < 4096
        invariant
            scoop <= 4096,
            plan@.len() == scoop,
            plot_nonces * NONCE_SIZE <= u64::MAX,
            frame_cap * NONCE_SIZE <= u64::MAX,
            f <= frame_cap,
            nonces_written + f <= plot_nonces,
            forall|s: int|
                0 <= s < scoop ==> {
                    &&& (#[trigger] plan@[s]).file_offset == spec_file_offset(
                        plot_nonces as int,
                        s,
                        nonces_written as int,
                    )
                    &&& plan@[s].buf_start == spec_buf_offset(frame_cap as int, s, 0)
                    &&& plan@[s].len == f * 64
                },
        decreases 4096 - scoop,
    {
        proof {
            assert(scoop * plot_nonces * 64 + nonces_written * 64 <= u64::MAX
                && scoop * frame_cap * 64 <= u64::MAX && f * 64 <= u64::MAX) by (nonlinear_arith)
                requires
                    scoop < 4096,
                    plot_nonces * 262144 <= u64::MAX,
                    frame_cap * 262144 <= u64::MAX,
                    f <= frame_cap,
                    nonces_written + f <= plot_nonces,
            ;
        }
        let file_offset: u64 = scoop * plot_nonces * 64 + nonces_written * 64;
        let buf_start: u64 = scoop * frame_cap * 64;
        let len: u64 = f * 64;
        plan.push(WriteOp { file_offset, buf_start, len });
        scoop = scoop + 1;
    }
    plan
}

/// The writer's chunking of one stripe write: whole chunks of
/// `TASK_SIZE * 64` bytes, then the remainder, if any, as a final
/// shorter chunk.
pub fn chunk_lengths(f: u64) -> (chunks: Vec<u64>)
    requires
        f * SCOOP_SIZE <= u64::MAX,
    ensures
        chunks@.len() == f / TASK_SIZE + if f % TASK_SIZE > 0 {
            1int
        } else {
            0int
        },
        forall|i: int|
            0 <= i < f / TASK_SIZE ==> (#[trigger] chunks@[i]) == TASK_SIZE * SCOOP_SIZE,
        f % TASK_SIZE > 0 ==> chunks@[chunks@.len() - 1] == (f % TASK_SIZE) * SCOOP_SIZE,
{
    let n_full = f / TASK_SIZE;
    let mut chunks: Vec<u64> = Vec::new();
    let mut i: u64 = 0;
    while i < n_full
        invariant
            i <= n_full,
            n_full == f / TASK_SIZE,
            chunks@.len() == i,
            forall|j: int| 0 <= j < i ==> (#[trigger] chunks@[j]) == TASK_SIZE * SCOOP_SIZE,
        decreases n_full - i,
    {
        chunks.push(16384 * 64);
        i = i + 1;
    }
    if f % TASK_SIZE > 0 {
        let tail = (f % TASK_SIZE) * 64;
        chunks.push(tail);
    }
    chunks
}

/// What the writer does when the file does not open: an `EINVAL` from a
/// direct-I/O open means the filesystem refuses direct I/O, and the open
/// is retried buffered; any other failure abandons this frame.
#[derive(Clone, Copy, Debug, PartialEq, Eq, Structural)]
pub enum OpenFallback {
    /// Open again without direct I/O and keep going.
    RetryBuffered,
    /// Return the frame to the empty pool and skip it.
    AbandonFrame,
}

/// Decides the reaction to a failed open from whether the OS error was
/// `EINVAL`.
pub fn open_failure_action(is_einval: bool) -> (r: OpenFallback)
    ensures
        r == OpenFallback::RetryBuffered <==> is_einval,
{
    if is_einval {
        OpenFallback::RetryBuffered
    } else {
        OpenFallback::AbandonFrame
    }
}

/// Everything the writer does with one frame, precomputed: how many
/// nonces it takes, the stripe writes, the new progress count, the
/// trailer to append, and whether the job is then complete.
pub struct FrameJob {
    /// Nonces consumed from this frame.
    pub nonces_to_write: u64,
    /// One write per scoop stripe; empty in benchmark mode.
    pub ops: Vec<WriteOp>,
    /// Progress count after this frame.
    pub new_nonces_written: u64,
    /// Resume trailer bytes to place at the file's tail, when the plot is
    /// not yet complete and a file is being written at all.
    pub trailer: Option<Vec<u8>>,
    /// The plot is complete after this frame.
    pub done: bool,
}

/// Plans the writer's handling of one incoming frame.
pub fn plan_frame(plot_nonces: u64, benchmark: bool, nonces_written: u64, buffer_len: u64) -> (job:
    FrameJob)
    requires
        nonces_written < plot_nonces,
        plot_nonces * NONCE_SIZE <= u64::MAX,
        buffer_len >= NONCE_SIZE,
    ensures
        job.nonces_to_write == if buffer_len / NONCE_SIZE <= plot_nonces - nonces_written {
            (buffer_len / NONCE_SIZE) as int
        } else {
            plot_nonces - nonces_written
        },
        job.new_nonces_written == nonces_written + job.nonces_to_write,
        nonces_written < job.new_nonces_written <= plot_nonces,
        job.done <==> job.new_nonces_written == plot_nonces,
        benchmark ==> job.ops@.len() == 0 && job.trailer is None,
        !benchmark ==> {
            &&& job.ops@.len() == NUM_SCOOPS
            &&& forall|s: int|
                0 <= s < NUM_SCOOPS ==> {
                    &&& (#[trigger] job.ops@[s]).file_offset == spec_file_offset(
                        plot_nonces as int,
                        s,
                        nonces_written as int,
                    )
                    &&& job.ops@[s].buf_start == spec_buf_offset(
                        (buffer_len / NONCE_SIZE) as int,
                        s,
                        0,
                    )
                    &&& job.ops@[s].len == job.nonces_to_write * 64
                }
        },
        job.trailer is Some <==> !benchmark && !job.done,
        job.trailer matches Some(t) ==> t@ == spec_trailer(job.new_nonces_written as u32),
{
    let frame_cap = buffer_len / NONCE_SIZE;
    let f = nonces_to_write(buffer_len, plot_nonces, nonces_written);
    let new_written = nonces_written + f;
    let done = new_written == plot_nonces;
    proof {
        assert(buffer_len / NONCE_SIZE >= 1) by (nonlinear_arith)
            requires
                buffer_len >= NONCE_SIZE,
                NONCE_SIZE == 262144u64,
        ;
        assert(frame_cap * NONCE_SIZE <= buffer_len) by (nonlinear_arith)
            requires
                frame_cap == buffer_len / NONCE_SIZE,
                NONCE_SIZE == 262144u64,
        ;
    }
    let ops: Vec<WriteOp> = if benchmark {
        Vec::new()
    } else {
        build_write_plan(plot_nonces, nonces_written, frame_cap, f)
    };
    let trailer: Option<Vec<u8>> = if !benchmark && !done {
        Some(encode_resume_info(new_written as u32))
    } else {
        None
    };
    FrameJob { nonces_to_write: f, ops, new_nonces_written: new_written, trailer, done }
}

/// Progress never moves backwards: every frame advances the persisted
/// count, and the 32-bit value recorded in the trailer does not decrease
/// as long as the count fits the trailer's 32 bits.
pub proof fn lemma_progress_monotonic(job: FrameJob, nonces_written: u64)
    requires
        job.new_nonces_written == nonces_written + job.nonces_to_write,
    ensures
        job.new_nonces_written >= nonces_written,
        job.new_nonces_written <= u32::MAX ==> job.new_nonces_written as u32 >= nonces_written
            as u32,
{
}

/// With direct I/O every seek offset and every chunked write length is a
/// multiple of the device sector size, provided the sector size divides
/// the stripe length, the already-written prefix and the frame's slice —
/// which holds for the power-of-two sector sizes devices report, since
/// frames are sized in whole writer chunks.
pub proof fn lemma_write_alignment(
    sector: int,
    plot_nonces: int,
    nonces_written: int,
    f: int,
    s: int,
)
    requires
        sector >= 1,
        (plot_nonces * 64) % sector == 0,
        (nonces_written * 64) % sector == 0,
        (f * 64) % sector == 0,
        0x100000int % sector == 0,
    ensures
        spec_file_offset(plot_nonces, s, nonces_written) % sector == 0,
        (TASK_SIZE * SCOOP_SIZE) % sector == 0,
        ((f % (TASK_SIZE as int)) * 64) % sector == 0,
{
    let stripe = plot_nonces * 64;
    vstd::arithmetic::div_mod::lemma_small_mod(0nat, sector as nat);
    assert(s * plot_nonces * 64 == s * stripe) by (nonlinear_arith)
        requires
            stripe == plot_nonces * 64,
    ;
    vstd::arithmetic::div_mod::lemma_mul_mod_noop_right(s, stripe, sector);
    assert((s * stripe) % sector == 0);
    vstd::arithmetic::div_mod::lemma_add_mod_noop(s * stripe, nonces_written * 64, sector);
    assert(TASK_SIZE * SCOOP_SIZE == 0x100000);
    let q = f / (TASK_SIZE as int);
    let r = f % (TASK_SIZE as int);
    vstd::arithmetic::div_mod::lemma_fundamental_div_mod(f, TASK_SIZE as int);
    assert(r * 64 == f * 64 - q * 0x100000int) by (nonlinear_arith)
        requires
            f == TASK_SIZE * q + r,
            TASK_SIZE == 16384u64,
    ;
    vstd::arithmetic::div_mod::lemma_mul_mod_noop_right(q, 0x100000, sector);
    assert((q * 0x100000int) % sector == 0);
    vstd::arithmetic::div_mod::lemma_sub_mod_noop(f * 64, q * 0x100000int, sector);
    assert(((f * 64) % sector - (q * 0x100000int) % sector) % sector == (f * 64 - q * 0x100000int)
        % sector);
}

} // verus!
