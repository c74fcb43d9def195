//! Plotting parameters: the task description, the SIMD lane selection,
//! nonce-count rounding and buffer sizing.

use vstd::prelude::*;

verus! {

/// Bytes of one nonce: 4096 scoops of 64 bytes.
pub const NONCE_SIZE: u64 = 262144;

/// Bytes of one scoop.
pub const SCOOP_SIZE: u64 = 64;

/// Scoops in one nonce.
pub const NUM_SCOOPS: u64 = 4096;

/// Writer chunk, counted in nonces: one chunked write moves
/// `TASK_SIZE * SCOOP_SIZE` bytes of a scoop stripe.
pub const TASK_SIZE: u64 = 16384;

/// A plotting job, immutable once built.
pub struct PlotterTask {
    /// The 64-bit account identifier.
    pub numeric_id: u64,
    /// First nonce index of this file.
    pub start_nonce: u64,
    /// Requested nonce count. The filename carries this value; the count
    /// actually plotted is rounded down to a multiple of the lane count.
    pub nonces: u64,
    /// Directory that receives the plot file.
    pub output_path: String,
    /// Memory cap in bytes; 0 means no user cap.
    pub mem_cap: u64,
    /// Producer thread count.
    pub cpu_threads: u8,
    /// Open the output file with direct I/O.
    pub direct_io: bool,
    /// Use two buffer frames (double buffering) instead of one.
    pub async_io: bool,
    /// Benchmark mode: generate nonces but write no file.
    pub benchmark: bool,
}

/// What stopped a plotting job before any work was done.
#[derive(Clone, Copy, Debug, PartialEq, Eq, Structural)]
pub enum PlotError {
    /// The memory cap admits not even one buffer frame.
    MemoryCapTooSmall,
}

/// CPU capability flags, as detected by the caller.
#[derive(Clone, Copy, Debug, PartialEq, Eq, Structural)]
pub struct CpuFeatures {
    pub avx512f: bool,
    pub avx2: bool,
    pub avx: bool,
    pub sse2: bool,
}

/// The SIMD lane width the generator runs with.
#[derive(Clone, Copy, Debug, PartialEq, Eq, Structural)]
pub enum SimdLane {
    Avx512F,
    Avx2,
    Avx,
    Sse2,
    Scalar,
}

impl SimdLane {
    /// Nonces hashed in lockstep by this lane width.
    pub open spec fn spec_count(self) -> u64 {
        match self {
            SimdLane::Avx512F => 16,
            SimdLane::Avx2 => 8,
            SimdLane::Avx => 4,
            SimdLane::Sse2 => 4,
            SimdLane::Scalar => 1,
        }
    }

    /// Nonces hashed in lockstep by this lane width.
    pub fn count(self) -> (r: u64)
        ensures
            r == self.spec_count(),
            1 <= r <= 16,
    {
        match self {
            SimdLane::Avx512F => 16,
            SimdLane::Avx2 => 8,
            SimdLane::Avx => 4,
            SimdLane::Sse2 => 4,
            SimdLane::Scalar => 1,
        }
    }
}

/// Every lane width divides the writer chunk, so a frame sized in whole
/// chunks always holds whole lane groups.
pub proof fn lemma_lane_divides_task_size(lane: SimdLane)
    ensures
        TASK_SIZE % lane.spec_count() == 0,
{
    match lane {
        SimdLane::Avx512F => assert(16384u64 % 16 == 0),
        SimdLane::Avx2 => assert(16384u64 % 8 == 0),
        SimdLane::Avx => assert(16384u64 % 4 == 0),
        SimdLane::Sse2 => assert(16384u64 % 4 == 0),
        SimdLane::Scalar => assert(16384u64 % 1 == 0),
    }
}

/// Picks the widest lane the CPU supports: AVX-512F over AVX2 over AVX
/// over SSE2, with the scalar path as the fallback.
pub fn select_simd_lane(f: CpuFeatures) -> (r: SimdLane)
    ensures
        f.avx512f ==> r == SimdLane::Avx512F,
        !f.avx512f && f.avx2 ==> r == SimdLane::Avx2,
        !f.avx512f && !f.avx2 && f.avx ==> r == SimdLane::Avx,
        !f.avx512f && !f.avx2 && !f.avx && f.sse2 ==> r == SimdLane::Sse2,
        !f.avx512f && !f.avx2 && !f.avx && !f.sse2 ==> r == SimdLane::Scalar,
{
    if f.avx512f {
        SimdLane::Avx512F
    } else if f.avx2 {
        SimdLane::Avx2
    } else if f.avx {
        SimdLane::Avx
    } else if f.sse2 {
        SimdLane::Sse2
    } else {
        SimdLane::Scalar
    }
}

/// The nonce count actually plotted: the requested count rounded down to
/// a whole number of lane groups.
pub fn round_nonces_to_lanes(nonces: u64, lane: SimdLane) -> (r: u64)
    ensures
        r == (nonces / lane.spec_count()) * lane.spec_count(),
        r <= nonces,
        r % lane.spec_count() == 0,
        nonces - r < lane.spec_count(),
{
    let count = lane.count();
    let r = nonces / count * count;
    proof {
        vstd::arithmetic::div_mod::lemma_fundamental_div_mod(nonces as int, count as int);
        vstd::arithmetic::div_mod::lemma_mod_multiples_basic(
            (nonces / count) as int,
            count as int,
        );
    }
    r
}

/// Producer thread count: 0 asks for one thread per core; an explicit
/// request is capped at twice the core count.
pub fn resolve_cpu_threads(requested: u8, cores: u8) -> (r: u8)
    ensures
        requested == 0 ==> r == cores,
        requested != 0 && requested <= 2 * cores ==> r == requested,
        requested != 0 && requested > 2 * cores ==> r == 2 * cores,
{
    if requested == 0 {
        cores
    } else {
        let cap: u16 = 2 * (cores as u16);
        if (requested as u16) <= cap {
            requested
        } else {
            cap as u8
        }
    }
}

/// Buffer frames in flight: two with asynchronous writing, one without.
pub open spec fn spec_frame_count(async_io: bool) -> u64 {
    if async_io {
        2
    } else {
        1
    }
}

/// The memory budget the frames must fit in: the user's cap, but never
/// more than the whole job takes; a cap of 0 means no user cap.
pub open spec fn spec_mem_budget(mem_cap: u64, plot_nonces: u64) -> int {
    let job = plot_nonces * NONCE_SIZE;
    if mem_cap == 0 || mem_cap > job {
        job
    } else {
        mem_cap as int
    }
}

/// Nonces per buffer frame: the largest whole number of writer chunks
/// such that all frames together stay within the memory budget. Fails
/// when not even one chunk fits.
pub fn compute_frame_nonces(mem_cap: u64, plot_nonces: u64, async_io: bool) -> (r: Result<
    u64,
    PlotError,
>)
    requires
        plot_nonces * NONCE_SIZE <= u64::MAX,
    ensures
        (r is Ok) <==> spec_mem_budget(mem_cap, plot_nonces) >= spec_frame_count(async_io)
            * TASK_SIZE * NONCE_SIZE,
        r matches Ok(k) ==> {
            &&& k > 0
            &&& k % TASK_SIZE == 0
            &&& spec_frame_count(async_io) * k * NONCE_SIZE <= spec_mem_budget(
                mem_cap,
                plot_nonces,
            )
            &&& spec_frame_count(async_io) * (k + TASK_SIZE) * NONCE_SIZE > spec_mem_budget(
                mem_cap,
                plot_nonces,
            )
        },
        r matches Err(e) ==> e == PlotError::MemoryCapTooSmall,
{
    let frames: u64 = if async_io {
        2
    } else {
        1
    };
    let job: u64 = plot_nonces * NONCE_SIZE;
    let budget: u64 = if mem_cap == 0 || mem_cap > job {
        job
    } else {
        mem_cap
    };
    let per_chunk: u64 = frames * TASK_SIZE * NONCE_SIZE;
    let chunks: u64 = budget / per_chunk;
    let k: u64 = chunks * TASK_SIZE;
    proof {
        let b = budget as int;
        let p = per_chunk as int;
        let c = chunks as int;
        vstd::arithmetic::div_mod::lemma_fundamental_div_mod(b, p);
        assert(c * p <= b && (c + 1) * p > b) by (nonlinear_arith)
            requires
                b == p * c + b % p,
                0 <= b % p < p,
        ;
        assert(frames * k * NONCE_SIZE == c * p) by (nonlinear_arith)
            requires
                k == c * TASK_SIZE,
                p == frames * TASK_SIZE * NONCE_SIZE,
                TASK_SIZE == 16384,
                NONCE_SIZE == 262144,
        ;
        assert(frames * (k + TASK_SIZE) * NONCE_SIZE == (c + 1) * p) by (nonlinear_arith)
            requires
                k == c * TASK_SIZE,
                p == frames * TASK_SIZE * NONCE_SIZE,
                TASK_SIZE == 16384,
                NONCE_SIZE == 262144,
        ;
        vstd::arithmetic::div_mod::lemma_mod_multiples_basic(c, TASK_SIZE as int);
    }
    if chunks == 0 {
        Err(PlotError::MemoryCapTooSmall)
    } else {
        Ok(k)
    }
}

} // verus!
