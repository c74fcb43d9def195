//! Plot file generator core for a Proof-of-Capacity blockchain.
//!
//! The library holds the verified logic of the plotter: the PoC2 nonce
//! construction over Shabal-256, the scoop-major transposition that the
//! writer performs, the resume trailer, buffer sizing, and the filename
//! scan of the auto-sequence mode. File and thread handling live outside
//! the library and call into it with plain values.

mod autoseq;
mod buffer;
mod noncegen;
mod plotter;
mod shabal;
mod trailer;
mod writer;

pub use autoseq::lemma_auto_sequence_contiguity;
pub use autoseq::lemma_scan_is_max;
pub use autoseq::parse_plot_filename;
pub use autoseq::parse_u64_range;
pub use autoseq::plot_filename;
pub use autoseq::scan_next_start;
pub use autoseq::u64_to_decimal;

pub use buffer::PageAlignedByteBuffer;

pub use noncegen::build_frame;
pub use noncegen::generate_nonce;
pub use noncegen::generate_nonces_batch;
pub use noncegen::lemma_transposition;

pub use plotter::CpuFeatures;
pub use plotter::NONCE_SIZE;
pub use plotter::NUM_SCOOPS;
pub use plotter::PlotError;
pub use plotter::PlotterTask;
pub use plotter::SCOOP_SIZE;
pub use plotter::SimdLane;
pub use plotter::TASK_SIZE;
pub use plotter::compute_frame_nonces;
pub use plotter::lemma_lane_divides_task_size;
pub use plotter::resolve_cpu_threads;
pub use plotter::round_nonces_to_lanes;
pub use plotter::select_simd_lane;

pub use shabal::shabal256_range;

pub use trailer::as_u32_le;
pub use trailer::as_u8_le;
pub use trailer::decode_resume_info;
pub use trailer::encode_resume_info;
pub use trailer::lemma_le_round_trip;
pub use trailer::lemma_resume_round_trip;

pub use writer::FrameJob;
pub use writer::OpenFallback;
pub use writer::WriteOp;
pub use writer::build_write_plan;
pub use writer::chunk_lengths;
pub use writer::lemma_progress_monotonic;
pub use writer::lemma_write_alignment;
pub use writer::nonces_to_write;
pub use writer::open_failure_action;
pub use writer::plan_frame;
