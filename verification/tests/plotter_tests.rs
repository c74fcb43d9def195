use anne_plotter::CpuFeatures;
use anne_plotter::OpenFallback;
use anne_plotter::PageAlignedByteBuffer;
use anne_plotter::SimdLane;
use anne_plotter::as_u32_le;
use anne_plotter::as_u8_le;
use anne_plotter::build_write_plan;
use anne_plotter::chunk_lengths;
use anne_plotter::compute_frame_nonces;
use anne_plotter::decode_resume_info;
use anne_plotter::encode_resume_info;
use anne_plotter::nonces_to_write;
use anne_plotter::open_failure_action;
use anne_plotter::parse_plot_filename;
use anne_plotter::parse_u64_range;
use anne_plotter::plan_frame;
use anne_plotter::plot_filename;
use anne_plotter::resolve_cpu_threads;
use anne_plotter::round_nonces_to_lanes;
use anne_plotter::scan_next_start;
use anne_plotter::select_simd_lane;
use anne_plotter::u64_to_decimal;

#[test]
fn buffer_creation_destruction_test() {
    {
        let _test = PageAlignedByteBuffer::new(1024 * 1024);
    }
    assert!(true);
}

#[test]
fn buffer_is_zeroed_and_sized() {
    let b = PageAlignedByteBuffer::new(4096);
    let v = b.get_buffer();
    assert_eq!(v.len(), 4096);
    assert!(v.iter().all(|&x| x == 0));
}

#[test]
fn le_codec_round_trip() {
    assert_eq!(as_u8_le(0xDEAD_BEEF), [0xEF, 0xBE, 0xAD, 0xDE]);
    assert_eq!(as_u32_le([0xEF, 0xBE, 0xAD, 0xDE]), 0xDEAD_BEEF);
    for &x in &[0u32, 1, 0xFFFF_FFFF, 0x0102_0304] {
        assert_eq!(as_u32_le(as_u8_le(x)), x);
    }
}

#[test]
fn resume_trailer_round_trip() {
    let t = encode_resume_info(12345);
    assert_eq!(t.len(), 8);
    assert_eq!(&t[4..8], &[0xAF, 0xFE, 0xAF, 0xFE]);
    assert_eq!(decode_resume_info(&t), Some(12345));
}

#[test]
fn resume_trailer_without_marker_is_rejected() {
    let t = vec![1, 2, 3, 4, 5, 6, 7, 8];
    assert_eq!(decode_resume_info(&t), None);
}

#[test]
fn lane_selection_priority() {
    let f = CpuFeatures { avx512f: true, avx2: true, avx: true, sse2: true };
    assert_eq!(select_simd_lane(f), SimdLane::Avx512F);
    let f = CpuFeatures { avx512f: false, avx2: true, avx: true, sse2: true };
    assert_eq!(select_simd_lane(f), SimdLane::Avx2);
    let f = CpuFeatures { avx512f: false, avx2: false, avx: true, sse2: true };
    assert_eq!(select_simd_lane(f), SimdLane::Avx);
    let f = CpuFeatures { avx512f: false, avx2: false, avx: false, sse2: true };
    assert_eq!(select_simd_lane(f), SimdLane::Sse2);
    let f = CpuFeatures { avx512f: false, avx2: false, avx: false, sse2: false };
    assert_eq!(select_simd_lane(f), SimdLane::Scalar);
    assert_eq!(SimdLane::Avx2.count(), 8);
    assert_eq!(SimdLane::Scalar.count(), 1);
}

#[test]
fn rounding_to_lane_multiples() {
    // Seven nonces on an eight-lane generator round down to none.
    assert_eq!(round_nonces_to_lanes(7, SimdLane::Avx2), 0);
    assert_eq!(round_nonces_to_lanes(17, SimdLane::Avx2), 16);
    assert_eq!(round_nonces_to_lanes(16, SimdLane::Avx512F), 16);
    assert_eq!(round_nonces_to_lanes(7, SimdLane::Scalar), 7);
}

#[test]
fn scenario_rounding_keeps_requested_count_in_filename() {
    // Requested 7 nonces, AVX2 lanes: nothing is plotted, the trailer
    // records zero, but the filename still says 7.
    let plotted = round_nonces_to_lanes(7, SimdLane::Avx2);
    assert_eq!(plotted, 0);
    let name = plot_filename(99, 0, 7);
    assert_eq!(name, b"99_0_7".to_vec());
    let t = encode_resume_info(plotted as u32);
    assert_eq!(decode_resume_info(&t), Some(0));
}

#[test]
fn cpu_thread_resolution() {
    assert_eq!(resolve_cpu_threads(0, 8), 8);
    assert_eq!(resolve_cpu_threads(4, 8), 4);
    assert_eq!(resolve_cpu_threads(200, 8), 16);
    assert_eq!(resolve_cpu_threads(255, 200), 255);
}

#[test]
fn frame_sizing_fits_budget() {
    // Plenty of memory: the frame is capped by the job itself.
    let k = compute_frame_nonces(0, 32768, true).unwrap();
    assert_eq!(k, 16384);
    // A cap of one double-buffered chunk.
    let k = compute_frame_nonces(2 * 16384 * 262144, 1 << 30, true).unwrap();
    assert_eq!(k, 16384);
    // Single buffering doubles the frame for the same cap.
    let k = compute_frame_nonces(2 * 16384 * 262144, 1 << 30, false).unwrap();
    assert_eq!(k, 32768);
    // Too small for even one chunk.
    assert_eq!(
        compute_frame_nonces(1024, 1 << 30, true),
        Err(anne_plotter::PlotError::MemoryCapTooSmall)
    );
    // A small job bounds the budget below one chunk.
    assert!(compute_frame_nonces(0, 100, true).is_err());
}

#[test]
fn write_plan_offsets() {
    // 32768 nonces in the file, 16384 already written, frame of 16384.
    let plan = build_write_plan(32768, 16384, 16384, 16384);
    assert_eq!(plan.len(), 4096);
    for (s, op) in plan.iter().enumerate() {
        let s = s as u64;
        assert_eq!(op.file_offset, s * 32768 * 64 + 16384 * 64);
        assert_eq!(op.buf_start, s * 16384 * 64);
        assert_eq!(op.len, 16384 * 64);
    }
}

#[test]
fn write_plan_alignment_under_direct_io() {
    // Sector-aligned geometry: every seek offset and chunk length is a
    // multiple of the sector size.
    let sector = 4096u64;
    let plot_nonces = 16384u64;
    let plan = build_write_plan(plot_nonces, 0, 16384, 16384);
    for op in plan.iter() {
        assert_eq!(op.file_offset % sector, 0);
    }
    let chunks = chunk_lengths(16384);
    for c in chunks.iter() {
        assert_eq!(c % sector, 0);
    }
}

#[test]
fn chunk_lengths_cover_stripe() {
    let chunks = chunk_lengths(40000);
    // 40000 = 2 * 16384 + 7232.
    assert_eq!(chunks.len(), 3);
    assert_eq!(chunks[0], 16384 * 64);
    assert_eq!(chunks[1], 16384 * 64);
    assert_eq!(chunks[2], 7232 * 64);
    assert_eq!(chunks.iter().sum::<u64>(), 40000 * 64);
}

#[test]
fn open_fallback_on_einval_only() {
    assert_eq!(open_failure_action(true), OpenFallback::RetryBuffered);
    assert_eq!(open_failure_action(false), OpenFallback::AbandonFrame);
}

#[test]
fn benchmark_frames_write_nothing() {
    // Benchmark mode: the producer side runs, the writer performs no
    // file operation and appends no trailer.
    let job = plan_frame(16384, true, 0, 16384 * 262144);
    assert_eq!(job.nonces_to_write, 16384);
    assert_eq!(job.ops.len(), 0);
    assert!(job.trailer.is_none());
    assert!(job.done);
}

#[test]
fn progress_is_monotonic_across_frames() {
    // Two frames: the trailer value after the first is below the final
    // count, and progress never decreases.
    let job1 = plan_frame(32768, false, 0, 16384 * 262144);
    assert_eq!(job1.nonces_to_write, 16384);
    assert_eq!(job1.new_nonces_written, 16384);
    assert!(!job1.done);
    let t1 = job1.trailer.unwrap();
    assert_eq!(decode_resume_info(&t1), Some(16384));
    let job2 = plan_frame(32768, false, job1.new_nonces_written, 16384 * 262144);
    assert_eq!(job2.new_nonces_written, 32768);
    assert!(job2.new_nonces_written >= job1.new_nonces_written);
    assert!(job2.done);
    assert!(job2.trailer.is_none());
}

#[test]
fn short_last_frame_is_clipped() {
    assert_eq!(nonces_to_write(16384 * 262144, 20000, 16384), 3616);
    let job = plan_frame(20000, false, 16384, 16384 * 262144);
    assert_eq!(job.nonces_to_write, 3616);
    assert!(job.done);
    for op in job.ops.iter() {
        assert_eq!(op.len, 3616 * 64);
    }
}

#[test]
fn decimal_codec() {
    assert_eq!(u64_to_decimal(0), b"0".to_vec());
    assert_eq!(u64_to_decimal(42), b"42".to_vec());
    assert_eq!(u64_to_decimal(u64::MAX), b"18446744073709551615".to_vec());
    let v = b"18446744073709551615".to_vec();
    assert_eq!(parse_u64_range(&v, 0, v.len()), Some(u64::MAX));
    let v = b"18446744073709551616".to_vec();
    assert_eq!(parse_u64_range(&v, 0, v.len()), None);
    let v = b"007".to_vec();
    assert_eq!(parse_u64_range(&v, 0, v.len()), Some(7));
    let v = b"1x2".to_vec();
    assert_eq!(parse_u64_range(&v, 0, v.len()), None);
    let v = b"".to_vec();
    assert_eq!(parse_u64_range(&v, 0, 0), None);
}

#[test]
fn filename_round_trip() {
    let name = plot_filename(1234567890123456789, 600, 1024);
    assert_eq!(name, b"1234567890123456789_600_1024".to_vec());
    assert_eq!(parse_plot_filename(&name, 1234567890123456789), Some((600, 1024)));
    assert_eq!(parse_plot_filename(&name, 123), None);
    assert_eq!(parse_plot_filename(&b"junk".to_vec(), 42), None);
    assert_eq!(parse_plot_filename(&b"42_junk_4".to_vec(), 42), None);
    assert_eq!(parse_plot_filename(&b"42_1".to_vec(), 42), None);
    // Extra fields after the count are ignored, as a split would do.
    assert_eq!(parse_plot_filename(&b"42_1_4_x".to_vec(), 42), Some((1, 4)));
}

#[test]
fn scenario_auto_sequence_chain() {
    // One plain run for id 42 with 4 nonces, then three auto-sequence
    // runs: the directory ends with the contiguous chain
    // 42_0_4, 42_4_4, 42_8_4, 42_12_4.
    let id = 42u64;
    let requested = 4u64;
    let mut dir: Vec<Vec<u8>> = Vec::new();
    dir.push(plot_filename(id, 0, requested));
    let mut made: Vec<Vec<u8>> = Vec::new();
    for _ in 0..3 {
        let mut entries: Vec<(u64, u64)> = Vec::new();
        for name in &dir {
            if let Some(e) = parse_plot_filename(name, id) {
                entries.push(e);
            }
        }
        let (next_start, _per_file) = scan_next_start(&entries, requested);
        let name = plot_filename(id, next_start, requested);
        made.push(name.clone());
        dir.push(name);
    }
    assert_eq!(made[0], b"42_4_4".to_vec());
    assert_eq!(made[1], b"42_8_4".to_vec());
    assert_eq!(made[2], b"42_12_4".to_vec());
}

#[test]
fn scan_resumes_after_partial_file() {
    // A run was killed mid-plot: the file is named with the full count,
    // so the next auto-sequence run continues after it.
    let id = 7u64;
    let dir = vec![plot_filename(id, 0, 8), b"7_stray".to_vec(), b"other_0_4".to_vec()];
    let mut entries: Vec<(u64, u64)> = Vec::new();
    for name in &dir {
        if let Some(e) = parse_plot_filename(name, id) {
            entries.push(e);
        }
    }
    assert_eq!(entries, vec![(0, 8)]);
    let (next_start, per_file) = scan_next_start(&entries, 8);
    assert_eq!(next_start, 8);
    assert_eq!(per_file, 8);
}

#[test]
fn scan_of_empty_directory_starts_at_zero() {
    let entries: Vec<(u64, u64)> = Vec::new();
    let (next_start, per_file) = scan_next_start(&entries, 100);
    assert_eq!(next_start, 0);
    assert_eq!(per_file, 100);
}

#[test]
fn scan_keeps_count_of_furthest_file() {
    let entries = vec![(0u64, 16u64), (16u64, 8u64)];
    let (next_start, per_file) = scan_next_start(&entries, 99);
    assert_eq!(next_start, 24);
    assert_eq!(per_file, 8);
}
