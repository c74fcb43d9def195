use anne_plotter::build_frame;
use anne_plotter::build_write_plan;
use anne_plotter::generate_nonce;
use anne_plotter::generate_nonces_batch;
use anne_plotter::shabal256_range;

const SCOOP: usize = 64;
const NONCE: usize = 262144;

/// Scoop `s` of a generated nonce: hashes are stored in reverse, so it
/// sits at byte `(4095 - s) * 64`.
fn scoop_of(nonce: &[u8], s: usize) -> &[u8] {
    &nonce[(4095 - s) * SCOOP..(4095 - s) * SCOOP + SCOOP]
}

#[test]
fn digest_is_deterministic() {
    let msg: Vec<u8> = (0u32..1000).map(|i| (i % 251) as u8).collect();
    let d1 = shabal256_range(&msg, 0, msg.len());
    let d2 = shabal256_range(&msg, 0, msg.len());
    assert_eq!(d1.len(), 32);
    assert_eq!(d1, d2);
    // The digest of a range equals the digest of that range copied out.
    let copy: Vec<u8> = msg[100..400].to_vec();
    assert_eq!(shabal256_range(&msg, 100, 300), shabal256_range(&copy, 0, 300));
    // A different message gives a different digest.
    assert_ne!(shabal256_range(&msg, 0, 299), shabal256_range(&msg, 0, 300));
}

#[test]
fn nonce_is_deterministic() {
    // Running the generator twice on the same inputs gives identical
    // bytes; a neighbouring nonce differs.
    let a = generate_nonce(1, 0);
    let b = generate_nonce(1, 0);
    assert_eq!(a.len(), NONCE);
    assert_eq!(a, b);
    let c = generate_nonce(1, 1);
    assert_ne!(a, c);
}

#[test]
fn lane_equivalence_across_widths() {
    // The lockstep four-lane batch and the scalar generator produce
    // bit-identical nonces for the same indices.
    let id = 5u64;
    let batch = generate_nonces_batch(id, 100, 4);
    assert_eq!(batch.len(), 4);
    for l in 0..4u64 {
        assert_eq!(batch[l as usize], generate_nonce(id, 100 + l));
    }
}

#[test]
fn frame_layout_matches_single_nonce_generator() {
    // A frame for one nonce holds its scoops scoop-major; every byte
    // agrees with the reference single-nonce generator.
    let id = 77u64;
    let frame = build_frame(id, 5, 1, 1);
    let nonce = generate_nonce(id, 5);
    assert_eq!(frame.len(), NONCE);
    for s in 0..4096usize {
        assert_eq!(&frame[s * SCOOP..s * SCOOP + SCOOP], scoop_of(&nonce, s));
    }
}

#[test]
fn scenario_two_mib_plot_layout() {
    // id 1234567890123456789, start nonce 0, 8 nonces: one frame is the
    // whole 2 MiB file. File byte 0..64 is scoop 0 of nonce 0, byte
    // 64..128 is scoop 0 of nonce 1, byte 512..576 is scoop 1 of nonce 0.
    let id = 1234567890123456789u64;
    let n = 8u64;
    let frame = build_frame(id, 0, n, n);
    assert_eq!(frame.len(), 2 * 1024 * 1024);
    let plan = build_write_plan(n, 0, n, n);
    // The single frame covers the file: stripe s lands at s * n * 64.
    assert_eq!(plan[0].file_offset, 0);
    assert_eq!(plan[0].buf_start, 0);
    assert_eq!(plan[1].file_offset, 8 * 64);
    assert_eq!(plan[1].buf_start, 8 * 64);
    let nonce0 = generate_nonce(id, 0);
    let nonce1 = generate_nonce(id, 1);
    assert_eq!(&frame[0..64], scoop_of(&nonce0, 0));
    assert_eq!(&frame[64..128], scoop_of(&nonce1, 0));
    assert_eq!(&frame[8 * 64..8 * 64 + 64], scoop_of(&nonce0, 1));
    // The last stripe holds scoop 4095, which sits at the nonce's start.
    assert_eq!(&frame[4095 * 8 * 64..4095 * 8 * 64 + 64], &nonce0[0..64]);
}

#[test]
fn full_file_image_of_two_frames_matches_reference() {
    // Four nonces written as two frames of two: applying each frame's
    // write plan to an in-memory image produces the scoop-major file,
    // byte for byte, and doing it all again changes nothing.
    let id = 11u64;
    let start = 3u64;
    let total = 4u64;
    let cap = 2u64;
    let mut image = vec![0u8; (total * NONCE as u64) as usize];
    let mut written = 0u64;
    while written < total {
        let f = (total - written).min(cap);
        let frame = build_frame(id, start + written, cap, f);
        let plan = build_write_plan(total, written, cap, f);
        for op in plan.iter() {
            let src = &frame[op.buf_start as usize..(op.buf_start + op.len) as usize];
            image[op.file_offset as usize..(op.file_offset + op.len) as usize]
                .copy_from_slice(src);
        }
        written += f;
    }
    let stripe = (total * 64) as usize;
    for n in 0..total {
        let nonce = generate_nonce(id, start + n);
        for s in [0usize, 1, 2047, 4095] {
            let at = s * stripe + (n as usize) * SCOOP;
            assert_eq!(&image[at..at + SCOOP], scoop_of(&nonce, s));
        }
    }
    // A second identical run writes the same bytes.
    let first = image.clone();
    let mut written = 0u64;
    while written < total {
        let f = (total - written).min(cap);
        let frame = build_frame(id, start + written, cap, f);
        let plan = build_write_plan(total, written, cap, f);
        for op in plan.iter() {
            let src = &frame[op.buf_start as usize..(op.buf_start + op.len) as usize];
            image[op.file_offset as usize..(op.file_offset + op.len) as usize]
                .copy_from_slice(src);
        }
        written += f;
    }
    assert_eq!(image, first);
}

#[test]
fn partial_frame_keeps_capacity_stride() {
    // A frame with room for 2 nonces holding only 1: scoop s of the
    // nonce sits at s * 2 * 64, and the empty slot is zero filler.
    let id = 3u64;
    let frame = build_frame(id, 9, 2, 1);
    let nonce = generate_nonce(id, 9);
    assert_eq!(frame.len(), 2 * NONCE);
    for s in [0usize, 1, 4095] {
        assert_eq!(&frame[s * 2 * SCOOP..s * 2 * SCOOP + SCOOP], scoop_of(&nonce, s));
        assert!(frame[s * 2 * SCOOP + SCOOP..s * 2 * SCOOP + 2 * SCOOP].iter().all(|&b| b == 0));
    }
}
