//! PoC2 nonce generation and the scoop-major frame layout.
//!
//! A nonce is 256 KiB derived from `(numeric_id, nonce_index)`: a 16-byte
//! big-endian seed is placed at the top of a scratch region, 8192 hashes
//! are produced over a growing (capped) suffix of that region and stored
//! downwards, and a final digest over the whole 256 KiB is XORed into it.
//! Scoop `s` is the pair of hashes `(H_{2s}, H_{2s+1})`; with the hashes
//! stored in reverse it sits at byte `(4095 − s) · 64` of the nonce.

use vstd::prelude::*;

use crate::plotter::NONCE_SIZE;
use crate::shabal::spec_shabal256;
use crate::shabal::shabal256_range;
use crate::writer::spec_buf_offset;
use crate::writer::spec_file_offset;

verus! {

/// The eight big-endian bytes of a `u64`, highest first.
pub open spec fn spec_be8(x: u64) -> Seq<u8> {
    seq![
        ((x / 0x100_0000_0000_0000) % 0x100) as u8,
        ((x / 0x1_0000_0000_0000) % 0x100) as u8,
        ((x / 0x100_0000_0000) % 0x100) as u8,
        ((x / 0x1_0000_0000) % 0x100) as u8,
        ((x / 0x100_0000) % 0x100) as u8,
        ((x / 0x1_0000) % 0x100) as u8,
        ((x / 0x100) % 0x100) as u8,
        (x % 0x100) as u8,
    ]
}

/// The 16-byte seed: big-endian account id, then big-endian nonce index.
pub open spec fn spec_seed(numeric_id: u64, nonce: u64) -> Seq<u8> {
    spec_be8(numeric_id) + spec_be8(nonce)
}

/// Length hashed at iteration `i`: the written part of the scratch
/// region, capped at 4096 bytes.
pub open spec fn spec_hash_len(i: nat) -> int {
    if 32 * i + 16 < 4096 {
        (32 * i + 16) as int
    } else {
        4096
    }
}

/// The written scratch region after `i` iterations, lowest address
/// first: `i` hashes stored downwards, then the seed at the top. Each
/// iteration hashes the topmost `spec_hash_len(i)` bytes and prepends
/// the digest.
pub open spec fn spec_gen_region(numeric_id: u64, nonce: u64, i: nat) -> Seq<u8>
    decreases i,
{
    if i == 0 {
        spec_seed(numeric_id, nonce)
    } else {
        let prev = spec_gen_region(numeric_id, nonce, (i - 1) as nat);
        let l = spec_hash_len((i - 1) as nat);
        spec_shabal256(prev.subrange(prev.len() - l, prev.len() as int)) + prev
    }
}

/// The 256 KiB of hash output before the final XOR pass.
pub open spec fn spec_prenonce(numeric_id: u64, nonce: u64) -> Seq<u8> {
    spec_gen_region(numeric_id, nonce, 8192).take(262144)
}

/// The digest of the whole 256 KiB that the XOR pass folds in.
pub open spec fn spec_final_digest(numeric_id: u64, nonce: u64) -> Seq<u8> {
    spec_shabal256(spec_prenonce(numeric_id, nonce))
}

/// The finished 256 KiB nonce: the hash output XORed, in 32-byte
/// strides, with the digest of the whole region.
pub open spec fn spec_nonce(numeric_id: u64, nonce: u64) -> Seq<u8> {
    Seq::new(
        262144,
        |k: int|
            spec_prenonce(numeric_id, nonce)[k] ^ spec_final_digest(numeric_id, nonce)[k % 32],
    )
}

/// Scoop `s` of a nonce: hashes `H_{2s}` and `H_{2s+1}`, which the
/// reverse storage order places at byte `(4095 − s) · 64`.
pub open spec fn spec_scoop(numeric_id: u64, nonce: u64, s: int) -> Seq<u8> {
    spec_nonce(numeric_id, nonce).subrange((4095 - s) * 64, (4095 - s) * 64 + 64)
}

/// Writes the big-endian bytes of `x` into `buf` at `off`.
fn write_be8(buf: &mut Vec<u8>, off: usize, x: u64)
    requires
        off + 8 <= old(buf)@.len(),
    ensures
        final(buf)@.len() == old(buf)@.len(),
        forall|t: int| 0 <= t < 8 ==> final(buf)@[off + t] == spec_be8(x)[t],
        forall|p: int|
            0 <= p < old(buf)@.len() && !(off <= p < off + 8) ==> final(buf)@[p] == old(buf)@[p],
{
    let n: usize = buf.len();
    proof {
        assert(off + 8 <= n);
    }
    buf.set(off, ((x / 0x100_0000_0000_0000) % 0x100) as u8);
    buf.set(off + 1, ((x / 0x1_0000_0000_0000) % 0x100) as u8);
    buf.set(off + 2, ((x / 0x100_0000_0000) % 0x100) as u8);
    buf.set(off + 3, ((x / 0x1_0000_0000) % 0x100) as u8);
    buf.set(off + 4, ((x / 0x100_0000) % 0x100) as u8);
    buf.set(off + 5, ((x / 0x1_0000) % 0x100) as u8);
    buf.set(off + 6, ((x / 0x100) % 0x100) as u8);
    buf.set(off + 7, (x % 0x100) as u8);
}

/// A fresh scratch region with the seed written at its top.
fn gen_init(numeric_id: u64, nonce: u64) -> (buf: Vec<u8>)
    ensures
        buf@.len() == 262160,
        buf@.subrange(262144, 262160) == spec_gen_region(numeric_id, nonce, 0),
{
    let mut buf: Vec<u8> = Vec::new();
    while buf.len() < 262160
        invariant
            buf@.len() <= 262160,
        decreases 262160 - buf@.len(),
    {
        buf.push(0u8);
    }
    write_be8(&mut buf, 262144, numeric_id);
    write_be8(&mut buf, 262152, nonce);
    proof {
        assert(buf@.subrange(262144, 262160) =~= spec_seed(numeric_id, nonce));
    }
    buf
}

/// One hash iteration: digest the capped top of the written region and
/// store it just below it.
#[verifier::rlimit(30)]
fn gen_step(buf: &mut Vec<u8>, numeric_id: u64, nonce: u64, i: usize)
    requires
        i < 8192,
        old(buf)@.len() == 262160,
        old(buf)@.subrange(262144 - 32 * i, 262160) == spec_gen_region(
            numeric_id,
            nonce,
            i as nat,
        ),
    ensures
        final(buf)@.len() == 262160,
        final(buf)@.subrange(262144 - 32 * (i + 1), 262160) == spec_gen_region(
            numeric_id,
            nonce,
            (i + 1) as nat,
        ),
{
    let l_full: usize = 32 * i + 16;
    let hl: usize = if l_full < 4096 {
        l_full
    } else {
        4096
    };
    let msg_start: usize = 262160 - hl;
    let digest = shabal256_range(buf, msg_start, hl);
    proof {
        let prev = spec_gen_region(numeric_id, nonce, i as nat);
        assert(prev.len() == 32 * i + 16) by {
            lemma_gen_region_len(numeric_id, nonce, i as nat);
        }
        assert(buf@.subrange(msg_start as int, 262160) =~= prev.subrange(
            prev.len() - spec_hash_len(i as nat),
            prev.len() as int,
        ));
    }
    let base: usize = 262144 - 32 * (i + 1);
    let ghost buf0 = buf@;
    let mut t: usize = 0;
    while t < 32
        invariant
            t <= 32,
            base == 262144 - 32 * (i + 1),
            i < 8192,
            buf@.len() == 262160,
            buf0.len() == 262160,
            digest@.len() == 32,
            forall|p: int| 0 <= p < t ==> buf@[base + p] == digest@[p],
            forall|p: int| 0 <= p < 262160 && !(base <= p < base + t) ==> buf@[p] == buf0[p],
        decreases 32 - t,
    {
        buf.set(base + t, digest[t]);
        t = t + 1;
    }
    proof {
        let prev = spec_gen_region(numeric_id, nonce, i as nat);
        lemma_gen_region_len(numeric_id, nonce, i as nat);
        assert(buf0.subrange(262144 - 32 * i, 262160) == prev);
        assert forall|q: int| 0 <= q < 32 * i + 16 implies buf@[262144 - 32 * i + q] == prev[q] by {
            assert(buf@[262144 - 32 * i + q] == buf0[262144 - 32 * i + q]);
        }
        assert(buf@.subrange(262144 - 32 * (i + 1), 262160) =~= digest@ + prev);
        assert(spec_gen_region(numeric_id, nonce, (i + 1) as nat) == spec_shabal256(
            prev.subrange(prev.len() - spec_hash_len(i as nat), prev.len() as int),
        ) + prev);
    }
}

/// The final pass: digest the whole 256 KiB and XOR it in, yielding the
/// finished nonce.
fn gen_finish(buf: &Vec<u8>, numeric_id: u64, nonce: u64) -> (r: Vec<u8>)
    requires
        buf@.len() == 262160,
        buf@.subrange(0, 262160) == spec_gen_region(numeric_id, nonce, 8192),
    ensures
        r@ == spec_nonce(numeric_id, nonce),
        r@.len() == NONCE_SIZE,
{
    let fd = shabal256_range(buf, 0, 262144);
    proof {
        lemma_gen_region_len(numeric_id, nonce, 8192);
        assert(buf@.subrange(0, 262144) =~= spec_gen_region(numeric_id, nonce, 8192).take(262144));
        assert(fd@ == spec_final_digest(numeric_id, nonce));
    }
    let mut out: Vec<u8> = Vec::new();
    let mut k: usize = 0;
    while k < 262144
        invariant
            k <= 262144,
            buf@.len() == 262160,
            fd@ == spec_final_digest(numeric_id, nonce),
            fd@.len() == 32,
            buf@.subrange(0, 262144) == spec_gen_region(numeric_id, nonce, 8192).take(262144),
            out@.len() == k,
            forall|p: int| 0 <= p < k ==> out@[p] == spec_nonce(numeric_id, nonce)[p],
        decreases 262144 - k,
    {
        let b = buf[k] ^ fd[k % 32];
        proof {
            assert(buf@[k as int] == spec_prenonce(numeric_id, nonce)[k as int]);
        }
        out.push(b);
        k = k + 1;
    }
    proof {
        assert(out@ =~= spec_nonce(numeric_id, nonce));
    }
    out
}

/// Generates one nonce: 8192 chained hashes stored in reverse, then the
/// whole-region XOR pass. The result depends on nothing but the two
/// arguments, so any two runs agree on it.
pub fn generate_nonce(numeric_id: u64, nonce: u64) -> (r: Vec<u8>)
    ensures
        r@ == spec_nonce(numeric_id, nonce),
        r@.len() == NONCE_SIZE,
{
    let mut buf = gen_init(numeric_id, nonce);
    let mut i: usize = 0;
    while i < 8192
        invariant
            i <= 8192,
            buf@.len() == 262160,
            buf@.subrange(262144 - 32 * i, 262160) == spec_gen_region(numeric_id, nonce, i as nat),
        decreases 8192 - i,
    {
        gen_step(&mut buf, numeric_id, nonce, i);
        i = i + 1;
    }
    proof {
        assert(buf@.subrange(0, 262160) == spec_gen_region(numeric_id, nonce, 8192));
    }
    gen_finish(&buf, numeric_id, nonce)
}

/// Generates `lane_count` consecutive nonces in lockstep, the way the
/// vectorized kernels do: one shared iteration counter, every lane
/// hashing its own scratch region at the same message length in each
/// round, the output deinterleaved into one contiguous nonce per lane.
/// Each lane's bytes equal the single-nonce generator's for the same
/// index, whatever the lane width — lane grouping cannot change a nonce.
#[verifier::rlimit(100)]
pub fn generate_nonces_batch(numeric_id: u64, start_nonce: u64, lane_count: u64) -> (r: Vec<
    Vec<u8>,
>)
    requires
        1 <= lane_count <= 16,
        start_nonce + lane_count <= u64::MAX,
    ensures
        r@.len() == lane_count,
        forall|l: int|
            0 <= l < lane_count ==> (#[trigger] r@[l])@ == spec_nonce(
                numeric_id,
                (start_nonce + l) as u64,
            ),
{
    let mut scratches: Vec<Vec<u8>> = Vec::new();
    let mut l: usize = 0;
    while (l as u64) < lane_count
        invariant
            l == scratches@.len(),
            l <= lane_count <= 16,
            start_nonce + lane_count <= u64::MAX,
            forall|j: int|
                0 <= j < l ==> {
                    &&& (#[trigger] scratches@[j])@.len() == 262160
                    &&& scratches@[j]@.subrange(262144, 262160) == spec_gen_region(
                        numeric_id,
                        (start_nonce + j) as u64,
                        0,
                    )
                },
        decreases lane_count - l,
    {
        let buf = gen_init(numeric_id, start_nonce + (l as u64));
        scratches.push(buf);
        l = l + 1;
    }
    let mut i: usize = 0;
    while i < 8192
        invariant
            i <= 8192,
            lane_count <= 16,
            scratches@.len() == lane_count,
            start_nonce + lane_count <= u64::MAX,
            forall|j: int|
                0 <= j < lane_count ==> {
                    &&& (#[trigger] scratches@[j])@.len() == 262160
                    &&& scratches@[j]@.subrange(262144 - 32 * i, 262160) == spec_gen_region(
                        numeric_id,
                        (start_nonce + j) as u64,
                        i as nat,
                    )
                },
        decreases 8192 - i,
    {
        let mut l: usize = 0;
        while (l as u64) < lane_count
            invariant
                i < 8192,
                l <= lane_count <= 16,
                scratches@.len() == lane_count,
                start_nonce + lane_count <= u64::MAX,
                forall|j: int|
                    0 <= j < lane_count ==> {
                        &&& (#[trigger] scratches@[j])@.len() == 262160
                        &&& if j < l {
                            scratches@[j]@.subrange(262144 - 32 * (i + 1), 262160)
                                == spec_gen_region(
                                numeric_id,
                                (start_nonce + j) as u64,
                                (i + 1) as nat,
                            )
                        } else {
                            scratches@[j]@.subrange(262144 - 32 * i, 262160) == spec_gen_region(
                                numeric_id,
                                (start_nonce + j) as u64,
                                i as nat,
                            )
                        }
                    },
            decreases lane_count - l,
        {
            let ghost before = scratches@;
            let mut buf = scratches.remove(l);
            gen_step(&mut buf, numeric_id, start_nonce + (l as u64), i);
            scratches.insert(l, buf);
            proof {
                assert forall|j: int| 0 <= j < lane_count && j != l implies scratches@[j]
                    == before[j] by {
                    if j < l {
                        assert(scratches@[j] == before.remove(l as int).insert(
                            l as int,
                            scratches@[l as int],
                        )[j]);
                    }
                }
            }
            l = l + 1;
        }
        i = i + 1;
    }
    let mut out: Vec<Vec<u8>> = Vec::new();
    let mut l: usize = 0;
    while (l as u64) < lane_count
        invariant
            l == out@.len(),
            l <= lane_count <= 16,
            scratches@.len() == lane_count,
            start_nonce + lane_count <= u64::MAX,
            forall|j: int|
                0 <= j < lane_count ==> {
                    &&& (#[trigger] scratches@[j])@.len() == 262160
                    &&& scratches@[j]@.subrange(0, 262160) == spec_gen_region(
                        numeric_id,
                        (start_nonce + j) as u64,
                        8192,
                    )
                },
            forall|j: int|
                0 <= j < l ==> (#[trigger] out@[j])@ == spec_nonce(
                    numeric_id,
                    (start_nonce + j) as u64,
                ),
        decreases lane_count - l,
    {
        let nonce_bytes = gen_finish(&scratches[l], numeric_id, start_nonce + (l as u64));
        out.push(nonce_bytes);
        l = l + 1;
    }
    out
}

/// Byte `p` of a buffer frame with room for `cap` nonces that holds `f`
/// nonces starting at index `first`, in the scoop-major intra-frame
/// layout: at offset `s · cap · 64 + n · 64` stands scoop `s` of nonce
/// `first + n`; slots past `f` are zero filler the writer never sends.
pub open spec fn spec_frame_byte(numeric_id: u64, first: u64, cap: int, f: int, p: int) -> u8 {
    let s = p / (cap * 64);
    let r = p % (cap * 64);
    let n = r / 64;
    let k = r % 64;
    if n < f {
        spec_scoop(numeric_id, (first + n) as u64, s)[k]
    } else {
        0u8
    }
}

/// Byte `pos` of the finished plot file: 4096 scoop stripes of
/// `plot_nonces · 64` bytes each, stripe `s` concatenating scoop `s` of
/// every nonce in order.
pub open spec fn spec_plot_file_byte(
    numeric_id: u64,
    start_nonce: u64,
    plot_nonces: int,
    pos: int,
) -> u8 {
    let s = pos / (plot_nonces * 64);
    let r = pos % (plot_nonces * 64);
    let m = r / 64;
    let k = r % 64;
    spec_scoop(numeric_id, (start_nonce + m) as u64, s)[k]
}

/// Fills one buffer frame with `f` nonces starting at `first_nonce`, in
/// the scoop-major intra-frame layout the writer expects. This is the
/// producers' work; which worker generates which nonce cannot change the
/// result, since every byte is pinned by the arguments alone.
pub fn build_frame(numeric_id: u64, first_nonce: u64, frame_cap: u64, f: u64) -> (frame: Vec<u8>)
    requires
        f <= frame_cap,
        first_nonce + f <= u64::MAX,
        frame_cap * NONCE_SIZE <= usize::MAX,
    ensures
        frame@.len() == frame_cap * NONCE_SIZE,
        forall|p: int|
            0 <= p < frame@.len() ==> frame@[p] == spec_frame_byte(
                numeric_id,
                first_nonce,
                frame_cap as int,
                f as int,
                p,
            ),
{
    let mut nonces: Vec<Vec<u8>> = Vec::new();
    let mut n: u64 = 0;
    while n < f
        invariant
            n <= f,
            first_nonce + f <= u64::MAX,
            nonces@.len() == n,
            forall|j: int|
                0 <= j < n ==> (#[trigger] nonces@[j])@ == spec_nonce(
                    numeric_id,
                    (first_nonce + j) as u64,
                ),
        decreases f - n,
    {
        let nb = generate_nonce(numeric_id, first_nonce + n);
        nonces.push(nb);
        n = n + 1;
    }
    let ghost cap64 = (frame_cap * 64) as int;
    let mut frame: Vec<u8> = Vec::new();
    let mut s: u64 = 0;
    while s < 4096
        invariant
            s <= 4096,
            f <= frame_cap,
            first_nonce + f <= u64::MAX,
            frame_cap * NONCE_SIZE <= usize::MAX,
            cap64 == frame_cap * 64,
            nonces@.len() == f,
            forall|j: int|
                0 <= j < f ==> (#[trigger] nonces@[j])@ == spec_nonce(
                    numeric_id,
                    (first_nonce + j) as u64,
                ),
            frame@.len() == s * cap64,
            forall|p: int|
                0 <= p < frame@.len() ==> frame@[p] == spec_frame_byte(
                    numeric_id,
                    first_nonce,
                    frame_cap as int,
                    f as int,
                    p,
                ),
        decreases 4096 - s,
    {
        proof {
            assert(s * cap64 + cap64 <= 4096 * cap64 && 4096 * cap64 == frame_cap * NONCE_SIZE)
                by (nonlinear_arith)
                requires
                    s < 4096,
                    cap64 == frame_cap * 64,
                    NONCE_SIZE == 262144u64,
            ;
        }
        let mut n: u64 = 0;
        while n < frame_cap
            invariant
                n <= frame_cap,
                s < 4096,
                f <= frame_cap,
                first_nonce + f <= u64::MAX,
                frame_cap * NONCE_SIZE <= usize::MAX,
                cap64 == frame_cap * 64,
                s * cap64 + cap64 <= frame_cap * NONCE_SIZE,
                nonces@.len() == f,
                forall|j: int|
                    0 <= j < f ==> (#[trigger] nonces@[j])@ == spec_nonce(
                        numeric_id,
                        (first_nonce + j) as u64,
                    ),
                frame@.len() == s * cap64 + n * 64,
                forall|p: int|
                    0 <= p < frame@.len() ==> frame@[p] == spec_frame_byte(
                        numeric_id,
                        first_nonce,
                        frame_cap as int,
                        f as int,
                        p,
                    ),
            decreases frame_cap - n,
        {
            let mut k: u64 = 0;
            while k < 64
                invariant
                    k <= 64,
                    n < frame_cap,
                    s < 4096,
                    f <= frame_cap,
                    first_nonce + f <= u64::MAX,
                    frame_cap * NONCE_SIZE <= usize::MAX,
                    cap64 == frame_cap * 64,
                    s * cap64 + cap64 <= frame_cap * NONCE_SIZE,
                    nonces@.len() == f,
                    forall|j: int|
                        0 <= j < f ==> (#[trigger] nonces@[j])@ == spec_nonce(
                            numeric_id,
                            (first_nonce + j) as u64,
                        ),
                    frame@.len() == s * cap64 + n * 64 + k,
                    forall|p: int|
                        0 <= p < frame@.len() ==> frame@[p] == spec_frame_byte(
                            numeric_id,
                            first_nonce,
                            frame_cap as int,
                            f as int,
                            p,
                        ),
                decreases 64 - k,
            {
                proof {
                    assert(n * 64 + k < cap64 && s * cap64 + n * 64 + k < frame_cap * NONCE_SIZE)
                        by (nonlinear_arith)
                        requires
                            n < frame_cap,
                            k < 64,
                            s < 4096,
                            cap64 == frame_cap * 64,
                            s * cap64 + cap64 <= frame_cap * NONCE_SIZE,
                            NONCE_SIZE == 262144u64,
                    ;
                }
                let b: u8 = if n < f {
                    let src: usize = (4095 - s as usize) * 64 + k as usize;
                    nonces[n as usize][src]
                } else {
                    0u8
                };
                let ghost p0 = frame@.len() as int;
                frame.push(b);
                proof {
                    vstd::arithmetic::div_mod::lemma_fundamental_div_mod_converse(
                        p0,
                        cap64,
                        s as int,
                        n * 64 + k,
                    );
                    vstd::arithmetic::div_mod::lemma_fundamental_div_mod_converse(
                        n * 64 + k,
                        64,
                        n as int,
                        k as int,
                    );
                    assert(frame@[p0] == spec_frame_byte(
                        numeric_id,
                        first_nonce,
                        frame_cap as int,
                        f as int,
                        p0,
                    ));
                }
                k = k + 1;
            }
            n = n + 1;
        }
        proof {
            assert((s + 1) * cap64 == s * cap64 + cap64) by (nonlinear_arith);
        }
        s = s + 1;
    }
    proof {
        assert(4096 * cap64 == frame_cap * NONCE_SIZE) by (nonlinear_arith)
            requires
                cap64 == frame_cap * 64,
                NONCE_SIZE == 262144u64,
        ;
    }
    frame
}

/// Transposition correctness: the byte the writer sends from frame
/// offset `spec_buf_offset(cap, s, n) + k` to file offset
/// `spec_file_offset(plot_nonces, s, written + n) + k` is exactly scoop
/// `s` of nonce `start_nonce + written + n` — the frame layout and the
/// write plan together produce the scoop-major plot file.
pub proof fn lemma_transposition(
    numeric_id: u64,
    start_nonce: u64,
    plot_nonces: int,
    written: int,
    cap: int,
    f: int,
    s: int,
    n: int,
    k: int,
)
    requires
        0 <= s < 4096,
        0 <= n < f,
        0 <= k < 64,
        f <= cap,
        0 <= written,
        written + f <= plot_nonces,
        start_nonce + written + n <= u64::MAX,
    ensures
        spec_frame_byte(
            numeric_id,
            (start_nonce + written) as u64,
            cap,
            f,
            spec_buf_offset(cap, s, n) + k,
        ) == spec_scoop(numeric_id, (start_nonce + written + n) as u64, s)[k],
        spec_plot_file_byte(
            numeric_id,
            start_nonce,
            plot_nonces,
            spec_file_offset(plot_nonces, s, written + n) + k,
        ) == spec_scoop(numeric_id, (start_nonce + written + n) as u64, s)[k],
{
    let bp = spec_buf_offset(cap, s, n) + k;
    assert(bp == s * (cap * 64) + (n * 64 + k)) by (nonlinear_arith)
        requires
            bp == s * cap * 64 + n * 64 + k,
    ;
    assert(n * 64 + k < cap * 64) by (nonlinear_arith)
        requires
            0 <= n < cap,
            0 <= k < 64,
    ;
    vstd::arithmetic::div_mod::lemma_fundamental_div_mod_converse(bp, cap * 64, s, n * 64 + k);
    vstd::arithmetic::div_mod::lemma_fundamental_div_mod_converse(n * 64 + k, 64, n, k);
    let fp = spec_file_offset(plot_nonces, s, written + n) + k;
    assert(fp == s * (plot_nonces * 64) + ((written + n) * 64 + k)) by (nonlinear_arith)
        requires
            fp == s * plot_nonces * 64 + (written + n) * 64 + k,
    ;
    assert((written + n) * 64 + k < plot_nonces * 64) by (nonlinear_arith)
        requires
            0 <= written + n < plot_nonces,
            0 <= k < 64,
    ;
    vstd::arithmetic::div_mod::lemma_fundamental_div_mod_converse(
        fp,
        plot_nonces * 64,
        s,
        (written + n) * 64 + k,
    );
    vstd::arithmetic::div_mod::lemma_fundamental_div_mod_converse(
        (written + n) * 64,
        64,
        written + n,
        0,
    );
    vstd::arithmetic::div_mod::lemma_fundamental_div_mod_converse(
        (written + n) * 64 + k,
        64,
        written + n,
        k,
    );
}

/// The written region after `i` iterations holds `i` hashes and the
/// 16-byte seed.
pub proof fn lemma_gen_region_len(numeric_id: u64, nonce: u64, i: nat)
    ensures
        spec_gen_region(numeric_id, nonce, i).len() == 32 * i + 16,
    decreases i,
{
    if i > 0 {
        lemma_gen_region_len(numeric_id, nonce, (i - 1) as nat);
        let prev = spec_gen_region(numeric_id, nonce, (i - 1) as nat);
        let l = spec_hash_len((i - 1) as nat);
        crate::shabal::lemma_shabal256_len(prev.subrange(prev.len() - l, prev.len() as int));
    }
}

} // verus!
