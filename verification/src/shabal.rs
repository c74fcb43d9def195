//! Shabal-256, the hash the nonce generator iterates.
//!
//! The state is the triple of word arrays `A` (12), `B` (16), `C` (16)
//! and a 64-bit block counter `W`. Each 64-byte message block is added
//! into `B`, the counter is folded into `A`, the keyed permutation runs,
//! the block is subtracted from `C`, and `B` and `C` swap. The initial
//! value is produced by running the same machinery, from an all-zero
//! state with counter −1, over two fixed prefix blocks. Finalization
//! processes the padded last block once with the counter and three more
//! times without advancing it; the digest is the last eight words of `B`,
//! little-endian.

use vstd::prelude::*;

verus! {

/// The Shabal state as mathematics: word sequences and the counter.
#[verifier::ext_equal]
pub ghost struct ShabalState {
    pub a: Seq<u32>,
    pub b: Seq<u32>,
    pub c: Seq<u32>,
    pub wlow: u32,
    pub whigh: u32,
}

/// Well-formed state: the three arrays have their fixed lengths.
pub open spec fn spec_state_wf(st: ShabalState) -> bool {
    st.a.len() == 12 && st.b.len() == 16 && st.c.len() == 16
}

pub open spec fn spec_wadd(x: u32, y: u32) -> u32 {
    vstd::wrapping::u32_specs::wrapping_add(x, y)
}

pub open spec fn spec_wsub(x: u32, y: u32) -> u32 {
    vstd::wrapping::u32_specs::wrapping_sub(x, y)
}

pub open spec fn spec_wmul(x: u32, y: u32) -> u32 {
    vstd::wrapping::u32_specs::wrapping_mul(x, y)
}

pub open spec fn spec_rotl1(x: u32) -> u32 {
    (x << 1) | (x >> 31)
}

pub open spec fn spec_rotl15(x: u32) -> u32 {
    (x << 15) | (x >> 17)
}

pub open spec fn spec_rotl17(x: u32) -> u32 {
    (x << 17) | (x >> 15)
}

/// The new `A` word of one permutation element.
pub open spec fn spec_perm_elt_a(
    xa0: u32,
    xa1: u32,
    xb1: u32,
    xb2: u32,
    xb3: u32,
    xc: u32,
    xm: u32,
) -> u32 {
    spec_wmul(xa0 ^ spec_wmul(spec_rotl15(xa1), 5) ^ xc, 3) ^ xb1 ^ (xb2 & !xb3) ^ xm
}

/// The new `B` word of one permutation element.
pub open spec fn spec_perm_elt_b(xb0: u32, na: u32) -> u32 {
    !(spec_rotl1(xb0) ^ na)
}

/// Permutation element number `u` of the 48 the keyed permutation runs.
pub open spec fn spec_perm_step(st: ShabalState, m: Seq<u32>, u: int) -> ShabalState {
    let i = u % 16;
    let na = spec_perm_elt_a(
        st.a[u % 12],
        st.a[(u + 11) % 12],
        st.b[(i + 13) % 16],
        st.b[(i + 9) % 16],
        st.b[(i + 6) % 16],
        st.c[(24 - i) % 16],
        m[i],
    );
    ShabalState {
        a: st.a.update(u % 12, na),
        b: st.b.update(i, spec_perm_elt_b(st.b[i], na)),
        ..st
    }
}

/// The first `n` permutation elements, in order.
pub open spec fn spec_perm_steps(st: ShabalState, m: Seq<u32>, n: nat) -> ShabalState
    decreases n,
{
    if n == 0 {
        st
    } else {
        spec_perm_step(spec_perm_steps(st, m, (n - 1) as nat), m, n - 1)
    }
}

/// Addition number `k` of the 36 that close the permutation:
/// `A[11 − (k mod 12)] += C[(6 − k) mod 16]`.
pub open spec fn spec_add_step(st: ShabalState, k: int) -> ShabalState {
    let ai = 11 - (k % 12);
    let ci = (22 - (k % 16)) % 16;
    ShabalState { a: st.a.update(ai, spec_wadd(st.a[ai], st.c[ci])), ..st }
}

/// The first `n` closing additions, in order.
pub open spec fn spec_add_steps(st: ShabalState, n: nat) -> ShabalState
    decreases n,
{
    if n == 0 {
        st
    } else {
        spec_add_step(spec_add_steps(st, (n - 1) as nat), n - 1)
    }
}

/// The rotation of every `B` word that opens the permutation.
pub open spec fn spec_rot_b(st: ShabalState) -> ShabalState {
    ShabalState { b: Seq::new(16, |i: int| spec_rotl17(st.b[i])), ..st }
}

/// The whole keyed permutation: rotate `B`, 48 elements, 36 additions.
pub open spec fn spec_apply_p(st: ShabalState, m: Seq<u32>) -> ShabalState {
    spec_add_steps(spec_perm_steps(spec_rot_b(st), m, 48), 36)
}

/// Message block added into `B`.
pub open spec fn spec_add_m(st: ShabalState, m: Seq<u32>) -> ShabalState {
    ShabalState { b: Seq::new(16, |i: int| spec_wadd(st.b[i], m[i])), ..st }
}

/// Message block subtracted from `C`.
pub open spec fn spec_sub_m(st: ShabalState, m: Seq<u32>) -> ShabalState {
    ShabalState { c: Seq::new(16, |i: int| spec_wsub(st.c[i], m[i])), ..st }
}

/// Counter folded into the first two `A` words.
pub open spec fn spec_xor_w(st: ShabalState) -> ShabalState {
    ShabalState { a: st.a.update(0, st.a[0] ^ st.wlow).update(1, st.a[1] ^ st.whigh), ..st }
}

/// `B` and `C` exchanged.
pub open spec fn spec_swap_bc(st: ShabalState) -> ShabalState {
    ShabalState { b: st.c, c: st.b, ..st }
}

/// The 64-bit block counter advanced by one.
pub open spec fn spec_incr_w(st: ShabalState) -> ShabalState {
    ShabalState {
        wlow: spec_wadd(st.wlow, 1),
        whigh: if st.wlow == 0xFFFF_FFFFu32 {
            spec_wadd(st.whigh, 1)
        } else {
            st.whigh
        },
        ..st
    }
}

/// One full message block absorbed into the state.
pub open spec fn spec_absorb(st: ShabalState, m: Seq<u32>) -> ShabalState {
    spec_incr_w(spec_swap_bc(spec_sub_m(spec_apply_p(spec_xor_w(spec_add_m(st, m)), m), m)))
}

/// One of the three extra rounds of finalization: swap, counter, permute,
/// without advancing the counter.
pub open spec fn spec_final_round(st: ShabalState, m: Seq<u32>) -> ShabalState {
    spec_apply_p(spec_xor_w(spec_swap_bc(st)), m)
}

/// The all-zero state with counter −1 that the initial value is computed
/// from.
pub open spec fn spec_init_state() -> ShabalState {
    ShabalState {
        a: Seq::new(12, |i: int| 0u32),
        b: Seq::new(16, |i: int| 0u32),
        c: Seq::new(16, |i: int| 0u32),
        wlow: 0xFFFF_FFFFu32,
        whigh: 0xFFFF_FFFFu32,
    }
}

/// First prefix block of the 256-bit instance: words 0x100..0x10F.
pub open spec fn spec_iv_m0() -> Seq<u32> {
    Seq::new(16, |i: int| (0x100 + i) as u32)
}

/// Second prefix block of the 256-bit instance: words 0x110..0x11F.
pub open spec fn spec_iv_m1() -> Seq<u32> {
    Seq::new(16, |i: int| (0x110 + i) as u32)
}

/// The Shabal-256 initial value.
pub open spec fn spec_iv() -> ShabalState {
    spec_absorb(spec_absorb(spec_init_state(), spec_iv_m0()), spec_iv_m1())
}

/// The little-endian word at byte offset `off` of a message.
pub open spec fn spec_word_le(msg: Seq<u8>, off: int) -> u32 {
    (msg[off] as u32) | (msg[off + 1] as u32) << 8u32 | (msg[off + 2] as u32) << 16u32 | (msg[off
        + 3] as u32) << 24u32
}

/// The 16 words of full block number `blk` of a message.
pub open spec fn spec_block_words(msg: Seq<u8>, blk: int) -> Seq<u32> {
    Seq::new(16, |j: int| spec_word_le(msg, blk * 64 + 4 * j))
}

/// Byte `i` of the padded final block: the message's tail, then `0x80`,
/// then zeros.
pub open spec fn spec_pad_byte(msg: Seq<u8>, i: int) -> u8 {
    let base = (msg.len() / 64) * 64;
    if base + i < msg.len() {
        msg[base + i]
    } else if base + i == msg.len() {
        0x80u8
    } else {
        0u8
    }
}

/// Word `j` of the padded final block.
pub open spec fn spec_pad_word(msg: Seq<u8>, j: int) -> u32 {
    (spec_pad_byte(msg, 4 * j) as u32) | (spec_pad_byte(msg, 4 * j + 1) as u32) << 8u32 | (
    spec_pad_byte(msg, 4 * j + 2) as u32) << 16u32 | (spec_pad_byte(msg, 4 * j + 3) as u32)
        << 24u32
}

/// The 16 words of the padded final block.
pub open spec fn spec_pad_words(msg: Seq<u8>) -> Seq<u32> {
    Seq::new(16, |j: int| spec_pad_word(msg, j))
}

/// The state after the first `n` full blocks of a message, starting from
/// the initial value.
pub open spec fn spec_absorb_blocks(st: ShabalState, msg: Seq<u8>, n: nat) -> ShabalState
    decreases n,
{
    if n == 0 {
        st
    } else {
        spec_absorb(spec_absorb_blocks(st, msg, (n - 1) as nat), spec_block_words(msg, n - 1))
    }
}

/// The state after absorbing the whole message and finalizing: the padded
/// block once with the counter, then three extra rounds.
pub open spec fn spec_final_state(msg: Seq<u8>) -> ShabalState {
    let st = spec_absorb_blocks(spec_iv(), msg, msg.len() / 64);
    let fm = spec_pad_words(msg);
    spec_final_round(
        spec_final_round(spec_final_round(spec_apply_p(spec_xor_w(spec_add_m(st, fm)), fm), fm), fm),
        fm,
    )
}

/// A Shabal-256 digest is 32 bytes.
pub proof fn lemma_shabal256_len(msg: Seq<u8>)
    ensures
        spec_shabal256(msg).len() == 32,
{
}

/// The Shabal-256 digest of a message: the last eight `B` words of the
/// final state, each little-endian.
pub open spec fn spec_shabal256(msg: Seq<u8>) -> Seq<u8> {
    let st = spec_final_state(msg);
    Seq::new(
        32,
        |i: int|
            {
                let w = st.b[8 + i / 4];
                if i % 4 == 0 {
                    (w & 0xff) as u8
                } else if i % 4 == 1 {
                    ((w >> 8u32) & 0xff) as u8
                } else if i % 4 == 2 {
                    ((w >> 16u32) & 0xff) as u8
                } else {
                    ((w >> 24u32) & 0xff) as u8
                }
            },
    )
}

fn rotl1(x: u32) -> (r: u32)
    ensures
        r == spec_rotl1(x),
{
    (x << 1) | (x >> 31)
}

fn rotl15(x: u32) -> (r: u32)
    ensures
        r == spec_rotl15(x),
{
    (x << 15) | (x >> 17)
}

fn rotl17(x: u32) -> (r: u32)
    ensures
        r == spec_rotl17(x),
{
    (x << 17) | (x >> 15)
}

/// A running Shabal-256 state.
pub struct Shabal256 {
    pub a: Vec<u32>,
    pub b: Vec<u32>,
    pub c: Vec<u32>,
    pub wlow: u32,
    pub whigh: u32,
}

impl Shabal256 {
    /// The state this value holds, as mathematics.
    pub open spec fn st(&self) -> ShabalState {
        ShabalState { a: self.a@, b: self.b@, c: self.c@, wlow: self.wlow, whigh: self.whigh }
    }

    /// The arrays have their fixed lengths.
    pub open spec fn wf(&self) -> bool {
        spec_state_wf(self.st())
    }

    fn add_m(&mut self, m: &Vec<u32>)
        requires
            old(self).wf(),
            m@.len() == 16,
        ensures
            final(self).wf(),
            final(self).st() == spec_add_m(old(self).st(), m@),
    {
        let ghost st0 = self.st();
        let mut i: usize = 0;
        while i < 16
            invariant
                i <= 16,
                spec_state_wf(st0),
                m@.len() == 16,
                self.a@ == st0.a,
                self.c@ == st0.c,
                self.wlow == st0.wlow,
                self.whigh == st0.whigh,
                self.b@.len() == 16,
                forall|j: int| 0 <= j < i ==> self.b@[j] == spec_wadd(st0.b[j], m@[j]),
                forall|j: int| i <= j < 16 ==> self.b@[j] == st0.b[j],
            decreases 16 - i,
        {
            let v = self.b[i].wrapping_add(m[i]);
            self.b.set(i, v);
            i = i + 1;
        }
        proof {
            assert(self.st() =~= spec_add_m(st0, m@));
        }
    }

    fn sub_m(&mut self, m: &Vec<u32>)
        requires
            old(self).wf(),
            m@.len() == 16,
        ensures
            final(self).wf(),
            final(self).st() == spec_sub_m(old(self).st(), m@),
    {
        let ghost st0 = self.st();
        let mut i: usize = 0;
        while i < 16
            invariant
                i <= 16,
                spec_state_wf(st0),
                m@.len() == 16,
                self.a@ == st0.a,
                self.b@ == st0.b,
                self.wlow == st0.wlow,
                self.whigh == st0.whigh,
                self.c@.len() == 16,
                forall|j: int| 0 <= j < i ==> self.c@[j] == spec_wsub(st0.c[j], m@[j]),
                forall|j: int| i <= j < 16 ==> self.c@[j] == st0.c[j],
            decreases 16 - i,
        {
            let v = self.c[i].wrapping_sub(m[i]);
            self.c.set(i, v);
            i = i + 1;
        }
        proof {
            assert(self.st() =~= spec_sub_m(st0, m@));
        }
    }

    fn xor_w(&mut self)
        requires
            old(self).wf(),
        ensures
            final(self).wf(),
            final(self).st() == spec_xor_w(old(self).st()),
    {
        let ghost st0 = self.st();
        let a0 = self.a[0] ^ self.wlow;
        self.a.set(0, a0);
        let a1 = self.a[1] ^ self.whigh;
        self.a.set(1, a1);
        proof {
            assert(self.st() =~= spec_xor_w(st0));
        }
    }

    fn swap_bc(&mut self)
        requires
            old(self).wf(),
        ensures
            final(self).wf(),
            final(self).st() == spec_swap_bc(old(self).st()),
    {
        let ghost st0 = self.st();
        core::mem::swap(&mut self.b, &mut self.c);
        proof {
            assert(self.st() =~= spec_swap_bc(st0));
        }
    }

    fn incr_w(&mut self)
        requires
            old(self).wf(),
        ensures
            final(self).wf(),
            final(self).st() == spec_incr_w(old(self).st()),
    {
        let ghost st0 = self.st();
        if self.wlow == 0xFFFF_FFFF {
            self.whigh = self.whigh.wrapping_add(1);
        }
        self.wlow = self.wlow.wrapping_add(1);
        proof {
            assert(self.st() =~= spec_incr_w(st0));
        }
    }

    fn apply_p(&mut self, m: &Vec<u32>)
        requires
            old(self).wf(),
            m@.len() == 16,
        ensures
            final(self).wf(),
            final(self).st() == spec_apply_p(old(self).st(), m@),
    {
        let ghost st0 = self.st();
        let mut i: usize = 0;
        while i < 16
            invariant
                i <= 16,
                spec_state_wf(st0),
                m@.len() == 16,
                self.a@ == st0.a,
                self.c@ == st0.c,
                self.wlow == st0.wlow,
                self.whigh == st0.whigh,
                self.b@.len() == 16,
                forall|j: int| 0 <= j < i ==> self.b@[j] == spec_rotl17(st0.b[j]),
                forall|j: int| i <= j < 16 ==> self.b@[j] == st0.b[j],
            decreases 16 - i,
        {
            let v = rotl17(self.b[i]);
            self.b.set(i, v);
            i = i + 1;
        }
        let ghost st1 = spec_rot_b(st0);
        proof {
            assert(self.st() =~= st1);
        }
        let mut u: usize = 0;
        while u < 48
            invariant
                u <= 48,
                spec_state_wf(st1),
                m@.len() == 16,
                self.st() == spec_perm_steps(st1, m@, u as nat),
                spec_state_wf(self.st()),
            decreases 48 - u,
        {
            let i: usize = u % 16;
            let xa0 = self.a[u % 12];
            let xa1 = self.a[(u + 11) % 12];
            let xb1 = self.b[(i + 13) % 16];
            let xb2 = self.b[(i + 9) % 16];
            let xb3 = self.b[(i + 6) % 16];
            let xc = self.c[(24 - i) % 16];
            let xm = m[i];
            let na = (xa0 ^ rotl15(xa1).wrapping_mul(5) ^ xc).wrapping_mul(3) ^ xb1 ^ (xb2 & !xb3)
                ^ xm;
            let nb = !(rotl1(self.b[i]) ^ na);
            self.a.set(u % 12, na);
            self.b.set(i, nb);
            proof {
                assert(self.st() =~= spec_perm_step(spec_perm_steps(st1, m@, u as nat), m@, u as int));
            }
            u = u + 1;
        }
        let ghost st2 = spec_perm_steps(st1, m@, 48);
        let mut k: usize = 0;
        while k < 36
            invariant
                k <= 36,
                spec_state_wf(st2),
                self.st() == spec_add_steps(st2, k as nat),
                spec_state_wf(self.st()),
            decreases 36 - k,
        {
            let ai: usize = 11 - (k % 12);
            let ci: usize = (22 - (k % 16)) % 16;
            let v = self.a[ai].wrapping_add(self.c[ci]);
            self.a.set(ai, v);
            proof {
                assert(self.st() =~= spec_add_step(spec_add_steps(st2, k as nat), k as int));
            }
            k = k + 1;
        }
    }

    fn absorb(&mut self, m: &Vec<u32>)
        requires
            old(self).wf(),
            m@.len() == 16,
        ensures
            final(self).wf(),
            final(self).st() == spec_absorb(old(self).st(), m@),
    {
        self.add_m(m);
        self.xor_w();
        self.apply_p(m);
        self.sub_m(m);
        self.swap_bc();
        self.incr_w();
    }

    /// A fresh state holding the Shabal-256 initial value, computed by
    /// absorbing the two prefix blocks from the all-zero state.
    pub fn new() -> (r: Self)
        ensures
            r.wf(),
            r.st() == spec_iv(),
    {
        let mut a: Vec<u32> = Vec::new();
        let mut i: usize = 0;
        while i < 12
            invariant
                i <= 12,
                a@.len() == i,
                forall|j: int| 0 <= j < i ==> a@[j] == 0u32,
            decreases 12 - i,
        {
            a.push(0);
            i = i + 1;
        }
        let mut b: Vec<u32> = Vec::new();
        let mut i: usize = 0;
        while i < 16
            invariant
                i <= 16,
                b@.len() == i,
                forall|j: int| 0 <= j < i ==> b@[j] == 0u32,
            decreases 16 - i,
        {
            b.push(0);
            i = i + 1;
        }
        let mut c: Vec<u32> = Vec::new();
        let mut i: usize = 0;
        while i < 16
            invariant
                i <= 16,
                c@.len() == i,
                forall|j: int| 0 <= j < i ==> c@[j] == 0u32,
            decreases 16 - i,
        {
            c.push(0);
            i = i + 1;
        }
        let mut r = Shabal256 { a, b, c, wlow: 0xFFFF_FFFF, whigh: 0xFFFF_FFFF };
        proof {
            assert(r.st().a =~= spec_init_state().a);
            assert(r.st().b =~= spec_init_state().b);
            assert(r.st().c =~= spec_init_state().c);
            assert(r.st() =~= spec_init_state());
        }
        let mut m0: Vec<u32> = Vec::new();
        let mut i: usize = 0;
        while i < 16
            invariant
                i <= 16,
                m0@.len() == i,
                forall|j: int| 0 <= j < i ==> m0@[j] == (0x100 + j) as u32,
            decreases 16 - i,
        {
            m0.push(0x100 + (i as u32));
            i = i + 1;
        }
        proof {
            assert(m0@ =~= spec_iv_m0());
        }
        r.absorb(&m0);
        let mut m1: Vec<u32> = Vec::new();
        let mut i: usize = 0;
        while i < 16
            invariant
                i <= 16,
                m1@.len() == i,
                forall|j: int| 0 <= j < i ==> m1@[j] == (0x110 + j) as u32,
            decreases 16 - i,
        {
            m1.push(0x110 + (i as u32));
            i = i + 1;
        }
        proof {
            assert(m1@ =~= spec_iv_m1());
        }
        r.absorb(&m1);
        r
    }
}

/// The 16 little-endian words of the 64-byte block at `off` in `data`.
fn decode_block(data: &Vec<u8>, off: usize) -> (w: Vec<u32>)
    requires
        off + 64 <= data@.len(),
    ensures
        w@.len() == 16,
        forall|j: int| 0 <= j < 16 ==> w@[j] == spec_word_le(data@, off + 4 * j),
{
    let n: usize = data.len();
    let mut w: Vec<u32> = Vec::new();
    let mut j: usize = 0;
    while j < 16
        invariant
            j <= 16,
            n == data@.len(),
            off + 64 <= data@.len(),
            w@.len() == j,
            forall|t: int| 0 <= t < j ==> w@[t] == spec_word_le(data@, off + 4 * t),
        decreases 16 - j,
    {
        let o: usize = off + 4 * j;
        let word: u32 = (data[o] as u32) | (data[o + 1] as u32) << 8 | (data[o + 2] as u32) << 16
            | (data[o + 3] as u32) << 24;
        w.push(word);
        j = j + 1;
    }
    w
}

/// The Shabal-256 digest of `len` bytes of `data` starting at `start`.
pub fn shabal256_range(data: &Vec<u8>, start: usize, len: usize) -> (out: Vec<u8>)
    requires
        start + len <= data@.len(),
    ensures
        out@ == spec_shabal256(data@.subrange(start as int, start + len)),
        out@.len() == 32,
{
    let ghost msg = data@.subrange(start as int, start + len);
    let n: usize = data.len();
    let mut st = Shabal256::new();
    let nblocks: usize = len / 64;
    let mut k: usize = 0;
    while k < nblocks
        invariant
            k <= nblocks,
            nblocks == len / 64,
            n == data@.len(),
            start + len <= data@.len(),
            msg == data@.subrange(start as int, start + len),
            st.wf(),
            st.st() == spec_absorb_blocks(spec_iv(), msg, k as nat),
        decreases nblocks - k,
    {
        proof {
            assert((k + 1) * 64 <= len) by (nonlinear_arith)
                requires
                    k < len / 64,
            ;
        }
        let w = decode_block(data, start + 64 * k);
        proof {
            assert forall|j: int| 0 <= j < 16 implies w@[j] == spec_block_words(msg, k as int)[j] by {
                let o = 64 * (k as int) + 4 * j;
                assert(msg[o] == data@[start + o]);
                assert(msg[o + 1] == data@[start + o + 1]);
                assert(msg[o + 2] == data@[start + o + 2]);
                assert(msg[o + 3] == data@[start + o + 3]);
            }
            assert(w@ =~= spec_block_words(msg, k as int));
        }
        st.absorb(&w);
        k = k + 1;
    }
    let rem: usize = len % 64;
    proof {
        vstd::arithmetic::div_mod::lemma_fundamental_div_mod(len as int, 64);
        assert(rem <= len);
        assert(len - rem == 64 * (len / 64));
    }
    let base: usize = start + (len - rem);
    let mut pad: Vec<u8> = Vec::new();
    let mut i: usize = 0;
    while i < rem
        invariant
            i <= rem,
            rem == len % 64,
            rem < 64,
            base == start + (len - rem),
            n == data@.len(),
            start + len <= data@.len(),
            msg == data@.subrange(start as int, start + len),
            len - rem == 64 * (len / 64),
            pad@.len() == i,
            forall|t: int| 0 <= t < i ==> pad@[t] == spec_pad_byte(msg, t),
        decreases rem - i,
    {
        let b = data[base + i];
        proof {
            let bb = (msg.len() / 64) * 64;
            assert(msg[bb + i] == data@[start + bb + i]);
        }
        pad.push(b);
        i = i + 1;
    }
    pad.push(0x80);
    while pad.len() < 64
        invariant
            rem == len % 64,
            rem < 64,
            msg.len() == len,
            len - rem == 64 * (len / 64),
            rem < pad@.len() <= 64,
            forall|t: int| 0 <= t < pad@.len() ==> pad@[t] == spec_pad_byte(msg, t),
        decreases 64 - pad@.len(),
    {
        pad.push(0);
    }
    let fm = decode_block(&pad, 0);
    proof {
        assert forall|j: int| 0 <= j < 16 implies fm@[j] == spec_pad_words(msg)[j] by {
            assert(pad@[4 * j] == spec_pad_byte(msg, 4 * j));
            assert(pad@[4 * j + 1] == spec_pad_byte(msg, 4 * j + 1));
            assert(pad@[4 * j + 2] == spec_pad_byte(msg, 4 * j + 2));
            assert(pad@[4 * j + 3] == spec_pad_byte(msg, 4 * j + 3));
        }
        assert(fm@ =~= spec_pad_words(msg));
        assert(msg.len() / 64 == len / 64);
    }
    st.add_m(&fm);
    st.xor_w();
    st.apply_p(&fm);
    st.swap_bc();
    st.xor_w();
    st.apply_p(&fm);
    st.swap_bc();
    st.xor_w();
    st.apply_p(&fm);
    st.swap_bc();
    st.xor_w();
    st.apply_p(&fm);
    proof {
        assert(st.st() == spec_final_state(msg));
    }
    let ghost fst = spec_final_state(msg);
    let mut out: Vec<u8> = Vec::new();
    let mut j: usize = 8;
    while j < 16
        invariant
            8 <= j <= 16,
            st.wf(),
            st.st() == fst,
            fst == spec_final_state(msg),
            out@.len() == 4 * (j - 8),
            forall|p: int| 0 <= p < out@.len() ==> out@[p] == spec_shabal256(msg)[p],
        decreases 16 - j,
    {
        let w = st.b[j];
        let ghost len0 = out@.len() as int;
        proof {
            assert(w & 0xff < 256 && (w >> 8u32) & 0xff < 256 && (w >> 16u32) & 0xff < 256 && (w
                >> 24u32) & 0xff < 256) by (bit_vector);
        }
        out.push((w & 0xff) as u8);
        out.push(((w >> 8) & 0xff) as u8);
        out.push(((w >> 16) & 0xff) as u8);
        out.push(((w >> 24) & 0xff) as u8);
        proof {
            assert forall|p: int| len0 <= p < len0 + 4 implies out@[p] == spec_shabal256(msg)[p] by {
                vstd::arithmetic::div_mod::lemma_fundamental_div_mod_converse(
                    p,
                    4,
                    (j - 8) as int,
                    p - len0,
                );
            }
        }
        j = j + 1;
    }
    proof {
        assert(out@ =~= spec_shabal256(msg));
    }
    out
}

} // verus!
