use vstd::prelude::*;

use vstd::arithmetic::power2::{lemma_pow2_pos, lemma_pow2_unfold, pow2};

verus! {

/// The bit at position `i` of `b`, counting from the most significant bit of `b[0]`.
pub open spec fn bit_at(b: Seq<u8>, i: int) -> u8 {
    (b[i / 8] >> ((7 - i % 8) as u8)) & 1u8
}

/// The unsigned value of the `n` bits of `b` that start at bit `s`, most significant first.
pub open spec fn bits_val(b: Seq<u8>, s: int, n: nat) -> nat
    decreases n,
{
    if n == 0 {
        0
    } else {
        2 * bits_val(b, s, (n - 1) as nat) + bit_at(b, s + n - 1) as nat
    }
}

/// An `n`-bit field is less than `2^n`.
pub proof fn lemma_bits_val_bound(b: Seq<u8>, s: int, n: nat)
    ensures
        bits_val(b, s, n) < pow2(n),
    decreases n,
{
    if n > 0 {
        lemma_bits_val_bound(b, s, (n - 1) as nat);
        lemma_pow2_unfold(n);
        let i = s + n - 1;
        let x = b[i / 8];
        let k = (7 - i % 8) as u8;
        assert((x >> k) & 1u8 <= 1u8) by (bit_vector);
        assert(bit_at(b, i) == (x >> k) & 1u8);
    } else {
        lemma_pow2_pos(0);
    }
}

/// The first seven bytes of `b` as one big-endian number of 56 bits.
pub open spec fn word_of(b: Seq<u8>) -> u64 {
    (b[0] as u64) << 48u64 | (b[1] as u64) << 40u64 | (b[2] as u64) << 32u64 | (b[3] as u64)
        << 24u64 | (b[4] as u64) << 16u64 | (b[5] as u64) << 8u64 | (b[6] as u64)
}

/// The `n` bits of the 56-bit word `w` that start `s` bits below its top.
pub open spec fn word_bits(w: u64, s: int, n: nat) -> u64 {
    (w >> ((56 - s - n) as u64)) & (((1u64 << (n as u64)) - 1) as u64)
}

/// Byte `j` of `b` is the `j`-th group of eight bits of `word_of(b)`, from the top.
proof fn lemma_byte_of_word(b: Seq<u8>, j: int)
    requires
        b.len() >= 7,
        0 <= j < 7,
    ensures
        b[j] == ((word_of(b) >> ((48 - 8 * j) as u64)) & 0xFFu64) as u8,
{
    let w = word_of(b);
    let (b0, b1, b2, b3, b4, b5, b6) = (b[0], b[1], b[2], b[3], b[4], b[5], b[6]);
    assert({
        &&& b0 == ((w >> 48u64) & 0xFFu64) as u8
        &&& b1 == ((w >> 40u64) & 0xFFu64) as u8
        &&& b2 == ((w >> 32u64) & 0xFFu64) as u8
        &&& b3 == ((w >> 24u64) & 0xFFu64) as u8
        &&& b4 == ((w >> 16u64) & 0xFFu64) as u8
        &&& b5 == ((w >> 8u64) & 0xFFu64) as u8
        &&& b6 == (w & 0xFFu64) as u8
    }) by (bit_vector)
        requires
            w == (b0 as u64) << 48u64 | (b1 as u64) << 40u64 | (b2 as u64) << 32u64 | (b3 as u64)
                << 24u64 | (b4 as u64) << 16u64 | (b5 as u64) << 8u64 | (b6 as u64),
    ;
    assert(w & 0xFFu64 == (w >> 0u64) & 0xFFu64) by (bit_vector);
}

/// Bit `i` of `b` is bit `55 - i` of `word_of(b)`.
proof fn lemma_bit_at_word(b: Seq<u8>, i: int)
    requires
        b.len() >= 7,
        0 <= i < 56,
    ensures
        bit_at(b, i) as u64 == (word_of(b) >> ((55 - i) as u64)) & 1u64,
{
    let q = i / 8;
    let r = i % 8;
    assert(i == 8 * q + r && 0 <= q < 7 && 0 <= r < 8) by (nonlinear_arith)
        requires
            0 <= i < 56,
            q == i / 8,
            r == i % 8,
    ;
    lemma_byte_of_word(b, q);
    let w = word_of(b);
    let q64 = q as u64;
    let r64 = r as u64;
    let sh = (7 - r) as u8;
    let x = b[q];
    let bs = (48 - 8 * q) as u64;
    let ws = (55 - i) as u64;
    assert((((x >> sh) & 1u8) as u64) == (w >> ws) & 1u64) by (bit_vector)
        requires
            x == ((w >> bs) & 0xFFu64) as u8,
            q64 < 7,
            r64 < 8,
            bs + 8 * q64 == 48,
            ws + 8 * q64 + r64 == 55,
            sh as u64 + r64 == 7,
    ;
}

/// `bits_val` over the first seven bytes is a field of `word_of`.
pub proof fn lemma_bits_val_word(b: Seq<u8>, s: int, n: nat)
    requires
        b.len() >= 7,
        0 <= s,
        s + n <= 56,
        n <= 16,
    ensures
        bits_val(b, s, n) == word_bits(word_of(b), s, n) as nat,
    decreases n,
{
    let w = word_of(b);
    if n == 0 {
        let t = (56 - s) as u64;
        assert((w >> t) & (((1u64 << 0u64) - 1) as u64) == 0) by (bit_vector);
    } else {
        lemma_bits_val_word(b, s, (n - 1) as nat);
        lemma_bit_at_word(b, s + n - 1);
        let t = (56 - s - n) as u64;
        let m = (n - 1) as u64;
        assert(((w >> t) & (((1u64 << (m + 1)) - 1) as u64)) == 2 * ((w >> (t + 1)) & (((1u64
            << m) - 1) as u64)) + ((w >> t) & 1u64)) by (bit_vector)
            requires
                t + m < 56,
                m < 16,
        ;
        assert((m + 1) == n as u64);
        assert(t + 1 == (56 - s - (n - 1)) as u64);
    }
}

/// A read position, counted in bits, over a borrowed byte buffer.
pub struct BitCursor<'a> {
    buf: &'a [u8],
    byte: usize,
    bit: usize,
}

impl<'a> BitCursor<'a> {
    /// The bytes that the cursor reads.
    pub closed spec fn bytes(&self) -> Seq<u8> {
        self.buf@
    }

    /// How many bits have been consumed so far.
    pub closed spec fn bit_pos(&self) -> nat {
        (8 * self.byte + self.bit) as nat
    }

    pub closed spec fn wf(&self) -> bool {
        &&& self.bit < 8
        &&& self.byte <= self.buf@.len()
        &&& self.byte == self.buf@.len() ==> self.bit == 0
    }

    /// A cursor at the first bit of `buf`.
    pub fn new(buf: &'a [u8]) -> (c: Self)
        ensures
            c.wf(),
            c.bytes() == buf@,
            c.bit_pos() == 0,
    {
        BitCursor { buf, byte: 0, bit: 0 }
    }

    /// Whether `n` more bits (at most 16) remain after the current position.
    fn has_bits(&self, n: usize) -> (r: bool)
        requires
            self.wf(),
            n <= 16,
        ensures
            r == (self.bit_pos() + n <= 8 * self.bytes().len()),
    {
        let rem = self.buf.len() - self.byte;
        if rem >= 3 {
            true
        } else {
            self.bit + n <= 8 * rem
        }
    }

    /// Reads the next `n` bits (at most 16) as an unsigned number, most significant bit first.
    /// Returns `None`, and leaves the cursor where it is, when fewer than `n` bits remain.
    pub fn read_bits(&mut self, n: usize) -> (r: Option<u16>)
        requires
            old(self).wf(),
            n <= 16,
        ensures
            final(self).wf(),
            final(self).bytes() == old(self).bytes(),
            match r {
                Some(v) => {
                    &&& old(self).bit_pos() + n <= 8 * old(self).bytes().len()
                    &&& v as nat == bits_val(old(self).bytes(), old(self).bit_pos() as int, n as nat)
                    &&& final(self).bit_pos() == old(self).bit_pos() + n
                },
                None => {
                    &&& old(self).bit_pos() + n > 8 * old(self).bytes().len()
                    &&& final(self).bit_pos() == old(self).bit_pos()
                },
            },
    {
        if !self.has_bits(n) {
            return None;
        }
        let ghost start = self.bit_pos() as int;
        let ghost b = self.buf@;
        let mut v: u32 = 0;
        let mut k: usize = 0;
        assert(0u32 < (1u32 << 0u32)) by (bit_vector);
        while k < n
            invariant
                self.wf(),
                self.buf@ == b,
                n <= 16,
                k <= n,
                start + n <= 8 * b.len(),
                self.bit_pos() == start + k,
                v as nat == bits_val(b, start, k as nat),
                v < 0x10000,
                v < (1u32 << (k as u32)),
            decreases n - k,
        {
            let ghost q = self.byte as int;
            let ghost r = self.bit as int;
            assert((8 * q + r) / 8 == q && (8 * q + r) % 8 == r) by (nonlinear_arith)
                requires
                    0 <= r < 8,
                    q >= 0,
            ;
            let x: u8 = self.buf[self.byte];
            let s: u8 = (7 - self.bit) as u8;
            let bit: u8 = (x >> s) & 1u8;
            assert(bit <= 1) by (bit_vector)
                requires
                    bit == (x >> s) & 1u8,
            ;
            let kk = k as u32;
            assert(2 * v + bit < (1u32 << (kk + 1)) && (kk + 1 <= 16 ==> 2 * v + bit < 0x10000))
                by (bit_vector)
                requires
                    v < (1u32 << kk),
                    bit <= 1,
                    kk < 16,
            ;
            v = 2 * v + bit as u32;
            if self.bit == 7 {
                self.bit = 0;
                self.byte = self.byte + 1;
            } else {
                self.bit = self.bit + 1;
            }
            k = k + 1;
        }
        Some(v as u16)
    }

    /// Moves past the next `n` bits (at most 16) without interpreting them.
    /// Returns `false`, and leaves the cursor where it is, when fewer than `n` bits remain.
    pub fn skip(&mut self, n: usize) -> (r: bool)
        requires
            old(self).wf(),
            n <= 16,
        ensures
            final(self).wf(),
            final(self).bytes() == old(self).bytes(),
            r == (old(self).bit_pos() + n <= 8 * old(self).bytes().len()),
            r ==> final(self).bit_pos() == old(self).bit_pos() + n,
            !r ==> final(self).bit_pos() == old(self).bit_pos(),
    {
        self.read_bits(n).is_some()
    }
}

} // verus!
