//! A reader over the bytes of a binary module.
use crate::error::ParserError;
use vstd::arithmetic::mul::lemma_mul_inequality;
use vstd::arithmetic::power2::{lemma2_to64, lemma2_to64_rest, lemma_pow2_adds, lemma_pow2_pos, pow2};
use vstd::prelude::*;

verus! {

/// The bytes of `src` from position `pos` on (none where `pos` is past the end).
pub open spec fn rest(src: Seq<u8>, pos: int) -> Seq<u8> {
    if 0 <= pos <= src.len() {
        src.skip(pos)
    } else {
        Seq::empty()
    }
}

/// Decoding outcome: `0` a value, `1` the input ended, `2` an overlong or out-of-range encoding.
pub open spec fn LEB_OK() -> nat {
    0
}

pub open spec fn LEB_EOF() -> nat {
    1
}

pub open spec fn LEB_INVALID() -> nat {
    2
}

/// Whether `b` is an admissible last byte when only `r <= 7` bits of the result are left.
pub open spec fn leb_last_byte_ok(b: u8, r: nat, signed: bool) -> bool {
    if signed {
        let h = (b as nat) / pow2((r - 1) as nat);
        &&& b < 128
        &&& (h == 0 || h == 128nat / pow2((r - 1) as nat) - 1)
    } else {
        (b as nat) < pow2(r)
    }
}

/// LEB128 decoding of the bytes `s` into an integer of which `r` bits are still to be filled:
/// `(outcome, value of the 7-bit groups, bytes read)`. A byte read when at most 7 bits are left
/// must end the encoding and fit the remaining bits; for a signed result its unused bits must
/// repeat the sign, and only its bits that fit are kept.
pub open spec fn leb(s: Seq<u8>, r: nat, signed: bool) -> (nat, nat, nat)
    decreases s.len(),
{
    if s.len() == 0 {
        (LEB_EOF(), 0, 0)
    } else if r <= 7 {
        if leb_last_byte_ok(s[0], r, signed) {
            (LEB_OK(), if signed { (s[0] as nat) % pow2(r) } else { s[0] as nat }, 1)
        } else {
            (LEB_INVALID(), 0, 1)
        }
    } else if s[0] < 128 {
        (LEB_OK(), s[0] as nat, 1)
    } else {
        let t = leb(s.drop_first(), (r - 7) as nat, signed);
        (t.0, ((s[0] - 128) + 128 * t.1) as nat, t.2 + 1)
    }
}

/// The outcome of a decoding is one of the three.
pub proof fn lemma_leb_status(s: Seq<u8>, r: nat, signed: bool)
    ensures
        leb(s, r, signed).0 == LEB_OK() || leb(s, r, signed).0 == LEB_EOF() || leb(s, r, signed).0
            == LEB_INVALID(),
        leb(s, r, signed).2 <= s.len(),
        leb(s, r, signed).0 == LEB_OK() ==> leb(s, r, signed).2 >= 1,
    decreases s.len(),
{
    if s.len() > 0 && r > 7 && s[0] >= 128 {
        lemma_leb_status(s.drop_first(), (r - 7) as nat, signed);
    }
}

/// The number of result bits that `len` bytes of an `nbits`-bit encoding fill.
pub open spec fn leb_bits(len: nat, nbits: nat) -> nat {
    if 7 * len < nbits {
        7 * len
    } else {
        nbits
    }
}

/// Two's complement value of the `bits`-bit pattern `u`.
pub open spec fn sign_extend(u: nat, bits: nat) -> int {
    if bits > 0 && u >= pow2((bits - 1) as nat) {
        u - pow2(bits)
    } else {
        u as int
    }
}

/// The little-endian value of four bytes.
pub open spec fn le_u32(b0: u8, b1: u8, b2: u8, b3: u8) -> nat {
    (b0 + 256 * b1 + 65536 * b2 + 16777216 * b3) as nat
}

/// The little-endian value of eight bytes.
pub open spec fn le_u64(s: Seq<u8>) -> nat
    recommends
        s.len() == 8,
{
    le_u32(s[0], s[1], s[2], s[3]) + 4294967296 * le_u32(s[4], s[5], s[6], s[7])
}

/// Reads the bytes of a binary module, front to back.
pub struct WasmBinaryReader<'a> {
    binary_source: &'a [u8],
    pos: usize,
}

impl<'a> WasmBinaryReader<'a> {
    /// The bytes that the reader reads from.
    pub closed spec fn source(&self) -> Seq<u8> {
        self.binary_source@
    }

    /// The position of the next byte to read.
    pub closed spec fn position(&self) -> int {
        self.pos as int
    }

    /// Positions are machine integers.
    pub proof fn lemma_position(&self)
        ensures
            0 <= self.position() <= usize::MAX,
            self.position() <= self.source().len() ==> self.remaining().len() == self.source().len()
                - self.position(),
            self.position() >= self.source().len() ==> self.remaining().len() == 0,
            forall|k: int|
                0 <= k < self.remaining().len() ==> self.remaining()[k] == self.source()[self.position()
                    + k],
    {
    }

    /// The bytes that are left to read.
    pub open spec fn remaining(&self) -> Seq<u8> {
        rest(self.source(), self.position())
    }

    /// The position of the next byte to read.
    pub fn pos(&self) -> (p: usize)
        ensures
            p == self.position(),
    {
        self.pos
    }

    pub fn new(reader: &'a [u8]) -> (r: Self)
        ensures
            r.source() == reader@,
            r.position() == 0,
    {
        WasmBinaryReader { binary_source: reader, pos: 0 }
    }

    /// Number of bytes in the source.
    pub fn len(&self) -> (n: usize)
        ensures
            n == self.source().len(),
    {
        self.binary_source.len()
    }

    /// Whether the stream is at its end.
    pub fn eof(&mut self) -> (r: Result<bool, ParserError>)
        ensures
            final(self).source() == old(self).source(),
            final(self).position() == old(self).position(),
            r == Ok::<bool, ParserError>(old(self).position() >= old(self).source().len()),
    {
        Ok(self.pos >= self.binary_source.len())
    }

    /// Advances the stream by `n` bytes.
    pub fn advance(&mut self, n: usize)
        requires
            old(self).position() + n <= usize::MAX,
        ensures
            final(self).source() == old(self).source(),
            final(self).position() == old(self).position() + n,
    {
        self.pos = self.pos + n;
    }

    /// Truncates the stream to its first `limit` bytes.
    pub fn set_limit(&mut self, limit: usize)
        requires
            limit <= old(self).source().len(),
        ensures
            final(self).source() == old(self).source().subrange(0, limit as int),
            final(self).position() == old(self).position(),
    {
        self.binary_source = vstd::slice::slice_subrange(self.binary_source, 0, limit);
    }

    /// Reads one byte.
    pub fn read_byte(&mut self) -> (r: Result<u8, ParserError>)
        ensures
            final(self).source() == old(self).source(),
            old(self).position() < old(self).source().len() ==> r == Ok::<u8, ParserError>(
                old(self).source()[old(self).position()],
            ) && final(self).position() == old(self).position() + 1,
            old(self).position() >= old(self).source().len() ==> r == Err::<u8, ParserError>(
                ParserError::UnexpectedEOF,
            ) && final(self).position() == old(self).position(),
    {
        if self.pos < self.binary_source.len() {
            let b = self.binary_source[self.pos];
            self.pos = self.pos + 1;
            Ok(b)
        } else {
            Err(ParserError::UnexpectedEOF)
        }
    }

    /// Reads one byte without consuming it.
    pub fn peek_byte(&mut self) -> (r: Result<u8, ParserError>)
        ensures
            final(self).source() == old(self).source(),
            final(self).position() == old(self).position(),
            old(self).position() < old(self).source().len() ==> r == Ok::<u8, ParserError>(
                old(self).source()[old(self).position()],
            ),
            old(self).position() >= old(self).source().len() ==> r == Err::<u8, ParserError>(
                ParserError::UnexpectedEOF,
            ),
    {
        if self.pos < self.binary_source.len() {
            Ok(self.binary_source[self.pos])
        } else {
            Err(ParserError::UnexpectedEOF)
        }
    }

    /// Whether at least `n` bytes are left.
    fn has_bytes(&self, n: usize) -> (r: bool)
        ensures
            r == (self.pos + n <= self.source().len()),
    {
        self.pos <= self.binary_source.len() && self.binary_source.len() - self.pos >= n
    }

    /// Reads a little-endian 32-bit unsigned integer.
    pub fn read_u32(&mut self) -> (r: Result<u32, ParserError>)
        ensures
            final(self).source() == old(self).source(),
            old(self).position() + 4 <= old(self).source().len() ==> {
                let s = old(self).source();
                let p = old(self).position();
                &&& r is Ok
                &&& r->Ok_0 == le_u32(s[p], s[p + 1], s[p + 2], s[p + 3])
                &&& final(self).position() == old(self).position() + 4
            },
            old(self).position() + 4 > old(self).source().len() ==> r == Err::<u32, ParserError>(
                ParserError::UnexpectedEOF,
            ) && final(self).position() == old(self).position(),
    {
        if !self.has_bytes(4) {
            return Err(ParserError::UnexpectedEOF);
        }
        let p = self.pos;
        let b0 = self.binary_source[p] as u32;
        let b1 = self.binary_source[p + 1] as u32;
        let b2 = self.binary_source[p + 2] as u32;
        let b3 = self.binary_source[p + 3] as u32;
        self.pos = p + 4;
        Ok(b0 + 256 * b1 + 65536 * b2 + 16777216 * b3)
    }

    /// Reads the bit pattern of a 32-bit IEEE-754 number (little-endian).
    pub fn read_f32_bits(&mut self) -> (r: Result<u32, ParserError>)
        ensures
            final(self).source() == old(self).source(),
            old(self).position() + 4 <= old(self).source().len() ==> {
                let s = old(self).source();
                let p = old(self).position();
                &&& r is Ok
                &&& r->Ok_0 == le_u32(s[p], s[p + 1], s[p + 2], s[p + 3])
                &&& final(self).position() == old(self).position() + 4
            },
            old(self).position() + 4 > old(self).source().len() ==> r == Err::<u32, ParserError>(
                ParserError::UnexpectedEOF,
            ) && final(self).position() == old(self).position(),
    {
        self.read_u32()
    }

    /// Reads the bit pattern of a 64-bit IEEE-754 number (little-endian).
    pub fn read_f64_bits(&mut self) -> (r: Result<u64, ParserError>)
        ensures
            final(self).source() == old(self).source(),
            old(self).position() + 8 <= old(self).source().len() ==> {
                &&& r is Ok
                &&& r->Ok_0 == le_u64(
                    old(self).source().subrange(old(self).position(), old(self).position() + 8),
                )
                &&& final(self).position() == old(self).position() + 8
            },
            old(self).position() + 8 > old(self).source().len() ==> r == Err::<u64, ParserError>(
                ParserError::UnexpectedEOF,
            ) && final(self).position() == old(self).position(),
    {
        if !self.has_bytes(8) {
            return Err(ParserError::UnexpectedEOF);
        }
        let ghost s = self.source().subrange(self.pos as int, self.pos + 8);
        let lo = self.read_u32();
        let hi = self.read_u32();
        match (lo, hi) {
            (Ok(lo), Ok(hi)) => Ok(lo as u64 + 4294967296 * (hi as u64)),
            _ => Err(ParserError::UnexpectedEOF),
        }
    }

    /// Reads the 7-bit groups of a LEB128 encoding of an `nbits`-bit integer; returns the value
    /// of the groups that fit and the number of bytes read.
    fn read_leb128_raw(&mut self, nbits: usize, signed: bool) -> (r: Result<(u64, usize), ParserError>)
        requires
            nbits == 32 || nbits == 64,
        ensures
            final(self).source() == old(self).source(),
            ({
                let t = leb(old(self).remaining(), nbits as nat, signed);
                &&& final(self).position() == old(self).position() + t.2
                &&& (t.0 == LEB_OK() <==> r is Ok)
                &&& (t.0 == LEB_EOF() <==> r == Err::<(u64, usize), ParserError>(
                    ParserError::UnexpectedEOF,
                ))
                &&& (t.0 == LEB_INVALID() <==> r == Err::<(u64, usize), ParserError>(
                    ParserError::InvalidLEB128Encoding,
                ))
                &&& r matches Ok((u, l)) ==> u == t.1 && l == t.2 && 1 <= l && (u as nat) < pow2(
                    leb_bits(l as nat, nbits as nat),
                )
            }),
    {
        let ghost s0 = self.remaining();
        let ghost pos0 = self.pos;
        let mut r: usize = nbits;
        let mut mul: u64 = 1;
        let mut acc: u64 = 0;
        let mut len: usize = 0;
        proof {
            lemma_pow2_facts();
        }
        loop
            invariant
                nbits == 32 || nbits == 64,
                self.source() == old(self).source(),
                self.pos == pos0 + len,
                pos0 == old(self).position(),
                s0 == old(self).remaining(),
                1 <= r <= nbits,
                7 * len + r == nbits,
                mul == pow2((nbits - r) as nat),
                acc < mul,
                ({
                    let t = leb(self.remaining(), r as nat, signed);
                    leb(s0, nbits as nat, signed) == (t.0, (acc + mul * t.1) as nat, (len + t.2) as nat)
                }),
            decreases r,
        {
            let ghost s = self.remaining();
            proof {
                lemma_pow2_facts();
                lemma_pow2_pos((nbits - r) as nat);
                if s.len() > 0 {
                    assert(s[0] == self.source()[self.pos as int]);
                    assert(s.drop_first() =~= rest(self.source(), self.pos + 1));
                }
            }
            let b = match self.read_byte() {
                Ok(b) => b,
                Err(_) => {
                    return Err(ParserError::UnexpectedEOF);
                },
            };
            len = len + 1;
            if r <= 7 {
                let ok = if signed {
                    let p = pow2_small(r - 1);
                    assert(128int / (p as int) >= 2) by (nonlinear_arith)
                        requires
                            1 <= p <= 64,
                    ;
                    let h = b / p;
                    b < 128 && (h == 0 || h == 128 / p - 1)
                } else {
                    b < pow2_small(r)
                };
                if !ok {
                    return Err(ParserError::InvalidLEB128Encoding);
                }
                let low_bits: u8 = if signed {
                    b % pow2_small(r)
                } else {
                    b
                };
                proof {
                    lemma_pow2_adds(r as nat, (nbits - r) as nat);
                    assert((r + (nbits - r)) as nat == nbits as nat);
                    assert(pow2(r as nat) * mul == pow2(nbits as nat));
                    assert((low_bits as nat) < pow2(r as nat));
                    lemma_mul_inequality(low_bits as int, pow2(r as nat) - 1, mul as int);
                    assert((pow2(r as nat) - 1) * mul == pow2(r as nat) * mul - mul) by (nonlinear_arith);
                    assert(acc + low_bits * mul < pow2(nbits as nat));
                    assert(mul * low_bits == low_bits * mul) by (nonlinear_arith);
                    assert(pow2(nbits as nat) <= 0x1_0000_0000_0000_0000);
                    assert(leb_bits(len as nat, nbits as nat) == nbits);
                }
                acc = acc + (low_bits as u64) * mul;
                return Ok((acc, len));
            }
            if b < 128 {
                proof {
                    lemma_mul_inequality(b as int, 127, mul as int);
                    lemma_pow2_adds(7, (nbits - r) as nat);
                    assert(leb_bits(len as nat, nbits as nat) == 7 * len);
                    assert(pow2((nbits - r + 7) as nat) <= pow2(63)) by {
                        if nbits - r + 7 < 63 {
                            vstd::arithmetic::power2::lemma_pow2_strictly_increases(
                                (nbits - r + 7) as nat,
                                63,
                            );
                        }
                    };
                    assert((7 + (nbits - r)) as nat == (nbits - r + 7) as nat);
                    assert(mul * b == b * mul) by (nonlinear_arith);
                }
                acc = acc + (b as u64) * mul;
                return Ok((acc, len));
            }
            proof {
                lemma_mul_inequality((b - 128) as int, 127, mul as int);
                lemma_pow2_adds(7, (nbits - r) as nat);
                assert(pow2((nbits - r + 7) as nat) <= pow2(63)) by {
                    if nbits - r + 7 < 63 {
                        vstd::arithmetic::power2::lemma_pow2_strictly_increases(
                            (nbits - r + 7) as nat,
                            63,
                        );
                    }
                };
            }
            let ghost t2 = leb(rest(self.source(), self.pos as int), (r - 7) as nat, signed);
            let ghost old_acc = acc;
            let ghost old_mul = mul;
            proof {
                assert(s.drop_first() == rest(self.source(), self.pos as int));
                assert(leb(s, r as nat, signed) == (t2.0, ((b - 128) + 128 * t2.1) as nat, t2.2 + 1));
                assert(old_mul * ((b - 128) + 128 * t2.1) == (b - 128) * old_mul + (old_mul * 128) * t2.1)
                    by (nonlinear_arith);
            }
            acc = acc + ((b - 128) as u64) * mul;
            mul = mul * 128;
            r = r - 7;
            proof {
                assert(acc + mul * t2.1 == old_acc + old_mul * ((b - 128) + 128 * t2.1));
            }
        }
    }

    /// Reads a LEB128-encoded 32-bit unsigned integer.
    pub fn read_leb128_u32(&mut self) -> (r: Result<u32, ParserError>)
        ensures
            final(self).source() == old(self).source(),
            ({
                let t = leb(old(self).remaining(), 32, false);
                &&& final(self).position() == old(self).position() + t.2
                &&& (t.0 == LEB_OK() ==> r == Ok::<u32, ParserError>(t.1 as u32) && t.1 < pow2(32))
                &&& (t.0 == LEB_EOF() ==> r == Err::<u32, ParserError>(ParserError::UnexpectedEOF))
                &&& (t.0 == LEB_INVALID() ==> r == Err::<u32, ParserError>(
                    ParserError::InvalidLEB128Encoding,
                ))
            }),
    {
        proof {
            lemma_pow2_facts();
        }
        match self.read_leb128_raw(32, false) {
            Ok((u, l)) => {
                proof {
                    if leb_bits(l as nat, 32) < 32 {
                        vstd::arithmetic::power2::lemma_pow2_strictly_increases(
                            leb_bits(l as nat, 32),
                            32,
                        );
                    }
                }
                Ok(u as u32)
            },
            Err(e) => Err(e),
        }
    }

    /// Reads a LEB128-encoded 64-bit unsigned integer.
    pub fn read_leb128_u64(&mut self) -> (r: Result<u64, ParserError>)
        ensures
            final(self).source() == old(self).source(),
            ({
                let t = leb(old(self).remaining(), 64, false);
                &&& final(self).position() == old(self).position() + t.2
                &&& (t.0 == LEB_OK() ==> r == Ok::<u64, ParserError>(t.1 as u64) && t.1 < pow2(64))
                &&& (t.0 == LEB_EOF() ==> r == Err::<u64, ParserError>(ParserError::UnexpectedEOF))
                &&& (t.0 == LEB_INVALID() ==> r == Err::<u64, ParserError>(
                    ParserError::InvalidLEB128Encoding,
                ))
            }),
    {
        proof {
            lemma_pow2_facts();
        }
        match self.read_leb128_raw(64, false) {
            Ok((u, l)) => {
                proof {
                    if leb_bits(l as nat, 64) < 64 {
                        vstd::arithmetic::power2::lemma_pow2_strictly_increases(
                            leb_bits(l as nat, 64),
                            64,
                        );
                    }
                }
                Ok(u)
            },
            Err(e) => Err(e),
        }
    }

    /// Two's complement value of the `bits`-bit pattern `u`, `1 <= bits <= 64`.
    fn signed_value(u: u64, bits: usize) -> (v: i64)
        requires
            1 <= bits <= 64,
            (u as nat) < pow2(bits as nat),
        ensures
            v == sign_extend(u as nat, bits as nat),
            -pow2((bits - 1) as nat) <= v < pow2((bits - 1) as nat),
    {
        let half = pow2_u64((bits - 1) as u64);
        proof {
            lemma_pow2_adds((bits - 1) as nat, 1);
            lemma_pow2_facts();
            assert(((bits - 1) + 1) as nat == bits as nat);
            if bits - 1 < 63 {
                vstd::arithmetic::power2::lemma_pow2_strictly_increases((bits - 1) as nat, 63);
            }
            assert(pow2(bits as nat) == 2 * half);
        }
        if u >= half {
            ((u - half) as i64) - ((half - 1) as i64) - 1
        } else {
            u as i64
        }
    }

    /// Reads a LEB128-encoded 32-bit signed integer.
    pub fn read_leb128_i32(&mut self) -> (r: Result<i32, ParserError>)
        ensures
            final(self).source() == old(self).source(),
            ({
                let t = leb(old(self).remaining(), 32, true);
                &&& final(self).position() == old(self).position() + t.2
                &&& (t.0 == LEB_OK() ==> r == Ok::<i32, ParserError>(
                    sign_extend(t.1, leb_bits(t.2, 32)) as i32,
                ) && i32::MIN <= sign_extend(t.1, leb_bits(t.2, 32)) <= i32::MAX)
                &&& (t.0 == LEB_EOF() ==> r == Err::<i32, ParserError>(ParserError::UnexpectedEOF))
                &&& (t.0 == LEB_INVALID() ==> r == Err::<i32, ParserError>(
                    ParserError::InvalidLEB128Encoding,
                ))
            }),
    {
        match self.read_leb128_raw(32, true) {
            Ok((u, l)) => {
                let bits: usize = if l < 5 {
                    7 * l
                } else {
                    32
                };
                let v = Self::signed_value(u, bits);
                proof {
                    lemma_pow2_facts();
                    if bits < 32 {
                        vstd::arithmetic::power2::lemma_pow2_strictly_increases(
                            (bits - 1) as nat,
                            31,
                        );
                    }
                }
                Ok(v as i32)
            },
            Err(e) => Err(e),
        }
    }

    /// Reads a LEB128-encoded 64-bit signed integer.
    pub fn read_leb128_i64(&mut self) -> (r: Result<i64, ParserError>)
        ensures
            final(self).source() == old(self).source(),
            ({
                let t = leb(old(self).remaining(), 64, true);
                &&& final(self).position() == old(self).position() + t.2
                &&& (t.0 == LEB_OK() ==> r == Ok::<i64, ParserError>(
                    sign_extend(t.1, leb_bits(t.2, 64)) as i64,
                ) && i64::MIN <= sign_extend(t.1, leb_bits(t.2, 64)) <= i64::MAX)
                &&& (t.0 == LEB_EOF() ==> r == Err::<i64, ParserError>(ParserError::UnexpectedEOF))
                &&& (t.0 == LEB_INVALID() ==> r == Err::<i64, ParserError>(
                    ParserError::InvalidLEB128Encoding,
                ))
            }),
    {
        match self.read_leb128_raw(64, true) {
            Ok((u, l)) => {
                let bits: usize = if l < 10 {
                    7 * l
                } else {
                    64
                };
                let v = Self::signed_value(u, bits);
                proof {
                    lemma_pow2_facts();
                    if bits < 64 {
                        vstd::arithmetic::power2::lemma_pow2_strictly_increases(
                            (bits - 1) as nat,
                            63,
                        );
                    }
                }
                Ok(v)
            },
            Err(e) => Err(e),
        }
    }
}

/// The powers of two up to `2^64`.
pub proof fn lemma_pow2_facts()
    ensures
        pow2(0) == 1,
        pow2(1) == 2,
        pow2(2) == 4,
        pow2(3) == 8,
        pow2(4) == 16,
        pow2(5) == 32,
        pow2(6) == 64,
        pow2(7) == 128,
        pow2(31) == 0x8000_0000,
        pow2(32) == 0x1_0000_0000,
        pow2(63) == 0x8000_0000_0000_0000,
        pow2(64) == 0x1_0000_0000_0000_0000,
{
    lemma2_to64();
    lemma2_to64_rest();
}

/// `2^e` for `e < 8`, as a byte.
fn pow2_small(e: usize) -> (r: u8)
    requires
        e < 8,
    ensures
        r == pow2(e as nat),
        r >= 1,
        e <= 6 ==> r <= 64,
{
    proof {
        lemma_pow2_facts();
    }
    match e {
        0 => 1,
        1 => 2,
        2 => 4,
        3 => 8,
        4 => 16,
        5 => 32,
        6 => 64,
        _ => 128,
    }
}

/// `2^e` for `e < 64`.
fn pow2_u64(e: u64) -> (r: u64)
    requires
        e < 64,
    ensures
        r == pow2(e as nat),
{
    let mut r: u64 = 1;
    let mut i: u64 = 0;
    proof {
        lemma_pow2_facts();
    }
    while i < e
        invariant
            i <= e < 64,
            r == pow2(i as nat),
        decreases e - i,
    {
        proof {
            lemma_pow2_facts();
            lemma_pow2_adds(i as nat, 1);
            vstd::arithmetic::power2::lemma_pow2_strictly_increases((i + 1) as nat, 64);
        }
        r = r * 2;
        i = i + 1;
    }
    r
}

} // verus!
