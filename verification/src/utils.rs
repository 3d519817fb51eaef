//! Primitive binary layer: sizing arithmetic for 2-bit-packed symbols, and
//! big-endian read/write primitives over an in-memory byte stream.

use crate::error::Kff;
use vstd::prelude::*;

verus! {

/// The single byte that stands for a boolean on the wire.
pub open spec fn bool_byte(b: bool) -> u8 {
    if b {
        1u8
    } else {
        0u8
    }
}

/// The value of two bytes taken as a big-endian unsigned integer.
pub open spec fn be_u16_of(b0: u8, b1: u8) -> u16 {
    ((b0 as u16) << 8) | (b1 as u16)
}

/// The value of four bytes taken as a big-endian unsigned integer.
pub open spec fn be_u32_of(b0: u8, b1: u8, b2: u8, b3: u8) -> u32 {
    ((b0 as u32) << 24) | ((b1 as u32) << 16) | ((b2 as u32) << 8) | (b3 as u32)
}

/// The value of eight bytes taken as a big-endian unsigned integer.
pub open spec fn be_u64_of(b0: u8, b1: u8, b2: u8, b3: u8, b4: u8, b5: u8, b6: u8, b7: u8) -> u64 {
    ((b0 as u64) << 56) | ((b1 as u64) << 48) | ((b2 as u64) << 40) | ((b3 as u64) << 32) | ((
    b4 as u64) << 24) | ((b5 as u64) << 16) | ((b6 as u64) << 8) | (b7 as u64)
}

/// The big-endian byte layout of a 16-bit unsigned integer.
pub open spec fn u16_be_bytes(v: u16) -> Seq<u8> {
    seq![(v >> 8) as u8, v as u8]
}

/// The big-endian byte layout of a 32-bit unsigned integer.
pub open spec fn u32_be_bytes(v: u32) -> Seq<u8> {
    seq![(v >> 24) as u8, (v >> 16) as u8, (v >> 8) as u8, v as u8]
}

/// The big-endian byte layout of a 64-bit unsigned integer.
pub open spec fn u64_be_bytes(v: u64) -> Seq<u8> {
    seq![
        (v >> 56) as u8,
        (v >> 48) as u8,
        (v >> 40) as u8,
        (v >> 32) as u8,
        (v >> 24) as u8,
        (v >> 16) as u8,
        (v >> 8) as u8,
        v as u8,
    ]
}

/// Reading the big-endian layout of a 16-bit value gives the value back.
pub proof fn lemma_be_u16_round_trip(v: u16)
    ensures
        be_u16_of(u16_be_bytes(v)[0], u16_be_bytes(v)[1]) == v,
{
    let b0 = (v >> 8) as u8;
    let b1 = v as u8;
    assert(((b0 as u16) << 8) | (b1 as u16) == v) by (bit_vector)
        requires
            b0 == (v >> 8) as u8,
            b1 == v as u8,
    ;
}

/// Reading the big-endian layout of a 32-bit value gives the value back.
pub proof fn lemma_be_u32_round_trip(v: u32)
    ensures
        be_u32_of(u32_be_bytes(v)[0], u32_be_bytes(v)[1], u32_be_bytes(v)[2], u32_be_bytes(v)[3])
            == v,
{
    let b0 = (v >> 24) as u8;
    let b1 = (v >> 16) as u8;
    let b2 = (v >> 8) as u8;
    let b3 = v as u8;
    assert(((b0 as u32) << 24) | ((b1 as u32) << 16) | ((b2 as u32) << 8) | (b3 as u32) == v)
        by (bit_vector)
        requires
            b0 == (v >> 24) as u8,
            b1 == (v >> 16) as u8,
            b2 == (v >> 8) as u8,
            b3 == v as u8,
    ;
}

/// Reading the big-endian layout of a 64-bit value gives the value back.
pub proof fn lemma_be_u64_round_trip(v: u64)
    ensures
        be_u64_of(
            u64_be_bytes(v)[0],
            u64_be_bytes(v)[1],
            u64_be_bytes(v)[2],
            u64_be_bytes(v)[3],
            u64_be_bytes(v)[4],
            u64_be_bytes(v)[5],
            u64_be_bytes(v)[6],
            u64_be_bytes(v)[7],
        ) == v,
{
    let b0 = (v >> 56) as u8;
    let b1 = (v >> 48) as u8;
    let b2 = (v >> 40) as u8;
    let b3 = (v >> 32) as u8;
    let b4 = (v >> 24) as u8;
    let b5 = (v >> 16) as u8;
    let b6 = (v >> 8) as u8;
    let b7 = v as u8;
    assert(((b0 as u64) << 56) | ((b1 as u64) << 48) | ((b2 as u64) << 40) | ((b3 as u64) << 32) | (
    (b4 as u64) << 24) | ((b5 as u64) << 16) | ((b6 as u64) << 8) | (b7 as u64) == v)
        by (bit_vector)
        requires
            b0 == (v >> 56) as u8,
            b1 == (v >> 48) as u8,
            b2 == (v >> 40) as u8,
            b3 == (v >> 32) as u8,
            b4 == (v >> 24) as u8,
            b5 == (v >> 16) as u8,
            b6 == (v >> 8) as u8,
            b7 == v as u8,
    ;
}

/// Rounds a bit count up to the next multiple of 8.
pub fn ceil_to_8(n: u64) -> (r: u64)
    requires
        n + 7 <= u64::MAX,
    ensures
        r == ((n + 7) / 8) * 8,
        r % 8 == 0,
        n <= r,
        r < n + 8,
{
    let r = (n + 7) & !(7);
    proof {
        assert((n + 7) as u64 & !7u64 == ((n + 7) as u64 / 8) * 8) by (bit_vector)
            requires
                n + 7 <= u64::MAX,
        ;
        assert(((n + 7) as u64 / 8) * 8 % 8 == 0) by (bit_vector);
        assert(n <= ((n + 7) as u64 / 8) * 8) by (bit_vector)
            requires
                n + 7 <= u64::MAX,
        ;
        assert(((n + 7) as u64 / 8) * 8 < n + 8) by (bit_vector)
            requires
                n + 7 <= u64::MAX,
        ;
    }
    r
}

/// The number of bits needed to store `k` symbols of 2 bits each.
pub fn bits2store_k(k: u64) -> (r: u64)
    requires
        2 * k <= u64::MAX,
    ensures
        r == 2 * k,
{
    k * 2
}

/// The number of whole bytes needed to store `k` symbols of 2 bits each:
/// `2 * k` bits, rounded up to the next multiple of 8, divided by 8.
pub fn bytes2store_k(k: u64) -> (r: u64)
    requires
        2 * k + 7 <= u64::MAX,
    ensures
        r == (2 * k + 7) / 8,
        2 * k <= 8 * r < 2 * k + 8,
{
    let bits = ceil_to_8(bits2store_k(k));
    let r = bits / 8;
    proof {
        let q = (2 * k + 7) as int / 8;
        assert(bits == q * 8);
        assert(q * 8 / 8 == q) by (nonlinear_arith);
    }
    r
}

/// The position of the first `0x00` byte of `s`, or `s.len()` when `s` has
/// none: how far a null-terminated string read reaches.
pub open spec fn first_zero(s: Seq<u8>) -> int
    decreases s.len(),
{
    if s.len() == 0 {
        0
    } else if s[0] == 0 {
        0
    } else {
        1 + first_zero(s.skip(1))
    }
}

/// `first_zero(s)` is the position of the first zero byte: everything before
/// it is nonzero, and it points at a zero byte unless `s` has none.
pub proof fn lemma_first_zero(s: Seq<u8>)
    ensures
        0 <= first_zero(s) <= s.len(),
        forall|j: int| 0 <= j < first_zero(s) ==> s[j] != 0,
        first_zero(s) < s.len() ==> s[first_zero(s)] == 0,
    decreases s.len(),
{
    if s.len() > 0 && s[0] != 0 {
        lemma_first_zero(s.skip(1));
        assert forall|j: int| 0 <= j < first_zero(s) implies s[j] != 0 by {
            if j > 0 {
                assert(s.skip(1)[j - 1] != 0);
            }
        }
        if first_zero(s) < s.len() {
            assert(s.skip(1)[first_zero(s) - 1] == 0);
        }
    }
}

/// Read primitives over a sequential byte stream. `readable()` is the
/// stream's model: the bytes not yet consumed. Every read either consumes
/// exactly what its contract says or fails with [`Kff::Truncated`] and
/// leaves the stream as it was.
pub trait KffRead {
    /// The bytes not yet consumed.
    spec fn readable(&self) -> Seq<u8>;

    /// Read exactly `N` bytes, `N` fixed at the call site.
    fn read_n_bytes<const N: usize>(&mut self) -> (r: Result<Vec<u8>, Kff>)
        ensures
            N <= old(self).readable().len() ==> ({
                &&& r matches Ok(v) && v@ == old(self).readable().take(N as int)
                &&& final(self).readable() == old(self).readable().skip(N as int)
            }),
            old(self).readable().len() < N ==> ({
                &&& r == Err::<Vec<u8>, Kff>(Kff::Truncated)
                &&& final(self).readable() == old(self).readable()
            }),
    ;

    /// Read exactly `n` bytes, `n` supplied at run time.
    fn read_n_bytes_dyn(&mut self, n: usize) -> (r: Result<Vec<u8>, Kff>)
        ensures
            n <= old(self).readable().len() ==> ({
                &&& r matches Ok(v) && v@ == old(self).readable().take(n as int)
                &&& final(self).readable() == old(self).readable().skip(n as int)
            }),
            old(self).readable().len() < n ==> ({
                &&& r == Err::<Vec<u8>, Kff>(Kff::Truncated)
                &&& final(self).readable() == old(self).readable()
            }),
    ;

    /// Read bytes up to a `0x00` terminator or the end of the stream,
    /// excluding the terminator. Running out of bytes is not an error here:
    /// whatever was consumed is returned.
    fn read_ascii(&mut self) -> (r: Result<Vec<u8>, Kff>)
        ensures
            r matches Ok(v) && v@ == old(self).readable().take(first_zero(old(self).readable())),
            final(self).readable() == if first_zero(old(self).readable()) < old(
                self,
            ).readable().len() {
                old(self).readable().skip(first_zero(old(self).readable()) + 1)
            } else {
                Seq::<u8>::empty()
            },
    ;

    /// Read the packed buffer that holds `k` symbols of 2 bits each:
    /// exactly `bytes2store_k(k)` raw bytes.
    fn read_2bits(&mut self, k: usize) -> (r: Result<Vec<u8>, Kff>)
        requires
            2 * k + 7 <= usize::MAX,
        ensures
            (2 * k + 7) / 8 <= old(self).readable().len() ==> ({
                &&& r matches Ok(v) && v@ == old(self).readable().take((2 * k as int + 7) / 8)
                &&& final(self).readable() == old(self).readable().skip((2 * k as int + 7) / 8)
            }),
            old(self).readable().len() < (2 * k + 7) / 8 ==> ({
                &&& r == Err::<Vec<u8>, Kff>(Kff::Truncated)
                &&& final(self).readable() == old(self).readable()
            }),
    ;

    /// Read one byte; nonzero stands for `true`.
    fn read_bool(&mut self) -> (r: Result<bool, Kff>)
        ensures
            1 <= old(self).readable().len() ==> ({
                &&& r matches Ok(v) && v == (old(self).readable()[0] != 0)
                &&& final(self).readable() == old(self).readable().skip(1)
            }),
            old(self).readable().len() == 0 ==> ({
                &&& r == Err::<bool, Kff>(Kff::Truncated)
                &&& final(self).readable() == old(self).readable()
            }),
    ;

    /// Read one byte as an unsigned integer.
    fn read_u8(&mut self) -> (r: Result<u8, Kff>)
        ensures
            1 <= old(self).readable().len() ==> ({
                &&& r matches Ok(v) && v == old(self).readable()[0]
                &&& final(self).readable() == old(self).readable().skip(1)
            }),
            old(self).readable().len() == 0 ==> ({
                &&& r == Err::<u8, Kff>(Kff::Truncated)
                &&& final(self).readable() == old(self).readable()
            }),
    ;

    /// Read two bytes as a big-endian unsigned integer.
    fn read_u16(&mut self) -> (r: Result<u16, Kff>)
        ensures
            2 <= old(self).readable().len() ==> ({
                &&& r matches Ok(v) && v == be_u16_of(
                    old(self).readable()[0],
                    old(self).readable()[1],
                )
                &&& final(self).readable() == old(self).readable().skip(2)
            }),
            old(self).readable().len() < 2 ==> ({
                &&& r == Err::<u16, Kff>(Kff::Truncated)
                &&& final(self).readable() == old(self).readable()
            }),
    ;

    /// Read four bytes as a big-endian unsigned integer.
    fn read_u32(&mut self) -> (r: Result<u32, Kff>)
        ensures
            4 <= old(self).readable().len() ==> ({
                &&& r matches Ok(v) && v == be_u32_of(
                    old(self).readable()[0],
                    old(self).readable()[1],
                    old(self).readable()[2],
                    old(self).readable()[3],
                )
                &&& final(self).readable() == old(self).readable().skip(4)
            }),
            old(self).readable().len() < 4 ==> ({
                &&& r == Err::<u32, Kff>(Kff::Truncated)
                &&& final(self).readable() == old(self).readable()
            }),
    ;

    /// Read eight bytes as a big-endian unsigned integer.
    fn read_u64(&mut self) -> (r: Result<u64, Kff>)
        ensures
            8 <= old(self).readable().len() ==> ({
                &&& r matches Ok(v) && v == be_u64_of(
                    old(self).readable()[0],
                    old(self).readable()[1],
                    old(self).readable()[2],
                    old(self).readable()[3],
                    old(self).readable()[4],
                    old(self).readable()[5],
                    old(self).readable()[6],
                    old(self).readable()[7],
                )
                &&& final(self).readable() == old(self).readable().skip(8)
            }),
            old(self).readable().len() < 8 ==> ({
                &&& r == Err::<u64, Kff>(Kff::Truncated)
                &&& final(self).readable() == old(self).readable()
            }),
    ;
}

/// An in-memory byte stream to read from: a buffer and a cursor into it.
pub struct BytesReader {
    data: Vec<u8>,
    pos: usize,
}

impl BytesReader {
    /// All bytes the reader was created over.
    pub closed spec fn buffer(&self) -> Seq<u8> {
        self.data@
    }

    /// How many bytes were consumed so far.
    pub closed spec fn position(&self) -> int {
        self.pos as int
    }

    /// A reader over `data`, positioned at its start.
    pub fn new(data: Vec<u8>) -> (r: BytesReader)
        ensures
            r.buffer() == data@,
            r.position() == 0,
            r.readable() == data@,
    {
        let r = BytesReader { data, pos: 0 };
        proof {
            assert(r.readable() =~= r.data@);
        }
        r
    }

    /// How many bytes were consumed so far.
    pub fn stream_position(&self) -> (r: usize)
        ensures
            r == self.position(),
    {
        self.pos
    }

    /// Move the cursor to `pos` bytes from the start of the buffer, clamped
    /// to the buffer's end.
    pub fn seek(&mut self, pos: usize)
        ensures
            final(self).buffer() == old(self).buffer(),
            final(self).position() == if pos <= old(self).buffer().len() {
                pos as int
            } else {
                old(self).buffer().len() as int
            },
            final(self).readable() == old(self).buffer().skip(final(self).position()),
    {
        if pos <= self.data.len() {
            self.pos = pos;
        } else {
            self.pos = self.data.len();
        }
        proof {
            assert(self.readable() =~= self.data@.skip(self.pos as int));
        }
    }
}

impl KffRead for BytesReader {
    closed spec fn readable(&self) -> Seq<u8> {
        if self.pos <= self.data@.len() {
            self.data@.skip(self.pos as int)
        } else {
            Seq::<u8>::empty()
        }
    }

    fn read_n_bytes<const N: usize>(&mut self) -> (r: Result<Vec<u8>, Kff>) {
        self.read_n_bytes_dyn(N)
    }

    fn read_n_bytes_dyn(&mut self, n: usize) -> (r: Result<Vec<u8>, Kff>) {
        let len = self.data.len();
        let rem = if self.pos > len {
            0
        } else {
            len - self.pos
        };
        if n > rem {
            return Err(Kff::Truncated);
        }
        if self.pos > len {
            proof {
                assert(old(self).readable().take(0) =~= Seq::<u8>::empty());
                assert(old(self).readable().skip(0) =~= old(self).readable());
            }
            return Ok(Vec::new());
        }
        let mut values: Vec<u8> = Vec::new();
        let mut i: usize = 0;
        while i < n
            invariant
                i <= n,
                len == self.data@.len(),
                self.pos + n <= len,
                self == old(self),
                values@ == self.data@.subrange(self.pos as int, self.pos + i as int),
            decreases n - i,
        {
            let b = self.data[self.pos + i];
            values.push(b);
            proof {
                assert(values@ =~= self.data@.subrange(self.pos as int, self.pos + i + 1 as int));
            }
            i += 1;
        }
        proof {
            assert(values@ =~= old(self).readable().take(n as int));
        }
        self.pos = self.pos + n;
        proof {
            assert(self.readable() =~= old(self).readable().skip(n as int));
        }
        Ok(values)
    }

    fn read_ascii(&mut self) -> (r: Result<Vec<u8>, Kff>) {
        let len = self.data.len();
        if self.pos > len {
            proof {
                assert(old(self).readable().take(0) =~= Seq::<u8>::empty());
            }
            return Ok(Vec::new());
        }
        let ghost s = self.readable();
        let mut values: Vec<u8> = Vec::new();
        let mut i: usize = self.pos;
        while i < len
            invariant
                self.pos <= i <= len,
                len == self.data@.len(),
                self == old(self),
                self.pos <= self.data@.len(),
                s == self.readable(),
                values@ == self.data@.subrange(self.pos as int, i as int),
                forall|j: int| self.pos <= j < i ==> self.data@[j] != 0,
            decreases len - i,
        {
            let b = self.data[i];
            if b == 0 {
                proof {
                    lemma_first_zero(s);
                    assert(forall|j: int|
                        0 <= j < i - self.pos ==> s[j] == self.data@[self.pos + j]);
                    assert(s[i - self.pos] == 0);
                    assert(first_zero(s) == i - self.pos) by {
                        if first_zero(s) < i - self.pos {
                            assert(self.data@[self.pos + first_zero(s)] == 0);
                        }
                        if first_zero(s) > i - self.pos {
                            assert(s[i - self.pos] != 0);
                        }
                    }
                    assert(values@ =~= s.take(first_zero(s)));
                }
                self.pos = i + 1;
                proof {
                    assert(self.readable() =~= s.skip(first_zero(s) + 1));
                }
                return Ok(values);
            }
            values.push(b);
            proof {
                assert(values@ =~= self.data@.subrange(self.pos as int, i + 1 as int));
            }
            i += 1;
        }
        proof {
            lemma_first_zero(s);
            assert(forall|j: int| 0 <= j < s.len() ==> s[j] == self.data@[self.pos + j]);
            assert(first_zero(s) == s.len()) by {
                if first_zero(s) < s.len() {
                    assert(self.data@[self.pos + first_zero(s)] == 0);
                }
            }
            assert(values@ =~= s.take(first_zero(s)));
        }
        self.pos = len;
        proof {
            assert(self.readable() =~= Seq::<u8>::empty());
        }
        Ok(values)
    }

    fn read_2bits(&mut self, k: usize) -> (r: Result<Vec<u8>, Kff>) {
        let n: usize = (2 * k + 7) / 8;
        self.read_n_bytes_dyn(n)
    }

    fn read_bool(&mut self) -> (r: Result<bool, Kff>) {
        match self.read_u8() {
            Ok(v) => Ok(v != 0),
            Err(e) => Err(e),
        }
    }

    fn read_u8(&mut self) -> (r: Result<u8, Kff>) {
        match self.read_n_bytes_dyn(1) {
            Ok(v) => Ok(v[0]),
            Err(e) => Err(e),
        }
    }

    fn read_u16(&mut self) -> (r: Result<u16, Kff>) {
        match self.read_n_bytes_dyn(2) {
            Ok(v) => Ok(((v[0] as u16) << 8) | (v[1] as u16)),
            Err(e) => Err(e),
        }
    }

    fn read_u32(&mut self) -> (r: Result<u32, Kff>) {
        match self.read_n_bytes_dyn(4) {
            Ok(v) => Ok(
                ((v[0] as u32) << 24) | ((v[1] as u32) << 16) | ((v[2] as u32) << 8) | (
                v[3] as u32),
            ),
            Err(e) => Err(e),
        }
    }

    fn read_u64(&mut self) -> (r: Result<u64, Kff>) {
        match self.read_n_bytes_dyn(8) {
            Ok(v) => Ok(
                ((v[0] as u64) << 56) | ((v[1] as u64) << 48) | ((v[2] as u64) << 40) | ((
                v[3] as u64) << 32) | ((v[4] as u64) << 24) | ((v[5] as u64) << 16) | ((
                v[6] as u64) << 8) | (v[7] as u64),
            ),
            Err(e) => Err(e),
        }
    }
}

/// Write primitives over a sequential byte sink. `written()` is the sink's
/// model: every byte written so far. Each operation is the exact mirror of
/// the read operation of the same width.
pub trait KffWrite {
    /// The bytes written so far.
    spec fn written(&self) -> Seq<u8>;

    /// Write all of `bytes`.
    fn write_bytes(&mut self, bytes: &[u8]) -> (r: Result<(), Kff>)
        ensures
            r is Ok,
            final(self).written() == old(self).written() + bytes@,
    ;

    /// Write `ascii` followed by a single `0x00` terminator.
    fn write_ascii(&mut self, ascii: &[u8]) -> (r: Result<(), Kff>)
        ensures
            r is Ok,
            final(self).written() == old(self).written() + ascii@ + seq![0u8],
    ;

    /// Write one byte: `1` for `true`, `0` for `false`.
    fn write_bool(&mut self, value: &bool) -> (r: Result<(), Kff>)
        ensures
            r is Ok,
            final(self).written() == old(self).written() + seq![bool_byte(*value)],
    ;

    /// Write one byte.
    fn write_u8(&mut self, value: &u8) -> (r: Result<(), Kff>)
        ensures
            r is Ok,
            final(self).written() == old(self).written() + seq![*value],
    ;

    /// Write two bytes, big-endian.
    fn write_u16(&mut self, value: &u16) -> (r: Result<(), Kff>)
        ensures
            r is Ok,
            final(self).written() == old(self).written() + u16_be_bytes(*value),
    ;

    /// Write four bytes, big-endian.
    fn write_u32(&mut self, value: &u32) -> (r: Result<(), Kff>)
        ensures
            r is Ok,
            final(self).written() == old(self).written() + u32_be_bytes(*value),
    ;

    /// Write eight bytes, big-endian.
    fn write_u64(&mut self, value: &u64) -> (r: Result<(), Kff>)
        ensures
            r is Ok,
            final(self).written() == old(self).written() + u64_be_bytes(*value),
    ;
}

/// An in-memory byte sink: the buffer of everything written so far.
pub struct BytesWriter {
    data: Vec<u8>,
}

impl BytesWriter {
    /// An empty sink.
    pub fn new() -> (r: BytesWriter)
        ensures
            r.written() == Seq::<u8>::empty(),
    {
        let r = BytesWriter { data: Vec::new() };
        proof {
            assert(r.written() =~= Seq::<u8>::empty());
        }
        r
    }

    /// Hand the written bytes out.
    pub fn into_vec(self) -> (r: Vec<u8>)
        ensures
            r@ == self.written(),
    {
        self.data
    }
}

impl KffWrite for BytesWriter {
    closed spec fn written(&self) -> Seq<u8> {
        self.data@
    }

    fn write_bytes(&mut self, bytes: &[u8]) -> (r: Result<(), Kff>) {
        let n = bytes.len();
        let mut i: usize = 0;
        while i < n
            invariant
                i <= n,
                n == bytes@.len(),
                self.data@ == old(self).data@ + bytes@.take(i as int),
            decreases n - i,
        {
            let b = bytes[i];
            self.data.push(b);
            proof {
                assert(self.data@ =~= old(self).data@ + bytes@.take(i + 1 as int));
            }
            i += 1;
        }
        proof {
            assert(self.data@ =~= old(self).data@ + bytes@);
        }
        Ok(())
    }

    fn write_ascii(&mut self, ascii: &[u8]) -> (r: Result<(), Kff>) {
        let ghost before = self.data@;
        let res = self.write_bytes(ascii);
        self.data.push(0);
        proof {
            assert(self.data@ =~= before + ascii@ + seq![0u8]);
        }
        res
    }

    fn write_bool(&mut self, value: &bool) -> (r: Result<(), Kff>) {
        let b: u8 = if *value {
            1
        } else {
            0
        };
        self.data.push(b);
        proof {
            assert(self.data@ =~= old(self).data@ + seq![bool_byte(*value)]);
        }
        Ok(())
    }

    fn write_u8(&mut self, value: &u8) -> (r: Result<(), Kff>) {
        self.data.push(*value);
        proof {
            assert(self.data@ =~= old(self).data@ + seq![*value]);
        }
        Ok(())
    }

    fn write_u16(&mut self, value: &u16) -> (r: Result<(), Kff>) {
        let v = *value;
        self.data.push(#[verifier::truncate] ((v >> 8) as u8));
        self.data.push(#[verifier::truncate] (v as u8));
        proof {
            assert(self.data@ =~= old(self).data@ + u16_be_bytes(v));
        }
        Ok(())
    }

    fn write_u32(&mut self, value: &u32) -> (r: Result<(), Kff>) {
        let v = *value;
        self.data.push(#[verifier::truncate] ((v >> 24) as u8));
        self.data.push(#[verifier::truncate] ((v >> 16) as u8));
        self.data.push(#[verifier::truncate] ((v >> 8) as u8));
        self.data.push(#[verifier::truncate] (v as u8));
        proof {
            assert(self.data@ =~= old(self).data@ + u32_be_bytes(v));
        }
        Ok(())
    }

    fn write_u64(&mut self, value: &u64) -> (r: Result<(), Kff>) {
        let v = *value;
        self.data.push(#[verifier::truncate] ((v >> 56) as u8));
        self.data.push(#[verifier::truncate] ((v >> 48) as u8));
        self.data.push(#[verifier::truncate] ((v >> 40) as u8));
        self.data.push(#[verifier::truncate] ((v >> 32) as u8));
        self.data.push(#[verifier::truncate] ((v >> 24) as u8));
        self.data.push(#[verifier::truncate] ((v >> 16) as u8));
        self.data.push(#[verifier::truncate] ((v >> 8) as u8));
        self.data.push(#[verifier::truncate] (v as u8));
        proof {
            assert(self.data@ =~= old(self).data@ + u64_be_bytes(v));
        }
        Ok(())
    }
}

} // verus!
