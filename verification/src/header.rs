//! The fixed-layout record at the start of a KFF container file: magic
//! marker, version pair, symbol-encoding byte, two flags and a
//! variable-length free block, together with the validation rules that make
//! a header well-formed.

use crate::error::Kff;
use crate::error::MagicLocation;
use crate::utils::be_u32_of;
use crate::utils::bool_byte;
use crate::utils::u32_be_bytes;
use crate::utils::KffRead;
use crate::utils::KffWrite;
use vstd::prelude::*;

verus! {

/// The magic marker that opens every container file: ASCII `KFF`.
pub open spec fn magic() -> Seq<u8> {
    seq![75u8, 70u8, 70u8]
}

/// The mathematical content of a [`Header`]: its six fields as plain values.
pub ghost struct HeaderV {
    pub major_version: u8,
    pub minor_version: u8,
    pub encoding: u8,
    pub uniq_kmer: bool,
    pub canonical_kmer: bool,
    pub free_block: Seq<u8>,
}

/// The 2-bit code the encoding byte assigns to the first symbol (bits 6-7).
pub open spec fn encoding_a(e: u8) -> u8 {
    e >> 6
}

/// The 2-bit code the encoding byte assigns to the second symbol (bits 4-5).
pub open spec fn encoding_c(e: u8) -> u8 {
    (e >> 4) & 0b11
}

/// The 2-bit code the encoding byte assigns to the third symbol (bits 2-3).
pub open spec fn encoding_t(e: u8) -> u8 {
    (e >> 2) & 0b11
}

/// The 2-bit code the encoding byte assigns to the fourth symbol (bits 0-1).
pub open spec fn encoding_g(e: u8) -> u8 {
    e & 0b11
}

/// Whether the encoding byte passes the format's distinctness check: five of
/// the six pairwise comparisons among the four 2-bit codes. The pair of the
/// second and fourth code is deliberately never compared, so those two codes
/// may coincide; files written under this looser rule exist, and the check
/// keeps it for wire compatibility.
pub open spec fn valid_encoding(e: u8) -> bool {
    &&& encoding_a(e) != encoding_c(e)
    &&& encoding_a(e) != encoding_t(e)
    &&& encoding_a(e) != encoding_g(e)
    &&& encoding_c(e) != encoding_t(e)
    &&& encoding_t(e) != encoding_g(e)
}

/// The version gate applied to `h`, first failure winning: the major version
/// may be at most 1 and the minor version at most 0.
pub open spec fn spec_check_version(h: HeaderV) -> Result<HeaderV, Kff> {
    if h.major_version > 1 {
        Err(Kff::HighMajorVersionNumber(h.major_version))
    } else if h.minor_version > 0 {
        Err(Kff::HighMinorVersionNumber(h.minor_version))
    } else {
        Ok(h)
    }
}

/// The encoding check applied to `h`.
pub open spec fn spec_check_encoding(h: HeaderV) -> Result<HeaderV, Kff> {
    if valid_encoding(h.encoding) {
        Ok(h)
    } else {
        Err(Kff::BadEncoding(h.encoding))
    }
}

/// All validation applied to `h`, in order: version gate, then encoding
/// check; the first failure wins.
pub open spec fn spec_check(h: HeaderV) -> Result<HeaderV, Kff> {
    match spec_check_version(h) {
        Ok(h2) => spec_check_encoding(h2),
        Err(e) => Err(e),
    }
}

/// The exact byte layout of `h` on the wire: magic marker, major and minor
/// version, encoding byte, the two flags as single bytes, the free block's
/// length as a big-endian 32-bit integer, then the free block itself.
pub open spec fn spec_encode(h: HeaderV) -> Seq<u8> {
    magic() + seq![
        h.major_version,
        h.minor_version,
        h.encoding,
        bool_byte(h.uniq_kmer),
        bool_byte(h.canonical_kmer),
    ] + u32_be_bytes(h.free_block.len() as u32) + h.free_block
}

/// What decoding a header from the byte stream `s` yields: the validated
/// header and how the stream can be rejected, mirroring the read order of
/// the wire layout. Reads past the end of `s` fail as [`Kff::Truncated`].
pub open spec fn spec_decode(s: Seq<u8>) -> Result<HeaderV, Kff> {
    if s.len() < 3 {
        Err(Kff::Truncated)
    } else if s.take(3) != magic() {
        Err(Kff::MissingMagic(MagicLocation::Start))
    } else if s.len() < 12 {
        Err(Kff::Truncated)
    } else {
        let len = be_u32_of(s[8], s[9], s[10], s[11]) as int;
        if s.len() < 12 + len {
            Err(Kff::Truncated)
        } else {
            spec_check(
                HeaderV {
                    major_version: s[3],
                    minor_version: s[4],
                    encoding: s[5],
                    uniq_kmer: s[6] != 0,
                    canonical_kmer: s[7] != 0,
                    free_block: s.subrange(12, 12 + len),
                },
            )
        }
    }
}

/// How many bytes of `s` a successful decode consumes: the 12 fixed bytes
/// and the free block.
pub open spec fn spec_decoded_len(s: Seq<u8>) -> int {
    12 + be_u32_of(s[8], s[9], s[10], s[11]) as int
}

/// The file preamble: validated on every path that constructs it, immutable
/// afterwards.
#[derive(Debug)]
pub struct Header {
    major_version: u8,
    minor_version: u8,
    encoding: u8,
    uniq_kmer: bool,
    canonical_kmer: bool,
    free_block: Vec<u8>,
}

impl View for Header {
    type V = HeaderV;

    closed spec fn view(&self) -> HeaderV {
        HeaderV {
            major_version: self.major_version,
            minor_version: self.minor_version,
            encoding: self.encoding,
            uniq_kmer: self.uniq_kmer,
            canonical_kmer: self.canonical_kmer,
            free_block: self.free_block@,
        }
    }
}

impl Header {
    /// Build a header from explicit field values and run the full
    /// validation: the result is either a header with exactly these fields,
    /// or the first validation error, and never a header known to be
    /// invalid.
    pub fn new(
        major_version: u8,
        minor_version: u8,
        encoding: u8,
        uniq_kmer: bool,
        canonical_kmer: bool,
        free_block: Vec<u8>,
    ) -> (r: Result<Self, Kff>)
        ensures
            ({
                let hv = HeaderV {
                    major_version,
                    minor_version,
                    encoding,
                    uniq_kmer,
                    canonical_kmer,
                    free_block: free_block@,
                };
                match r {
                    Ok(h) => h@ == hv && spec_check(hv) == Ok::<HeaderV, Kff>(hv),
                    Err(e) => spec_check(hv) == Err::<HeaderV, Kff>(e),
                }
            }),
    {
        let obj = Header {
            major_version,
            minor_version,
            encoding,
            uniq_kmer,
            canonical_kmer,
            free_block,
        };
        obj.check()
    }

    /// Run all validation on `self`: the version gate, then the encoding
    /// check; the first failure wins.
    pub fn check(self) -> (r: Result<Self, Kff>)
        ensures
            match r {
                Ok(h) => h@ == self@ && spec_check(self@) == Ok::<HeaderV, Kff>(self@),
                Err(e) => spec_check(self@) == Err::<HeaderV, Kff>(e),
            },
    {
        match self.check_version() {
            Ok(h) => h.check_encoding(),
            Err(e) => Err(e),
        }
    }

    /// The version gate: the major version may be at most 1 and the minor
    /// version at most 0; a higher value is returned in the error.
    pub fn check_version(self) -> (r: Result<Self, Kff>)
        ensures
            match r {
                Ok(h) => h@ == self@ && spec_check_version(self@) == Ok::<HeaderV, Kff>(self@),
                Err(e) => spec_check_version(self@) == Err::<HeaderV, Kff>(e),
            },
    {
        if self.major_version > 1 {
            return Err(Kff::HighMajorVersionNumber(self.major_version));
        }
        if self.minor_version > 0 {
            return Err(Kff::HighMinorVersionNumber(self.minor_version));
        }
        Ok(self)
    }

    /// The encoding check: the four 2-bit codes of the encoding byte must
    /// pass the format's five pairwise comparisons (see [`valid_encoding`]).
    pub fn check_encoding(self) -> (r: Result<Self, Kff>)
        ensures
            match r {
                Ok(h) => h@ == self@ && spec_check_encoding(self@) == Ok::<HeaderV, Kff>(self@),
                Err(e) => spec_check_encoding(self@) == Err::<HeaderV, Kff>(e),
            },
    {
        let a = self.encoding >> 6;
        let c = (self.encoding >> 4) & 0b11;
        let t = (self.encoding >> 2) & 0b11;
        let g = self.encoding & 0b11;

        if a != c && a != t && a != g && c != t && t != g {
            Ok(self)
        } else {
            Err(Kff::BadEncoding(self.encoding))
        }
    }

    /// Decode a header from a readable stream, consuming exactly the bytes
    /// of the wire layout, and validate it: the result and the error are
    /// exactly what [`spec_decode`] says of the stream's remaining bytes.
    pub fn read<R: KffRead>(inner: &mut R) -> (r: Result<Self, Kff>)
        ensures
            match r {
                Ok(h) => spec_decode(old(inner).readable()) == Ok::<HeaderV, Kff>(h@)
                    && final(inner).readable() == old(inner).readable().skip(
                    spec_decoded_len(old(inner).readable()),
                ),
                Err(e) => spec_decode(old(inner).readable()) == Err::<HeaderV, Kff>(e),
            },
            r is Err ==> exists|i: int|
                0 <= i <= old(inner).readable().len() && final(inner).readable() == old(
                    inner,
                ).readable().skip(i),
    {
        let ghost s = inner.readable();
        let magic_number = match inner.read_n_bytes::<3>() {
            Ok(v) => v,
            Err(e) => {
                proof {
                    assert(s.skip(0) =~= s);
                }
                return Err(e);
            },
        };
        if !(magic_number[0] == 75 && magic_number[1] == 70 && magic_number[2] == 70) {
            proof {
                assert(s.take(3) != magic());
            }
            return Err(Kff::MissingMagic(MagicLocation::Start));
        }
        proof {
            assert(s.take(3) =~= magic());
        }

        let major_version = match inner.read_u8() {
            Ok(v) => v,
            Err(e) => {
                proof {
                    assert(final(inner).readable() == s.skip(3));
                }
                return Err(e);
            },
        };
        proof {
            assert(inner.readable() =~= s.skip(4));
            assert(major_version == s[3]);
        }
        let minor_version = match inner.read_u8() {
            Ok(v) => v,
            Err(e) => {
                return Err(e);
            },
        };
        proof {
            assert(inner.readable() =~= s.skip(5));
            assert(minor_version == s[4]);
        }
        let encoding = match inner.read_u8() {
            Ok(v) => v,
            Err(e) => {
                return Err(e);
            },
        };
        proof {
            assert(inner.readable() =~= s.skip(6));
            assert(encoding == s[5]);
        }
        let uniq_kmer = match inner.read_bool() {
            Ok(v) => v,
            Err(e) => {
                return Err(e);
            },
        };
        proof {
            assert(inner.readable() =~= s.skip(7));
            assert(uniq_kmer == (s[6] != 0));
        }
        let canonical_kmer = match inner.read_bool() {
            Ok(v) => v,
            Err(e) => {
                return Err(e);
            },
        };
        proof {
            assert(inner.readable() =~= s.skip(8));
            assert(canonical_kmer == (s[7] != 0));
        }
        let free_block_size = match inner.read_u32() {
            Ok(v) => v,
            Err(e) => {
                return Err(e);
            },
        };
        proof {
            assert(inner.readable() =~= s.skip(12));
            assert(free_block_size == be_u32_of(s[8], s[9], s[10], s[11]));
        }
        let free_block = match inner.read_n_bytes_dyn(free_block_size as usize) {
            Ok(v) => v,
            Err(e) => {
                return Err(e);
            },
        };
        proof {
            let len = free_block_size as int;
            assert(free_block@ =~= s.subrange(12, 12 + len));
            assert(inner.readable() =~= s.skip(12 + len));
        }

        Self::new(major_version, minor_version, encoding, uniq_kmer, canonical_kmer, free_block)
    }

    /// Write the header's exact wire layout to a writable sink: the bytes
    /// appended are [`spec_encode`] of the header.
    pub fn write<W: KffWrite>(&self, outer: &mut W) -> (r: Result<(), Kff>)
        requires
            self@.free_block.len() <= u32::MAX,
        ensures
            r is Ok,
            final(outer).written() == old(outer).written() + spec_encode(self@),
    {
        let ghost before = outer.written();
        let magic_bytes: Vec<u8> = vec![75u8, 70u8, 70u8];
        let res = outer.write_bytes(magic_bytes.as_slice());
        proof {
            assert(magic_bytes@ =~= magic());
        }
        match res {
            Ok(_) => (),
            Err(e) => {
                return Err(e);
            },
        }
        match outer.write_u8(&self.major_version) {
            Ok(_) => (),
            Err(e) => {
                return Err(e);
            },
        }
        match outer.write_u8(&self.minor_version) {
            Ok(_) => (),
            Err(e) => {
                return Err(e);
            },
        }
        match outer.write_u8(&self.encoding) {
            Ok(_) => (),
            Err(e) => {
                return Err(e);
            },
        }
        match outer.write_bool(&self.uniq_kmer) {
            Ok(_) => (),
            Err(e) => {
                return Err(e);
            },
        }
        match outer.write_bool(&self.canonical_kmer) {
            Ok(_) => (),
            Err(e) => {
                return Err(e);
            },
        }
        let len: u32 = self.free_block.len() as u32;
        match outer.write_u32(&len) {
            Ok(_) => (),
            Err(e) => {
                return Err(e);
            },
        }
        let res = outer.write_bytes(self.free_block.as_slice());
        proof {
            assert(outer.written() =~= before + spec_encode(self@));
        }
        res
    }

    /// The format's major version.
    pub fn major_version(&self) -> (r: u8)
        ensures
            r == self@.major_version,
    {
        self.major_version
    }

    /// The format's minor version.
    pub fn minor_version(&self) -> (r: u8)
        ensures
            r == self@.minor_version,
    {
        self.minor_version
    }

    /// The symbol-encoding byte.
    pub fn encoding(&self) -> (r: u8)
        ensures
            r == self@.encoding,
    {
        self.encoding
    }

    /// Whether contained k-mers are stored deduplicated.
    pub fn uniq_kmer(&self) -> (r: bool)
        ensures
            r == self@.uniq_kmer,
    {
        self.uniq_kmer
    }

    /// Whether contained k-mers are stored strand-canonicalized.
    pub fn canonical_kmer(&self) -> (r: bool)
        ensures
            r == self@.canonical_kmer,
    {
        self.canonical_kmer
    }

    /// The reserved extension area, opaque to this codec.
    pub fn free_block(&self) -> (r: &Vec<u8>)
        ensures
            r@ == self@.free_block,
    {
        &self.free_block
    }
}

/// Round trip: every header whose fields pass validation and whose free
/// block's length fits the 32-bit length prefix decodes from its own wire
/// layout back to itself, whatever bytes follow it on the stream, and the
/// decode consumes exactly the layout's bytes.
pub proof fn lemma_round_trip(h: HeaderV, rest: Seq<u8>)
    requires
        spec_check(h) == Ok::<HeaderV, Kff>(h),
        h.free_block.len() <= u32::MAX,
    ensures
        spec_decode(spec_encode(h) + rest) == Ok::<HeaderV, Kff>(h),
        spec_decoded_len(spec_encode(h) + rest) == spec_encode(h).len(),
{
    let s = spec_encode(h) + rest;
    let len32 = h.free_block.len() as u32;
    crate::utils::lemma_be_u32_round_trip(len32);
    assert(s.take(3) =~= magic());
    assert(s[8] == u32_be_bytes(len32)[0]);
    assert(s[9] == u32_be_bytes(len32)[1]);
    assert(s[10] == u32_be_bytes(len32)[2]);
    assert(s[11] == u32_be_bytes(len32)[3]);
    assert(be_u32_of(s[8], s[9], s[10], s[11]) == len32);
    assert(len32 as int == h.free_block.len() as int);
    assert(s.subrange(12, 12 + h.free_block.len() as int) =~= h.free_block);
    assert(s[6] == bool_byte(h.uniq_kmer) && s[7] == bool_byte(h.canonical_kmer));
    assert((s[6] != 0) == h.uniq_kmer && (s[7] != 0) == h.canonical_kmer);
}

/// Magic rejection: a stream that opens with any 3 bytes other than the
/// magic marker is rejected as a missing start marker, whatever follows.
pub proof fn lemma_magic_rejected(s: Seq<u8>)
    requires
        s.len() >= 3,
        s.take(3) != magic(),
    ensures
        spec_decode(s) == Err::<HeaderV, Kff>(Kff::MissingMagic(MagicLocation::Start)),
{
}

/// Truncation: a stream shorter than the 12 fixed header bytes never
/// decodes; when it is not already rejected for its opening bytes, it is
/// rejected as truncated.
pub proof fn lemma_truncated(s: Seq<u8>)
    requires
        s.len() < 12,
    ensures
        spec_decode(s) is Err,
        s.len() < 3 || s.take(3) == magic() ==> spec_decode(s) == Err::<HeaderV, Kff>(
            Kff::Truncated,
        ),
{
}

} // verus!
