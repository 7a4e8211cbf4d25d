//! Byte reader foundation: bounds-checked cursors over a borrowed byte
//! slice and primitive big-endian decoding.
//!
//! Two reading modes are offered.  [`Stream`] is a fallible cursor: a read
//! that would exceed the slice returns [`Error::SliceOutOfBounds`].
//! [`SafeStream`] is an infallible cursor whose reads carry `requires`
//! clauses instead; it is usable only over a region whose length the
//! caller has already validated, and the verifier checks every such use.

use vstd::prelude::*;
use vstd::slice::slice_index_get;
use vstd::slice::slice_subrange;

use crate::Error;
use crate::slice_oob_error;

verus! {

broadcast use vstd::slice::axiom_spec_len;

/// `v` clamped into `u32` range (for diagnostic payloads; font offsets are
/// 32-bit, so saturation only touches degenerate in-memory buffers).
pub open spec fn sat_u32(v: int) -> u32 {
    if v >= 0xFFFF_FFFF {
        0xFFFF_FFFFu32
    } else if v <= 0 {
        0u32
    } else {
        v as u32
    }
}

/// `v` clamped into `u32` range.
pub fn usize_sat_u32(v: usize) -> (r: u32)
    ensures
        r == sat_u32(v as int),
{
    if v >= 0xFFFF_FFFF {
        0xFFFF_FFFFu32
    } else {
        v as u32
    }
}

/// `v` clamped into `u32` range.
pub fn u64_sat_u32(v: u64) -> (r: u32)
    ensures
        r == sat_u32(v as int),
{
    if v >= 0xFFFF_FFFF {
        0xFFFF_FFFFu32
    } else {
        v as u32
    }
}

/// The big-endian `u16` stored at `s[i..i + 2]`.
pub open spec fn be_u16(s: Seq<u8>, i: int) -> u16
    recommends
        0 <= i,
        i + 2 <= s.len(),
{
    (256 * (s[i] as int) + (s[i + 1] as int)) as u16
}

/// The big-endian `u32` stored at `s[i..i + 4]`.
pub open spec fn be_u32(s: Seq<u8>, i: int) -> u32
    recommends
        0 <= i,
        i + 4 <= s.len(),
{
    (16777216 * (s[i] as int) + 65536 * (s[i + 1] as int) + 256 * (s[i + 2] as int) + (s[i
        + 3] as int)) as u32
}

/// The big-endian `i16` stored at `s[i..i + 2]` (two's complement).
pub open spec fn be_i16(s: Seq<u8>, i: int) -> i16
    recommends
        0 <= i,
        i + 2 <= s.len(),
{
    be_u16(s, i) as i16
}

/// Reads the big-endian `u16` at `offset`.
pub fn read_u16_at(data: &[u8], offset: usize) -> (r: u16)
    requires
        offset + 2 <= data@.len(),
    ensures
        r == be_u16(data@, offset as int),
{
    proof {
        assert(data.len() == data@.len());
    }
    let b0 = *slice_index_get(data, offset);
    let b1 = *slice_index_get(data, offset + 1);
    (b0 as u16) * 256 + (b1 as u16)
}

/// Reads the big-endian `u32` at `offset`.
pub fn read_u32_at(data: &[u8], offset: usize) -> (r: u32)
    requires
        offset + 4 <= data@.len(),
    ensures
        r == be_u32(data@, offset as int),
{
    proof {
        assert(data.len() == data@.len());
    }
    let b0 = *slice_index_get(data, offset);
    let b1 = *slice_index_get(data, offset + 1);
    let b2 = *slice_index_get(data, offset + 2);
    let b3 = *slice_index_get(data, offset + 3);
    (b0 as u32) * 16777216 + (b1 as u32) * 65536 + (b2 as u32) * 256 + (b3 as u32)
}

/// Reads the big-endian `i16` at `offset`.
pub fn read_i16_at(data: &[u8], offset: usize) -> (r: i16)
    requires
        offset + 2 <= data@.len(),
    ensures
        r == be_i16(data@, offset as int),
{
    let v = read_u16_at(data, offset);
    v as i16
}

/// Reads the byte at `offset`.
pub fn read_u8_at(data: &[u8], offset: usize) -> (r: u8)
    requires
        offset < data@.len(),
    ensures
        r == data@[offset as int],
{
    *slice_index_get(data, offset)
}

/// Validates `start..end` against the buffer length and returns the
/// sub-slice, or an out-of-bounds error carrying start, end and length.
pub fn try_slice<'a>(data: &'a [u8], start: usize, end: usize) -> (r: Result<&'a [u8], Error>)
    ensures
        match r {
            Ok(s) => start <= end <= data@.len() && s@ == data@.subrange(
                start as int,
                end as int,
            ),
            Err(e) => !(start <= end <= data@.len()) && e == slice_oob_error(
                start as int,
                end as int,
                data@.len() as int,
            ),
        },
{
    if start <= end && end <= data.len() {
        Ok(slice_subrange(data, start, end))
    } else {
        Err(
            Error::SliceOutOfBounds {
                start: usize_sat_u32(start),
                end: usize_sat_u32(end),
                data_len: usize_sat_u32(data.len()),
            },
        )
    }
}

/// Validates a `start..start + len` range given as widened integers (so
/// that the offset arithmetic itself cannot overflow) and returns the
/// sub-slice, or an out-of-bounds error.
pub fn try_slice_wide<'a>(data: &'a [u8], start: u64, len: u64) -> (r: Result<&'a [u8], Error>)
    ensures
        match r {
            Ok(s) => start + len <= data@.len() && s@ == data@.subrange(
                start as int,
                start + len,
            ),
            Err(e) => start + len > data@.len() && e == slice_oob_error(
                start as int,
                start + len,
                data@.len() as int,
            ),
        },
{
    if len <= u64::MAX - start && start + len <= data.len() as u64 {
        Ok(slice_subrange(data, start as usize, (start + len) as usize))
    } else {
        let sat_end: u32 = if len <= u64::MAX - start && start + len >= 0xFFFF_FFFFu64 {
            0xFFFF_FFFFu32
        } else if len > u64::MAX - start {
            0xFFFF_FFFFu32
        } else {
            (start + len) as u32
        };
        Err(
            Error::SliceOutOfBounds {
                start: if start >= 0xFFFF_FFFFu64 {
                    0xFFFF_FFFFu32
                } else {
                    start as u32
                },
                end: sat_end,
                data_len: usize_sat_u32(data.len()),
            },
        )
    }
}

/// A fallible cursor over a borrowed byte slice.  Reads past the end of
/// the slice return a typed error instead of faulting.
pub struct Stream<'a> {
    data: &'a [u8],
    offset: usize,
}

impl<'a> Stream<'a> {
    /// The bytes this cursor was constructed over.
    pub closed spec fn bytes(&self) -> Seq<u8> {
        self.data@
    }

    /// The cursor position.
    pub closed spec fn pos(&self) -> int {
        self.offset as int
    }

    /// The error a read of `n` bytes at the current position returns when
    /// it would exceed the slice.
    pub open spec fn read_error(&self, n: int) -> Error {
        slice_oob_error(self.pos(), self.pos() + n, self.bytes().len() as int)
    }

    /// Creates a cursor at the start of `data`.
    pub fn new(data: &'a [u8]) -> (s: Self)
        ensures
            s.bytes() == data@,
            s.pos() == 0,
    {
        Stream { data, offset: 0 }
    }

    /// Reads a big-endian `u16`, advancing by two bytes.
    pub fn read_u16(&mut self) -> (r: Result<u16, Error>)
        ensures
            final(self).bytes() == old(self).bytes(),
            match r {
                Ok(v) => old(self).pos() + 2 <= old(self).bytes().len() && final(self).pos() == old(
                    self,
                ).pos() + 2 && v == be_u16(old(self).bytes(), old(self).pos()),
                Err(e) => old(self).pos() + 2 > old(self).bytes().len() && final(self).pos() == old(
                    self,
                ).pos() && e == old(self).read_error(2),
            },
    {
        if self.offset <= self.data.len() && self.data.len() - self.offset >= 2 {
            let v = read_u16_at(self.data, self.offset);
            self.offset = self.offset + 2;
            Ok(v)
        } else {
            Err(
                Error::SliceOutOfBounds {
                    start: usize_sat_u32(self.offset),
                    end: if self.offset <= usize::MAX - 2 {
                        usize_sat_u32(self.offset + 2)
                    } else {
                        0xFFFF_FFFFu32
                    },
                    data_len: usize_sat_u32(self.data.len()),
                },
            )
        }
    }

    /// Reads one byte, advancing past it.
    pub fn read_u8(&mut self) -> (r: Result<u8, Error>)
        ensures
            final(self).bytes() == old(self).bytes(),
            match r {
                Ok(v) => old(self).pos() + 1 <= old(self).bytes().len() && final(self).pos() == old(
                    self,
                ).pos() + 1 && v == old(self).bytes()[old(self).pos()],
                Err(e) => old(self).pos() + 1 > old(self).bytes().len() && final(self).pos() == old(
                    self,
                ).pos() && e == old(self).read_error(1),
            },
    {
        if self.offset < self.data.len() {
            let v = read_u8_at(self.data, self.offset);
            self.offset = self.offset + 1;
            Ok(v)
        } else {
            Err(
                Error::SliceOutOfBounds {
                    start: usize_sat_u32(self.offset),
                    end: if self.offset <= usize::MAX - 1 {
                        usize_sat_u32(self.offset + 1)
                    } else {
                        0xFFFF_FFFFu32
                    },
                    data_len: usize_sat_u32(self.data.len()),
                },
            )
        }
    }

    /// Reads a big-endian `i16`, advancing by two bytes.
    pub fn read_i16(&mut self) -> (r: Result<i16, Error>)
        ensures
            final(self).bytes() == old(self).bytes(),
            match r {
                Ok(v) => old(self).pos() + 2 <= old(self).bytes().len() && final(self).pos() == old(
                    self,
                ).pos() + 2 && v == be_i16(old(self).bytes(), old(self).pos()),
                Err(e) => old(self).pos() + 2 > old(self).bytes().len() && final(self).pos() == old(
                    self,
                ).pos() && e == old(self).read_error(2),
            },
    {
        match self.read_u16() {
            Ok(v) => Ok(v as i16),
            Err(e) => Err(e),
        }
    }

    /// Reads a big-endian `u32`, advancing by four bytes.
    pub fn read_u32(&mut self) -> (r: Result<u32, Error>)
        ensures
            final(self).bytes() == old(self).bytes(),
            match r {
                Ok(v) => old(self).pos() + 4 <= old(self).bytes().len() && final(self).pos() == old(
                    self,
                ).pos() + 4 && v == be_u32(old(self).bytes(), old(self).pos()),
                Err(e) => old(self).pos() + 4 > old(self).bytes().len() && final(self).pos() == old(
                    self,
                ).pos() && e == old(self).read_error(4),
            },
    {
        if self.offset <= self.data.len() && self.data.len() - self.offset >= 4 {
            let v = read_u32_at(self.data, self.offset);
            self.offset = self.offset + 4;
            Ok(v)
        } else {
            Err(
                Error::SliceOutOfBounds {
                    start: usize_sat_u32(self.offset),
                    end: if self.offset <= usize::MAX - 4 {
                        usize_sat_u32(self.offset + 4)
                    } else {
                        0xFFFF_FFFFu32
                    },
                    data_len: usize_sat_u32(self.data.len()),
                },
            )
        }
    }

    /// Advances by `n` bytes without reading them.  Skipping past the end
    /// parks the cursor at the end, where every later read fails.
    pub fn skip(&mut self, n: usize)
        ensures
            final(self).bytes() == old(self).bytes(),
            final(self).pos() == if old(self).pos() + n <= old(self).bytes().len() {
                old(self).pos() + n
            } else {
                old(self).bytes().len() as int
            },
    {
        if self.offset <= self.data.len() && self.data.len() - self.offset >= n {
            self.offset = self.offset + n;
        } else {
            self.offset = self.data.len();
        }
    }

    /// Reads `len` raw bytes as a sub-slice, advancing past them.
    pub fn read_bytes(&mut self, len: usize) -> (r: Result<&'a [u8], Error>)
        ensures
            final(self).bytes() == old(self).bytes(),
            match r {
                Ok(s) => old(self).pos() + len <= old(self).bytes().len() && final(self).pos()
                    == old(self).pos() + len && s@ == old(self).bytes().subrange(
                    old(self).pos(),
                    old(self).pos() + len,
                ),
                Err(e) => old(self).pos() + len > old(self).bytes().len() && final(self).pos()
                    == old(self).pos() && e == old(self).read_error(len as int),
            },
    {
        if self.offset <= self.data.len() && self.data.len() - self.offset >= len {
            let s = slice_subrange(self.data, self.offset, self.offset + len);
            self.offset = self.offset + len;
            Ok(s)
        } else {
            Err(
                Error::SliceOutOfBounds {
                    start: usize_sat_u32(self.offset),
                    end: if len <= usize::MAX - self.offset {
                        usize_sat_u32(self.offset + len)
                    } else {
                        0xFFFF_FFFFu32
                    },
                    data_len: usize_sat_u32(self.data.len()),
                },
            )
        }
    }
}

/// An infallible cursor over a region whose length the caller has already
/// validated: every read carries a `requires` clause checked statically,
/// so no bounds test is repeated at run time.
pub struct SafeStream<'a> {
    data: &'a [u8],
    offset: usize,
}

impl<'a> SafeStream<'a> {
    /// The bytes this cursor was constructed over.
    pub closed spec fn bytes(&self) -> Seq<u8> {
        self.data@
    }

    /// The cursor position.
    pub closed spec fn pos(&self) -> int {
        self.offset as int
    }

    /// Creates a cursor at the start of `data`.
    pub fn new(data: &'a [u8]) -> (s: Self)
        ensures
            s.bytes() == data@,
            s.pos() == 0,
    {
        SafeStream { data, offset: 0 }
    }

    /// Reads one byte.
    pub fn read_u8(&mut self) -> (r: u8)
        requires
            old(self).pos() + 1 <= old(self).bytes().len(),
        ensures
            final(self).bytes() == old(self).bytes(),
            final(self).pos() == old(self).pos() + 1,
            r == old(self).bytes()[old(self).pos()],
    {
        proof {
            assert(self.data.len() == self.data@.len());
        }
        let v = read_u8_at(self.data, self.offset);
        self.offset = self.offset + 1;
        v
    }

    /// Reads a big-endian `u16`.
    pub fn read_u16(&mut self) -> (r: u16)
        requires
            old(self).pos() + 2 <= old(self).bytes().len(),
        ensures
            final(self).bytes() == old(self).bytes(),
            final(self).pos() == old(self).pos() + 2,
            r == be_u16(old(self).bytes(), old(self).pos()),
    {
        proof {
            assert(self.data.len() == self.data@.len());
        }
        let v = read_u16_at(self.data, self.offset);
        self.offset = self.offset + 2;
        v
    }

    /// Reads a big-endian `i16`.
    pub fn read_i16(&mut self) -> (r: i16)
        requires
            old(self).pos() + 2 <= old(self).bytes().len(),
        ensures
            final(self).bytes() == old(self).bytes(),
            final(self).pos() == old(self).pos() + 2,
            r == be_i16(old(self).bytes(), old(self).pos()),
    {
        proof {
            assert(self.data.len() == self.data@.len());
        }
        let v = read_i16_at(self.data, self.offset);
        self.offset = self.offset + 2;
        v
    }

    /// Reads a big-endian `u32`.
    pub fn read_u32(&mut self) -> (r: u32)
        requires
            old(self).pos() + 4 <= old(self).bytes().len(),
        ensures
            final(self).bytes() == old(self).bytes(),
            final(self).pos() == old(self).pos() + 4,
            r == be_u32(old(self).bytes(), old(self).pos()),
    {
        proof {
            assert(self.data.len() == self.data@.len());
        }
        let v = read_u32_at(self.data, self.offset);
        self.offset = self.offset + 4;
        v
    }

    /// Advances by `n` bytes without reading them.
    pub fn skip(&mut self, n: usize)
        requires
            old(self).pos() + n <= old(self).bytes().len(),
        ensures
            final(self).bytes() == old(self).bytes(),
            final(self).pos() == old(self).pos() + n,
    {
        proof {
            assert(self.data.len() == self.data@.len());
        }
        self.offset = self.offset + n;
    }
}

} // verus!
