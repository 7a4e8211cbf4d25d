//! The compact outline format: header/index metadata parsing and the
//! Type2 charstring interpreter.
//!
//! A glyph of this format is a program for a small stack machine.  The
//! interpreter is bounded everywhere: the operand stack has a fixed
//! capacity, subroutine calls carry an explicit depth counter, and every
//! read is checked, so no charstring, however adversarial, can cause a
//! fault.  Outline events stream to the caller's sink exactly as in the
//! quadratic decoder.

use vstd::prelude::*;

use crate::CFFError;
use crate::Error;
use crate::OutlineBuilder;
use crate::OutlineEvent;
use crate::Rect;
use crate::coords::cadd;
use crate::coords::in_coord_range;
use crate::coords::spec_cadd;
use crate::parser::be_i16;
use crate::parser::be_u16;
use crate::parser::be_u32;
use crate::parser::read_u16_at;
use crate::parser::read_u8_at;

verus! {

broadcast use vstd::slice::axiom_spec_len, crate::lemma_prefix_trans, crate::lemma_prefix_push;

/// Capacity of the operand stack; a push beyond it is a VM error.
pub const STACK_CAPACITY: usize = 48;

/// Bound on subroutine call depth; exceeding it is a VM error, never
/// unbounded growth.
pub const MAX_CALL_DEPTH: u8 = 10;

/// Where the width rule places the first geometric operand: a
/// stack-clearing operator that carries exactly one operand more than it
/// needs, before any width has been consumed, treats the leading operand
/// as the glyph's advance-width override, which is discarded rather than
/// used as geometry.
pub open spec fn spec_width_args_start(stack_len: int, needed: int, width_parsed: bool) -> int {
    if !width_parsed && stack_len == needed + 1 {
        1
    } else {
        0
    }
}

/// Applies the width rule: returns the index of the first geometric
/// operand on the stack for an operator needing `needed` operands.
fn width_args_start(stack_len: usize, needed: usize, width_parsed: bool) -> (r: usize)
    requires
        needed < usize::MAX,
    ensures
        r == spec_width_args_start(stack_len as int, needed as int, width_parsed),
{
    if !width_parsed && stack_len == needed + 1 {
        1
    } else {
        0
    }
}

/// The width rule, as a law: the first stack-clearing operator of a
/// program that carries one extra leading operand consumes that operand
/// as the advance width — the geometric operands start at index 1, so
/// the leading operand is never used as a coordinate — and the rule
/// applies at most once: once a width has been consumed, every operand
/// is geometry.
pub proof fn lemma_width_rule(stack_len: int, needed: int)
    requires
        needed >= 0,
        stack_len == needed + 1,
    ensures
        spec_width_args_start(stack_len, needed, false) == 1,
        spec_width_args_start(stack_len, needed, true) == 0,
{
}

/// Precomputed compact-outline metadata: byte offsets of the index
/// structures and the private dictionary's width defaults, computed once
/// at load time.
#[derive(Clone, Copy, PartialEq, Eq, Structural, Debug)]
pub struct Metadata {
    /// Offset of the charstrings index from the table start.
    pub charstrings_offset: u32,
    /// Offset of the global-subroutine index from the table start.
    pub global_subrs_offset: u32,
    /// Offset of the local-subroutine index from the table start, when
    /// the private dictionary declares one.
    pub local_subrs_offset: u32,
    /// Whether a local-subroutine index is present.
    pub has_local_subrs: bool,
    /// The default advance width from the private dictionary.
    pub default_width: i32,
    /// The nominal advance width from the private dictionary.
    pub nominal_width: i32,
}

impl Metadata {
    /// Metadata of a font without a (valid) compact-outline table.
    pub fn empty() -> (r: Self)
        ensures
            r == Self::spec_empty(),
    {
        Metadata {
            charstrings_offset: 0,
            global_subrs_offset: 0,
            local_subrs_offset: 0,
            has_local_subrs: false,
            default_width: 0,
            nominal_width: 0,
        }
    }

    /// Metadata of a font without a (valid) compact-outline table.
    pub open spec fn spec_empty() -> Self {
        Metadata {
            charstrings_offset: 0u32,
            global_subrs_offset: 0u32,
            local_subrs_offset: 0u32,
            has_local_subrs: false,
            default_width: 0i32,
            nominal_width: 0i32,
        }
    }
}

/// A parsed view of one index structure: `count` items, whose offsets
/// (1-based, big-endian, `off_size` bytes each) sit at `offsets_pos` and
/// whose payload starts at `data_pos`.
pub struct IndexRef {
    pub count: u16,
    pub off_size: u8,
    pub offsets_pos: usize,
    pub data_pos: usize,
    pub end: usize,
}

impl IndexRef {
    /// The offsets array and payload base lie inside a table of length
    /// `len`, and each stored offset field can be read.
    pub open spec fn wf(&self, len: int) -> bool {
        &&& 1 <= self.off_size <= 4
        &&& self.count > 0 ==> self.offsets_pos + (self.count as int + 1) * (self.off_size as int)
            <= len && self.data_pos == self.offsets_pos + (self.count as int + 1) * (
        self.off_size as int)
        &&& self.data_pos <= self.end <= len
    }
}

/// The 1-, 2-, 3- or 4-byte big-endian offset field stored at `pos`.
pub open spec fn spec_read_offset(data: Seq<u8>, pos: int, off_size: u8) -> u32
    recommends
        1 <= off_size <= 4,
        0 <= pos,
        pos + off_size <= data.len(),
{
    if off_size == 1 {
        data[pos] as u32
    } else if off_size == 2 {
        be_u16(data, pos) as u32
    } else if off_size == 3 {
        (65536 * (data[pos] as int) + (be_u16(data, pos + 1) as int)) as u32
    } else {
        be_u32(data, pos)
    }
}

/// Reads a 1-, 2-, 3- or 4-byte big-endian offset field.
fn read_offset(data: &[u8], pos: usize, off_size: u8) -> (r: u32)
    requires
        1 <= off_size <= 4,
        pos + off_size <= data@.len(),
    ensures
        r == spec_read_offset(data@, pos as int, off_size),
{
    proof {
        assert(data.len() == data@.len());
    }
    if off_size == 1 {
        read_u8_at(data, pos) as u32
    } else if off_size == 2 {
        read_u16_at(data, pos) as u32
    } else if off_size == 3 {
        (read_u8_at(data, pos) as u32) * 65536 + (read_u16_at(data, pos + 1) as u32)
    } else {
        crate::parser::read_u32_at(data, pos)
    }
}

/// The parsed view of the index structure at `pos`, or `None` when the
/// structure does not fit the table.
pub open spec fn spec_parse_index(data: Seq<u8>, pos: int) -> Option<IndexRef> {
    if pos < 0 || pos + 2 > data.len() {
        None
    } else {
        let count = be_u16(data, pos);
        if count == 0 {
            Some(
                IndexRef {
                    count: 0u16,
                    off_size: 1u8,
                    offsets_pos: (pos + 2) as usize,
                    data_pos: (pos + 2) as usize,
                    end: (pos + 2) as usize,
                },
            )
        } else if pos + 3 > data.len() {
            None
        } else {
            let off_size = data[pos + 2];
            if off_size < 1 || off_size > 4 {
                None
            } else {
                let offsets_len = (count as int + 1) * (off_size as int);
                if pos + 3 + offsets_len > data.len() {
                    None
                } else {
                    let data_pos = pos + 3 + offsets_len;
                    let last = spec_read_offset(data, data_pos - off_size, off_size) as int;
                    if last == 0 || data_pos + last - 1 > data.len() {
                        None
                    } else {
                        Some(
                            IndexRef {
                                count,
                                off_size,
                                offsets_pos: (pos + 3) as usize,
                                data_pos: data_pos as usize,
                                end: (data_pos + last - 1) as usize,
                            },
                        )
                    }
                }
            }
        }
    }
}

/// Parses the index structure at `pos`, validating its offsets array
/// against the table length.
pub fn parse_index(data: &[u8], pos: usize) -> (r: Result<IndexRef, CFFError>)
    ensures
        match r {
            Ok(idx) => spec_parse_index(data@, pos as int) == Some(idx) && idx.wf(
                data@.len() as int,
            ),
            Err(e) => spec_parse_index(data@, pos as int) is None && e
                == CFFError::ReadOutOfBounds,
        },
{
    proof {
        assert(data.len() == data@.len());
    }
    if pos >= data.len() || data.len() - pos < 2 {
        return Err(CFFError::ReadOutOfBounds);
    }
    let count = read_u16_at(data, pos);
    if count == 0 {
        // An empty index is two bytes long and holds nothing.
        return Ok(
            IndexRef {
                count: 0,
                off_size: 1,
                offsets_pos: pos + 2,
                data_pos: pos + 2,
                end: pos + 2,
            },
        );
    }
    if data.len() - pos < 3 {
        return Err(CFFError::ReadOutOfBounds);
    }
    let off_size = read_u8_at(data, pos + 2);
    if off_size < 1 || off_size > 4 {
        return Err(CFFError::ReadOutOfBounds);
    }
    let offsets_pos = pos + 3;
    proof {
        assert((count as int + 1) * (off_size as int) <= 0x40004) by (nonlinear_arith)
            requires
                count <= 0xFFFF,
                1 <= off_size <= 4,
        ;
        assert((count as int + 1) * (off_size as int) >= 2 * (off_size as int)) by (nonlinear_arith)
            requires
                count >= 1,
                off_size >= 1,
        ;
    }
    let offsets_len: u64 = (count as u64 + 1) * (off_size as u64);
    let avail: u64 = (data.len() - offsets_pos) as u64;
    if avail < offsets_len {
        return Err(CFFError::ReadOutOfBounds);
    }
    let data_pos = offsets_pos + offsets_len as usize;
    // The index's payload ends where its last offset points.
    let last = read_offset(data, data_pos - off_size as usize, off_size);
    if last == 0 {
        return Err(CFFError::ReadOutOfBounds);
    }
    let rel_end: u64 = last as u64 - 1;
    if rel_end > (data.len() - data_pos) as u64 {
        return Err(CFFError::ReadOutOfBounds);
    }
    let end = data_pos + rel_end as usize;
    Ok(IndexRef { count, off_size, offsets_pos, data_pos, end })
}

/// The bytes of item `i` of a parsed index, or `None` when its offset
/// pair is unusable.
pub open spec fn spec_index_item(data: Seq<u8>, idx: IndexRef, i: int) -> Option<Seq<u8>> {
    let field = idx.offsets_pos + i * (idx.off_size as int);
    let start_off = spec_read_offset(data, field, idx.off_size) as int;
    let end_off = spec_read_offset(data, field + idx.off_size, idx.off_size) as int;
    if start_off == 0 || end_off < start_off || start_off - 1 > data.len() - idx.data_pos
        || end_off - 1 > data.len() - idx.data_pos {
        None
    } else {
        Some(data.subrange(idx.data_pos + start_off - 1, idx.data_pos + end_off - 1))
    }
}

/// Returns the bytes of item `i` of a parsed index.
pub fn index_get<'a>(data: &'a [u8], idx: &IndexRef, i: u16) -> (r: Result<&'a [u8], CFFError>)
    requires
        idx.wf(data@.len() as int),
        i < idx.count,
    ensures
        match r {
            Ok(s) => spec_index_item(data@, *idx, i as int) == Some(s@),
            Err(e) => spec_index_item(data@, *idx, i as int) is None && e
                == CFFError::ReadOutOfBounds,
        },
{
    proof {
        assert(data.len() == data@.len());
        vstd::arithmetic::mul::lemma_mul_inequality(
            i as int + 1,
            idx.count as int,
            idx.off_size as int,
        );
        vstd::arithmetic::mul::lemma_mul_inequality(
            i as int + 2,
            idx.count as int + 1,
            idx.off_size as int,
        );
        assert((i as int) * (idx.off_size as int) >= 0) by (nonlinear_arith)
            requires
                i >= 0,
                idx.off_size >= 1,
        ;
        assert((i as int + 2) * (idx.off_size as int) == (i as int) * (idx.off_size as int) + 2 * (
        idx.off_size as int)) by (nonlinear_arith);
    }
    let field = idx.offsets_pos + (i as usize) * (idx.off_size as usize);
    let start_off = read_offset(data, field, idx.off_size);
    let end_off = read_offset(data, field + idx.off_size as usize, idx.off_size);
    if start_off == 0 || end_off < start_off {
        return Err(CFFError::ReadOutOfBounds);
    }
    let payload: u64 = (data.len() - idx.data_pos) as u64;
    if start_off as u64 - 1 > payload || end_off as u64 - 1 > payload {
        return Err(CFFError::ReadOutOfBounds);
    }
    let start = idx.data_pos + (start_off - 1) as usize;
    let end = idx.data_pos + (end_off - 1) as usize;
    match crate::parser::try_slice(data, start, end) {
        Ok(s) => Ok(s),
        Err(_) => Err(CFFError::ReadOutOfBounds),
    }
}

/// One step of a dictionary walk: the operands seen before each
/// operator, with the two most recent kept (no operator the loader needs
/// takes more), searching for operator `op`.  `in_real` means the walk
/// is inside a real-number operand's nibbles (read as zero; every value
/// the loader needs — offsets and sizes — is integral).
pub open spec fn spec_dict_find(
    dict: Seq<u8>,
    op: u16,
    pos: int,
    prev: int,
    last: int,
    in_real: bool,
) -> Option<(int, int)>
    decreases dict.len() - pos,
{
    if pos < 0 || pos >= dict.len() {
        None
    } else if in_real {
        let n = dict[pos];
        if n & 0x0F == 0x0F || n & 0xF0 == 0xF0 {
            spec_dict_find(dict, op, pos + 1, prev, last, false)
        } else {
            spec_dict_find(dict, op, pos + 1, prev, last, true)
        }
    } else {
        let b0 = dict[pos];
        if b0 <= 21 {
            if b0 == 12 {
                if pos + 1 >= dict.len() {
                    None
                } else if 0x0c00 + (dict[pos + 1] as int) == op as int {
                    Some((prev, last))
                } else {
                    spec_dict_find(dict, op, pos + 2, 0, 0, false)
                }
            } else if b0 as int == op as int {
                Some((prev, last))
            } else {
                spec_dict_find(dict, op, pos + 1, 0, 0, false)
            }
        } else if b0 == 28 {
            if pos + 3 > dict.len() {
                None
            } else {
                spec_dict_find(dict, op, pos + 3, last, be_i16(dict, pos + 1) as int, false)
            }
        } else if b0 == 29 {
            if pos + 5 > dict.len() {
                None
            } else {
                spec_dict_find(
                    dict,
                    op,
                    pos + 5,
                    last,
                    (be_u32(dict, pos + 1) as i32) as int,
                    false,
                )
            }
        } else if b0 == 30 {
            spec_dict_find(dict, op, pos + 1, last, 0, true)
        } else if 32 <= b0 && b0 <= 246 {
            spec_dict_find(dict, op, pos + 1, last, b0 - 139, false)
        } else if 247 <= b0 && b0 <= 250 {
            if pos + 2 > dict.len() {
                None
            } else {
                spec_dict_find(
                    dict,
                    op,
                    pos + 2,
                    last,
                    (b0 - 247) * 256 + dict[pos + 1] + 108,
                    false,
                )
            }
        } else if 251 <= b0 && b0 <= 254 {
            if pos + 2 > dict.len() {
                None
            } else {
                spec_dict_find(
                    dict,
                    op,
                    pos + 2,
                    last,
                    -(b0 - 251) * 256 - dict[pos + 1] - 108,
                    false,
                )
            }
        } else {
            None
        }
    }
}

/// Walks a dictionary and returns the operands that preceded the first
/// occurrence of operator `op`, exactly as [`spec_dict_find`] describes.
fn dict_find(dict: &[u8], op: u16) -> (r: Option<(i64, i64)>)
    ensures
        match r {
            Some(v) => spec_dict_find(dict@, op, 0, 0, 0, false) == Some(
                (v.0 as int, v.1 as int),
            ),
            None => spec_dict_find(dict@, op, 0, 0, 0, false) is None,
        },
{
    proof {
        assert(dict.len() == dict@.len());
    }
    let mut pos: usize = 0;
    let mut prev: i64 = 0;
    let mut last: i64 = 0;
    while pos < dict.len()
        invariant
            pos <= dict@.len(),
            spec_dict_find(dict@, op, 0, 0, 0, false) == spec_dict_find(
                dict@,
                op,
                pos as int,
                prev as int,
                last as int,
                false,
            ),
        decreases dict@.len() - pos,
    {
        let b0 = read_u8_at(dict, pos);
        if b0 <= 21 {
            // An operator byte.
            let (code, next): (u16, usize) = if b0 == 12 {
                if pos + 1 >= dict.len() {
                    return None;
                }
                (0x0c00u16 + read_u8_at(dict, pos + 1) as u16, pos + 2)
            } else {
                (b0 as u16, pos + 1)
            };
            if code == op {
                return Some((prev, last));
            }
            prev = 0;
            last = 0;
            pos = next;
        } else if b0 == 28 {
            if dict.len() - pos < 3 {
                return None;
            }
            prev = last;
            last = crate::parser::read_i16_at(dict, pos + 1) as i64;
            pos = pos + 3;
        } else if b0 == 29 {
            if dict.len() - pos < 5 {
                return None;
            }
            prev = last;
            last = (crate::parser::read_u32_at(dict, pos + 1) as i32) as i64;
            pos = pos + 5;
        } else if b0 == 30 {
            // A real-number operand: skip its nibbles; read as zero.
            let real_prev = last;
            let mut q = pos + 1;
            let mut done = false;
            while !done && q < dict.len()
                invariant
                    pos < q <= dict@.len(),
                    spec_dict_find(dict@, op, 0, 0, 0, false) == if done {
                        spec_dict_find(dict@, op, q as int, real_prev as int, 0, false)
                    } else {
                        spec_dict_find(dict@, op, q as int, real_prev as int, 0, true)
                    },
                decreases dict@.len() - q,
            {
                let n = read_u8_at(dict, q);
                q = q + 1;
                if n & 0x0F == 0x0F || n & 0xF0 == 0xF0 {
                    done = true;
                }
            }
            if !done {
                return None;
            }
            prev = real_prev;
            last = 0;
            pos = q;
        } else if b0 >= 32 && b0 <= 246 {
            prev = last;
            last = b0 as i64 - 139;
            pos = pos + 1;
        } else if b0 >= 247 && b0 <= 250 {
            if dict.len() - pos < 2 {
                return None;
            }
            prev = last;
            last = (b0 as i64 - 247) * 256 + read_u8_at(dict, pos + 1) as i64 + 108;
            pos = pos + 2;
        } else if b0 >= 251 && b0 <= 254 {
            if dict.len() - pos < 2 {
                return None;
            }
            prev = last;
            last = -(b0 as i64 - 251) * 256 - (read_u8_at(dict, pos + 1) as i64) - 108;
            pos = pos + 2;
        } else {
            // A reserved byte: the dictionary is malformed.
            return None;
        }
    }
    None
}

/// Clamps a dictionary operand into `u32` (offsets are 32-bit).
fn dict_offset(v: i64) -> (r: Option<u32>)
    ensures
        r == if 0 <= v <= 0xFFFF_FFFF {
            Some(v as u32)
        } else {
            None::<u32>
        },
{
    if 0 <= v && v <= 0xFFFF_FFFFi64 {
        Some(v as u32)
    } else {
        None
    }
}

/// Clamps a dictionary operand into the coordinate range.
fn dict_coord(v: i64) -> (r: i32)
    ensures
        r == crate::coords::clamp_coord(v as int),
        in_coord_range(r as int),
{
    crate::coords::clamp_wide(v)
}

/// The widths and local-subroutine fields a private dictionary at
/// `off..off + size` of the table contributes, combined with the already
/// resolved `charstrings_offset` and `global_subrs_offset`.
pub open spec fn spec_metadata_private(
    data: Seq<u8>,
    charstrings_offset: int,
    global_subrs_offset: int,
    size: int,
    off: int,
) -> Option<Metadata> {
    if !(0 <= size <= 0xFFFF_FFFF) || !(0 <= off <= 0xFFFF_FFFF) || off + size > data.len() {
        None
    } else {
        let private_dict = data.subrange(off, off + size);
        let default_width = match spec_dict_find(private_dict, 20, 0, 0, 0, false) {
            Some(v) => crate::coords::clamp_coord(v.1) as i32,
            None => 0i32,
        };
        let nominal_width = match spec_dict_find(private_dict, 21, 0, 0, 0, false) {
            Some(v) => crate::coords::clamp_coord(v.1) as i32,
            None => 0i32,
        };
        match spec_dict_find(private_dict, 19, 0, 0, 0, false) {
            None => Some(
                Metadata {
                    charstrings_offset: charstrings_offset as u32,
                    global_subrs_offset: global_subrs_offset as u32,
                    local_subrs_offset: 0u32,
                    has_local_subrs: false,
                    default_width,
                    nominal_width,
                },
            ),
            Some(sv) => {
                if !(0 <= sv.1 <= 0xFFFF_FFFF) || off + sv.1 > 0xFFFF_FFFF || off + sv.1
                    > data.len() || spec_parse_index(data, off + sv.1) is None {
                    None
                } else {
                    Some(
                        Metadata {
                            charstrings_offset: charstrings_offset as u32,
                            global_subrs_offset: global_subrs_offset as u32,
                            local_subrs_offset: (off + sv.1) as u32,
                            has_local_subrs: true,
                            default_width,
                            nominal_width,
                        },
                    )
                }
            },
        }
    }
}

/// The metadata the top dictionary yields, given the offset of the
/// global-subroutine index.
pub open spec fn spec_metadata_of(
    data: Seq<u8>,
    top_dict: Seq<u8>,
    global_subrs_offset: int,
) -> Option<Metadata> {
    let cstype_ok = match spec_dict_find(top_dict, 0x0c06, 0, 0, 0, false) {
        Some(v) => v.1 == 2,
        None => true,
    };
    if !cstype_ok || global_subrs_offset > 0xFFFF_FFFF {
        None
    } else {
        match spec_dict_find(top_dict, 17, 0, 0, 0, false) {
            None => None,
            Some(cs) => {
                if !(0 <= cs.1 <= 0xFFFF_FFFF) || cs.1 > data.len() || spec_parse_index(
                    data,
                    cs.1,
                ) is None {
                    None
                } else {
                    match spec_dict_find(top_dict, 18, 0, 0, 0, false) {
                        None => Some(
                            Metadata {
                                charstrings_offset: cs.1 as u32,
                                global_subrs_offset: global_subrs_offset as u32,
                                local_subrs_offset: 0u32,
                                has_local_subrs: false,
                                default_width: 0i32,
                                nominal_width: 0i32,
                            },
                        ),
                        Some(pr) => spec_metadata_private(
                            data,
                            cs.1,
                            global_subrs_offset,
                            pr.0,
                            pr.1,
                        ),
                    }
                }
            },
        }
    }
}

/// What the speculative metadata sub-parse yields on a compact-outline
/// table, or `None` exactly when that sub-parse fails (and the loader
/// treats the table as absent): header, the four leading index
/// structures, the top dictionary's charstrings offset and charstring
/// type, and the private dictionary's widths and local-subroutine index.
pub open spec fn spec_parse_metadata(data: Seq<u8>) -> Option<Metadata> {
    if data.len() < 4 || data[2] as int > data.len() {
        None
    } else {
        match spec_parse_index(data, data[2] as int) {
            None => None,
            Some(name_index) => match spec_parse_index(data, name_index.end as int) {
                None => None,
                Some(top_index) => {
                    if top_index.count < 1 {
                        None
                    } else {
                        match spec_parse_index(data, top_index.end as int) {
                            None => None,
                            Some(string_index) => {
                                if spec_parse_index(data, string_index.end as int) is None {
                                    None
                                } else {
                                    match spec_index_item(data, top_index, 0) {
                                        None => None,
                                        Some(top_dict) => spec_metadata_of(
                                            data,
                                            top_dict,
                                            string_index.end as int,
                                        ),
                                    }
                                }
                            },
                        }
                    }
                },
            },
        }
    }
}

/// Speculatively parses the compact-outline table's header, index
/// structures and dictionaries into [`Metadata`].  Any failure makes the
/// loader treat the table as absent rather than failing the whole load.
#[verifier::rlimit(100)]
pub fn parse_metadata(data: &[u8]) -> (r: Result<Metadata, CFFError>)
    ensures
        match r {
            Ok(m) => spec_parse_metadata(data@) == Some(m),
            Err(_) => spec_parse_metadata(data@) is None,
        },
        r matches Ok(m) ==> m.charstrings_offset <= data@.len() && m.global_subrs_offset
            <= data@.len() && (m.has_local_subrs ==> m.local_subrs_offset <= data@.len()),
{
    proof {
        assert(data.len() == data@.len());
    }
    if data.len() < 4 {
        return Err(CFFError::ReadOutOfBounds);
    }
    let hdr_size = read_u8_at(data, 2);
    if (hdr_size as usize) > data.len() {
        return Err(CFFError::ReadOutOfBounds);
    }
    // Name index, top-dictionary index, string index and the global
    // subroutine index follow each other directly.
    let name_index = match parse_index(data, hdr_size as usize) {
        Ok(i) => i,
        Err(e) => {
            return Err(e);
        },
    };
    let top_index = match parse_index(data, name_index.end) {
        Ok(i) => i,
        Err(e) => {
            return Err(e);
        },
    };
    if top_index.count < 1 {
        return Err(CFFError::ReadOutOfBounds);
    }
    let string_index = match parse_index(data, top_index.end) {
        Ok(i) => i,
        Err(e) => {
            return Err(e);
        },
    };
    let global_subrs_offset = string_index.end;
    match parse_index(data, global_subrs_offset) {
        Ok(_) => {},
        Err(e) => {
            return Err(e);
        },
    }

    let top_dict = match index_get(data, &top_index, 0) {
        Ok(s) => s,
        Err(e) => {
            return Err(e);
        },
    };

    // Only charstring type 2 programs are supported (it is the default).
    match dict_find(top_dict, 0x0c06) {
        Some((_, v)) => {
            if v != 2 {
                return Err(CFFError::InvalidOperator);
            }
        },
        None => {},
    }

    let charstrings_offset: u32 = match dict_find(top_dict, 17) {
        Some((_, v)) => match dict_offset(v) {
            Some(o) => o,
            None => {
                return Err(CFFError::ReadOutOfBounds);
            },
        },
        None => {
            return Err(CFFError::ReadOutOfBounds);
        },
    };
    if (charstrings_offset as u64) > data.len() as u64 {
        return Err(CFFError::ReadOutOfBounds);
    }
    // Validate the charstrings index now; outlining revalidates cheaply.
    match parse_index(data, charstrings_offset as usize) {
        Ok(_) => {},
        Err(e) => {
            return Err(e);
        },
    }

    let mut local_subrs_offset: u32 = 0;
    let mut has_local_subrs = false;
    let mut default_width: i32 = 0;
    let mut nominal_width: i32 = 0;
    match dict_find(top_dict, 18) {
        Some((size, off)) => {
            let size_u = match dict_offset(size) {
                Some(o) => o,
                None => {
                    return Err(CFFError::ReadOutOfBounds);
                },
            };
            let off_u = match dict_offset(off) {
                Some(o) => o,
                None => {
                    return Err(CFFError::ReadOutOfBounds);
                },
            };
            let end: u64 = off_u as u64 + size_u as u64;
            if end > data.len() as u64 {
                return Err(CFFError::ReadOutOfBounds);
            }
            let private_dict = match crate::parser::try_slice(
                data,
                off_u as usize,
                end as usize,
            ) {
                Ok(s) => s,
                Err(_) => {
                    return Err(CFFError::ReadOutOfBounds);
                },
            };
            match dict_find(private_dict, 20) {
                Some((_, v)) => {
                    default_width = dict_coord(v);
                },
                None => {},
            }
            match dict_find(private_dict, 21) {
                Some((_, v)) => {
                    nominal_width = dict_coord(v);
                },
                None => {},
            }
            match dict_find(private_dict, 19) {
                Some((_, v)) => {
                    let rel = match dict_offset(v) {
                        Some(o) => o,
                        None => {
                            return Err(CFFError::ReadOutOfBounds);
                        },
                    };
                    let abs: u64 = off_u as u64 + rel as u64;
                    if abs > 0xFFFF_FFFFu64 || abs > data.len() as u64 {
                        return Err(CFFError::ReadOutOfBounds);
                    }
                    local_subrs_offset = abs as u32;
                    has_local_subrs = true;
                    match parse_index(data, local_subrs_offset as usize) {
                        Ok(_) => {},
                        Err(e) => {
                            return Err(e);
                        },
                    }
                },
                None => {},
            }
        },
        None => {},
    }

    if (global_subrs_offset as u64) > 0xFFFF_FFFFu64 {
        return Err(CFFError::ReadOutOfBounds);
    }
    Ok(
        Metadata {
            charstrings_offset,
            global_subrs_offset: global_subrs_offset as u32,
            local_subrs_offset,
            has_local_subrs,
            default_width,
            nominal_width,
        },
    )
}

/// The accumulated bounding box of every emitted coordinate.
struct BboxAcc {
    any: bool,
    x_min: i32,
    y_min: i32,
    x_max: i32,
    y_max: i32,
}

/// The charstring machine state: bounded operand stack, pen position,
/// stem count, width-consumed flag, open-contour flag and the bounding
/// box accumulator.  Call depth lives on the (bounded) recursion.
struct Vm {
    stack: Vec<i32>,
    x: i32,
    y: i32,
    stems: u32,
    width_parsed: bool,
    has_moved: bool,
    end_reached: bool,
    bbox: BboxAcc,
}

impl Vm {
    /// The operand stack is within capacity and every held value, like
    /// the pen position, lies in the coordinate range.
    spec fn wf(&self) -> bool {
        &&& self.stack@.len() <= STACK_CAPACITY
        &&& forall|i: int|
            0 <= i < self.stack@.len() ==> in_coord_range(#[trigger] self.stack@[i] as int)
        &&& in_coord_range(self.x as int)
        &&& in_coord_range(self.y as int)
        &&& self.bbox.any ==> self.bbox.x_min <= self.bbox.x_max && self.bbox.y_min
            <= self.bbox.y_max
        &&& self.has_moved ==> self.bbox.any
    }

    fn new() -> (r: Self)
        ensures
            r.wf(),
            r.stack@.len() == 0,
            !r.width_parsed,
            !r.has_moved,
            !r.end_reached,
            r.x == 0 && r.y == 0,
            !r.bbox.any,
    {
        Vm {
            stack: Vec::new(),
            x: 0,
            y: 0,
            stems: 0,
            width_parsed: false,
            has_moved: false,
            end_reached: false,
            bbox: BboxAcc { any: false, x_min: 0, y_min: 0, x_max: 0, y_max: 0 },
        }
    }

    /// Pushes an operand; exceeding the stack capacity is a VM error.
    fn push(&mut self, v: i32) -> (r: Result<(), CFFError>)
        requires
            old(self).wf(),
            in_coord_range(v as int),
        ensures
            final(self).wf(),
            match r {
                Ok(()) => old(self).stack@.len() < STACK_CAPACITY && final(self).stack@ == old(
                    self,
                ).stack@.push(v) && final(self).x == old(self).x && final(self).y == old(self).y
                    && final(self).has_moved == old(self).has_moved && final(self).width_parsed
                    == old(self).width_parsed && final(self).end_reached == old(self).end_reached
                    && final(self).bbox == old(self).bbox,
                Err(e) => e == CFFError::StackOverflow && *final(self) == *old(self),
            },
    {
        if self.stack.len() < STACK_CAPACITY {
            self.stack.push(v);
            Ok(())
        } else {
            Err(CFFError::StackOverflow)
        }
    }

    /// Folds a point into the bounding box.
    fn grow_bbox(&mut self, px: i32, py: i32)
        requires
            old(self).wf(),
        ensures
            final(self).wf(),
            final(self).stack@ == old(self).stack@,
            final(self).x == old(self).x && final(self).y == old(self).y,
            final(self).has_moved == old(self).has_moved,
            final(self).width_parsed == old(self).width_parsed,
            final(self).end_reached == old(self).end_reached,
            final(self).bbox.any,
    {
        if self.bbox.any {
            self.bbox.x_min = crate::coords::cmin(self.bbox.x_min, px);
            self.bbox.y_min = crate::coords::cmin(self.bbox.y_min, py);
            self.bbox.x_max = crate::coords::cmax(self.bbox.x_max, px);
            self.bbox.y_max = crate::coords::cmax(self.bbox.y_max, py);
        } else {
            self.bbox.any = true;
            self.bbox.x_min = px;
            self.bbox.y_min = py;
            self.bbox.x_max = px;
            self.bbox.y_max = py;
        }
    }
}

/// Moves the pen by `(dx, dy)`, closing any open contour and starting a
/// new one at the updated position.
fn vm_move_to<B: OutlineBuilder>(vm: &mut Vm, builder: &mut B, dx: i32, dy: i32)
    requires
        old(vm).wf(),
        in_coord_range(dx as int),
        in_coord_range(dy as int),
    ensures
        final(vm).wf(),
        final(vm).x == spec_cadd(old(vm).x as int, dx as int),
        final(vm).y == spec_cadd(old(vm).y as int, dy as int),
        final(vm).has_moved,
        final(vm).stack@ == old(vm).stack@,
        final(vm).width_parsed == old(vm).width_parsed,
        final(vm).end_reached == old(vm).end_reached,
        old(builder).emitted().is_prefix_of(final(builder).emitted()),
        final(vm).bbox.any,
        final(builder).emitted() == (if old(vm).has_moved {
            old(builder).emitted().push(OutlineEvent::Close)
        } else {
            old(builder).emitted()
        }).push(
            (OutlineEvent::MoveTo {
                x: spec_cadd(old(vm).x as int, dx as int) as i32,
                y: spec_cadd(old(vm).y as int, dy as int) as i32,
            }),
        ),
{
    if vm.has_moved {
        builder.close();
    }
    vm.x = cadd(vm.x, dx);
    vm.y = cadd(vm.y, dy);
    vm.grow_bbox(vm.x, vm.y);
    builder.move_to(vm.x, vm.y);
    vm.has_moved = true;
}

/// Draws a line to the pen position moved by `(dx, dy)`.
fn vm_line_to<B: OutlineBuilder>(vm: &mut Vm, builder: &mut B, dx: i32, dy: i32)
    requires
        old(vm).wf(),
        in_coord_range(dx as int),
        in_coord_range(dy as int),
    ensures
        final(vm).wf(),
        final(vm).x == spec_cadd(old(vm).x as int, dx as int),
        final(vm).y == spec_cadd(old(vm).y as int, dy as int),
        final(vm).has_moved == old(vm).has_moved,
        final(vm).stack@ == old(vm).stack@,
        final(vm).width_parsed == old(vm).width_parsed,
        final(vm).end_reached == old(vm).end_reached,
        old(builder).emitted().is_prefix_of(final(builder).emitted()),
        final(vm).bbox.any,
        final(builder).emitted() == old(builder).emitted().push(
            (OutlineEvent::LineTo {
                x: spec_cadd(old(vm).x as int, dx as int) as i32,
                y: spec_cadd(old(vm).y as int, dy as int) as i32,
            }),
        ),
{
    vm.x = cadd(vm.x, dx);
    vm.y = cadd(vm.y, dy);
    vm.grow_bbox(vm.x, vm.y);
    builder.line_to(vm.x, vm.y);
}

/// Draws a cubic segment from relative control and end offsets.
fn vm_curve_to<B: OutlineBuilder>(
    vm: &mut Vm,
    builder: &mut B,
    dx1: i32,
    dy1: i32,
    dx2: i32,
    dy2: i32,
    dx3: i32,
    dy3: i32,
)
    requires
        old(vm).wf(),
        in_coord_range(dx1 as int),
        in_coord_range(dy1 as int),
        in_coord_range(dx2 as int),
        in_coord_range(dy2 as int),
        in_coord_range(dx3 as int),
        in_coord_range(dy3 as int),
    ensures
        final(vm).wf(),
        final(vm).has_moved == old(vm).has_moved,
        final(vm).stack@ == old(vm).stack@,
        final(vm).width_parsed == old(vm).width_parsed,
        final(vm).end_reached == old(vm).end_reached,
        old(builder).emitted().is_prefix_of(final(builder).emitted()),
        final(vm).bbox.any,
        final(vm).x == spec_cadd(
            spec_cadd(spec_cadd(old(vm).x as int, dx1 as int), dx2 as int),
            dx3 as int,
        ),
        final(vm).y == spec_cadd(
            spec_cadd(spec_cadd(old(vm).y as int, dy1 as int), dy2 as int),
            dy3 as int,
        ),
        final(builder).emitted() == old(builder).emitted().push(
            (OutlineEvent::CurveTo {
                x1: spec_cadd(old(vm).x as int, dx1 as int) as i32,
                y1: spec_cadd(old(vm).y as int, dy1 as int) as i32,
                x2: spec_cadd(spec_cadd(old(vm).x as int, dx1 as int), dx2 as int) as i32,
                y2: spec_cadd(spec_cadd(old(vm).y as int, dy1 as int), dy2 as int) as i32,
                x: final(vm).x as i32,
                y: final(vm).y as i32,
            }),
        ),
{
    let x1 = cadd(vm.x, dx1);
    let y1 = cadd(vm.y, dy1);
    let x2 = cadd(x1, dx2);
    let y2 = cadd(y1, dy2);
    vm.x = cadd(x2, dx3);
    vm.y = cadd(y2, dy3);
    vm.grow_bbox(x1, y1);
    vm.grow_bbox(x2, y2);
    vm.grow_bbox(vm.x, vm.y);
    builder.curve_to(x1, y1, x2, y2, vm.x, vm.y);
}

/// The whole-unit part of a 16.16 fixed-point operand, truncated toward
/// negative infinity.
fn fixed_to_int(w: i32) -> (r: i32)
    ensures
        r == (w as int) / 65536,
        -32768 <= r <= 32767,
{
    if w >= 0 {
        ((w as u32) / 65536) as i32
    } else {
        let m = (-(w as i64)) as u64;
        let q = m / 65536;
        let rem = m % 65536;
        proof {
            crate::coords::lemma_neg_div(m as int, 65536);
        }
        if rem == 0 {
            (-(q as i64)) as i32
        } else {
            (-(q as i64) - 1) as i32
        }
    }
}

/// The subroutine-index bias of the specification: small indexes are
/// addressed relative to -107, larger ones to -1131 or -32768.
pub fn subr_bias(count: u16) -> (r: i32)
    ensures
        r == if count < 1240 {
            107int
        } else if count < 33900 {
            1131int
        } else {
            32768int
        },
{
    if count < 1240 {
        107
    } else if count < 33900 {
        1131
    } else {
        32768
    }
}

/// Everything a charstring execution reads besides its own program: the
/// table bytes and the three parsed index structures.
struct ExecCtx<'a> {
    data: &'a [u8],
    charstrings: IndexRef,
    global_subrs: IndexRef,
    local_subrs: Option<IndexRef>,
}

impl<'a> ExecCtx<'a> {
    spec fn wf(&self) -> bool {
        &&& self.charstrings.wf(self.data@.len() as int)
        &&& self.global_subrs.wf(self.data@.len() as int)
        &&& self.local_subrs matches Some(idx) ==> idx.wf(self.data@.len() as int)
    }
}

/// Executes one charstring program, one operand or operator per step.
/// `depth` counts the enclosing subroutine calls; it is bounded by
/// [`MAX_CALL_DEPTH`], so a self-referential subroutine fails with a
/// typed error instead of growing without bound.
#[verifier::rlimit(100)]
fn exec_charstring<'a, B: OutlineBuilder>(
    ctx: &ExecCtx<'a>,
    program: &[u8],
    depth: u8,
    vm: &mut Vm,
    builder: &mut B,
) -> (r: Result<(), CFFError>)
    requires
        ctx.wf(),
        old(vm).wf(),
        depth <= MAX_CALL_DEPTH,
    ensures
        final(vm).wf(),
        old(builder).emitted().is_prefix_of(final(builder).emitted()),
        old(vm).bbox.any ==> final(vm).bbox.any,
        !final(vm).bbox.any ==> final(builder).emitted() == old(builder).emitted(),
    decreases MAX_CALL_DEPTH - depth, 1nat,
{
    proof {
        assert(program.len() == program@.len());
    }
    let mut pos: usize = 0;
    while pos < program.len()
        invariant
            ctx.wf(),
            vm.wf(),
            depth <= MAX_CALL_DEPTH,
            pos <= program@.len(),
            old(builder).emitted().is_prefix_of(builder.emitted()),
            old(vm).bbox.any ==> vm.bbox.any,
            !vm.bbox.any ==> builder.emitted() == old(builder).emitted(),
        decreases program@.len() - pos,
    {
        let b0 = read_u8_at(program, pos);
        pos = pos + 1;
        if b0 >= 32 || b0 == 28 {
            // An operand.
            let v: i32 = if b0 == 28 {
                if program.len() - pos < 2 {
                    return Err(CFFError::ReadOutOfBounds);
                }
                let w = crate::parser::read_i16_at(program, pos);
                pos = pos + 2;
                w as i32
            } else if b0 <= 246 {
                b0 as i32 - 139
            } else if b0 <= 250 {
                if pos >= program.len() {
                    return Err(CFFError::ReadOutOfBounds);
                }
                let b1 = read_u8_at(program, pos);
                pos = pos + 1;
                (b0 as i32 - 247) * 256 + b1 as i32 + 108
            } else if b0 <= 254 {
                if pos >= program.len() {
                    return Err(CFFError::ReadOutOfBounds);
                }
                let b1 = read_u8_at(program, pos);
                pos = pos + 1;
                -(b0 as i32 - 251) * 256 - (b1 as i32) - 108
            } else {
                // A 16.16 fixed-point operand, truncated toward
                // negative infinity into whole design units.
                if program.len() - pos < 4 {
                    return Err(CFFError::ReadOutOfBounds);
                }
                let w = crate::parser::read_u32_at(program, pos) as i32;
                pos = pos + 4;
                fixed_to_int(w)
            };
            match vm.push(v) {
                Ok(()) => {},
                Err(e) => {
                    return Err(e);
                },
            }
        } else if b0 == 1 || b0 == 3 || b0 == 18 || b0 == 23 {
            // Stem-definition operators: count the hints, apply the
            // width rule, clear the stack.
            op_stems(vm);
        } else if b0 == 19 || b0 == 20 {
            // Mask operators: implicit stems, then a hint bitmask of
            // ceil(stems / 8) bytes follows in the program.
            op_stems(vm);
            let mask_len = ((vm.stems as u64 + 7) / 8) as usize;
            if program.len() - pos < mask_len {
                return Err(CFFError::ReadOutOfBounds);
            }
            pos = pos + mask_len;
        } else if b0 == 21 {
            // rmoveto
            match op_rmoveto(vm, builder) {
                Ok(()) => {},
                Err(e) => {
                    return Err(e);
                },
            }
        } else if b0 == 22 {
            // hmoveto
            let base = width_args_start(vm.stack.len(), 1, vm.width_parsed);
            vm.width_parsed = true;
            if vm.stack.len() != base + 1 {
                return Err(CFFError::StackUnderflow);
            }
            let dx = vm.stack[base];
            vm_move_to(vm, builder, dx, 0);
            vm.stack.clear();
        } else if b0 == 4 {
            // vmoveto
            let base = width_args_start(vm.stack.len(), 1, vm.width_parsed);
            vm.width_parsed = true;
            if vm.stack.len() != base + 1 {
                return Err(CFFError::StackUnderflow);
            }
            let dy = vm.stack[base];
            vm_move_to(vm, builder, 0, dy);
            vm.stack.clear();
        } else if b0 == 5 {
            // rlineto
            match op_rlineto(vm, builder) {
                Ok(()) => {},
                Err(e) => {
                    return Err(e);
                },
            }
        } else if b0 == 6 || b0 == 7 {
            // hlineto / vlineto: alternating single deltas.
            match op_alt_lineto(vm, builder, b0 == 6) {
                Ok(()) => {},
                Err(e) => {
                    return Err(e);
                },
            }
        } else if b0 == 8 {
            // rrcurveto
            match op_rrcurveto(vm, builder) {
                Ok(()) => {},
                Err(e) => {
                    return Err(e);
                },
            }
        } else if b0 == 24 {
            // rcurveline
            match op_rcurveline(vm, builder) {
                Ok(()) => {},
                Err(e) => {
                    return Err(e);
                },
            }
        } else if b0 == 25 {
            // rlinecurve
            match op_rlinecurve(vm, builder) {
                Ok(()) => {},
                Err(e) => {
                    return Err(e);
                },
            }
        } else if b0 == 26 || b0 == 27 {
            // vvcurveto / hhcurveto
            match op_axis_curveto(vm, builder, b0 == 27) {
                Ok(()) => {},
                Err(e) => {
                    return Err(e);
                },
            }
        } else if b0 == 30 || b0 == 31 {
            // vhcurveto / hvcurveto
            match op_alt_curveto(vm, builder, b0 == 31) {
                Ok(()) => {},
                Err(e) => {
                    return Err(e);
                },
            }
        } else if b0 == 10 || b0 == 29 {
            // callsubr / callgsubr
            match op_call_subr(ctx, b0 == 10, depth, vm, builder) {
                Ok(()) => {},
                Err(e) => {
                    return Err(e);
                },
            }
            if vm.end_reached {
                return Ok(());
            }
        } else if b0 == 11 {
            // return
            return Ok(());
        } else if b0 == 14 {
            // endchar: the terminal operator; four extra operands denote
            // legacy accent composition.
            let base = width_args_start(vm.stack.len(), 0, vm.width_parsed);
            let base4 = width_args_start(vm.stack.len(), 4, vm.width_parsed);
            vm.width_parsed = true;
            if vm.stack.len() == base4 + 4 {
                if depth >= MAX_CALL_DEPTH {
                    return Err(CFFError::NestingLimitReached);
                }
                let adx = vm.stack[base4];
                let ady = vm.stack[base4 + 1];
                let bchar = vm.stack[base4 + 2];
                let achar = vm.stack[base4 + 3];
                vm.stack.clear();
                match exec_seac(ctx, adx, ady, bchar, achar, depth, vm, builder) {
                    Ok(()) => {},
                    Err(e) => {
                        return Err(e);
                    },
                }
            } else if vm.stack.len() != base {
                return Err(CFFError::StackUnderflow);
            }
            vm.stack.clear();
            if vm.has_moved {
                builder.close();
                vm.has_moved = false;
            }
            vm.end_reached = true;
            return Ok(());
        } else if b0 == 12 {
            if pos >= program.len() {
                return Err(CFFError::ReadOutOfBounds);
            }
            let b1 = read_u8_at(program, pos);
            pos = pos + 1;
            match op_escape(vm, builder, b1) {
                Ok(()) => {},
                Err(e) => {
                    return Err(e);
                },
            }
        } else {
            // 0, 2, 9, 13, 15, 16, 17: reserved.
            return Err(CFFError::InvalidOperator);
        }
    }
    Ok(())
}

/// Legacy accent composition: interprets a base and an accent charstring,
/// the accent shifted by the operands' offset.  The character codes are
/// used as charstring indices.
fn exec_seac<'a, B: OutlineBuilder>(
    ctx: &ExecCtx<'a>,
    adx: i32,
    ady: i32,
    bchar: i32,
    achar: i32,
    depth: u8,
    vm: &mut Vm,
    builder: &mut B,
) -> (r: Result<(), CFFError>)
    requires
        ctx.wf(),
        old(vm).wf(),
        in_coord_range(adx as int),
        in_coord_range(ady as int),
        depth < MAX_CALL_DEPTH,
    ensures
        final(vm).wf(),
        old(builder).emitted().is_prefix_of(final(builder).emitted()),
        old(vm).bbox.any ==> final(vm).bbox.any,
        !final(vm).bbox.any ==> final(builder).emitted() == old(builder).emitted(),
    decreases MAX_CALL_DEPTH - depth, 0nat,
{
    if bchar < 0 || bchar >= ctx.charstrings.count as i32 || achar < 0 || achar
        >= ctx.charstrings.count as i32 {
        return Err(CFFError::InvalidSubroutineIndex);
    }
    let base_prog = match index_get(ctx.data, &ctx.charstrings, bchar as u16) {
        Ok(s) => s,
        Err(e) => {
            return Err(e);
        },
    };
    let accent_prog = match index_get(ctx.data, &ctx.charstrings, achar as u16) {
        Ok(s) => s,
        Err(e) => {
            return Err(e);
        },
    };
    match exec_charstring(ctx, base_prog, depth + 1, vm, builder) {
        Ok(()) => {},
        Err(e) => {
            return Err(e);
        },
    }
    if vm.has_moved {
        builder.close();
        vm.has_moved = false;
    }
    // The accent is drawn from the composition offset.
    vm.x = adx;
    vm.y = ady;
    vm.end_reached = false;
    vm.width_parsed = true;
    match exec_charstring(ctx, accent_prog, depth + 1, vm, builder) {
        Ok(()) => {},
        Err(e) => {
            return Err(e);
        },
    }
    if vm.has_moved {
        builder.close();
        vm.has_moved = false;
    }
    Ok(())
}

/// A local or global subroutine call: pops the bias-adjusted index,
/// resolves it in the corresponding index structure, and executes the
/// subroutine one level deeper.  A call attempted at the bounded call
/// depth fails with the nesting-limit error before anything runs, so a
/// self-referential subroutine ends in that typed error, never in
/// unbounded growth.
fn op_call_subr<'a, B: OutlineBuilder>(
    ctx: &ExecCtx<'a>,
    local: bool,
    depth: u8,
    vm: &mut Vm,
    builder: &mut B,
) -> (r: Result<(), CFFError>)
    requires
        ctx.wf(),
        old(vm).wf(),
        depth <= MAX_CALL_DEPTH,
    ensures
        final(vm).wf(),
        old(builder).emitted().is_prefix_of(final(builder).emitted()),
        old(vm).bbox.any ==> final(vm).bbox.any,
        !final(vm).bbox.any ==> final(builder).emitted() == old(builder).emitted(),
        depth >= MAX_CALL_DEPTH ==> r == Err::<(), CFFError>(CFFError::NestingLimitReached)
            && *final(vm) == *old(vm) && final(builder).emitted() == old(builder).emitted(),
    decreases MAX_CALL_DEPTH - depth, 0nat,
{
    if depth >= MAX_CALL_DEPTH {
        return Err(CFFError::NestingLimitReached);
    }
    let subrs: &IndexRef = if local {
        match &ctx.local_subrs {
            Some(idx) => idx,
            None => {
                return Err(CFFError::InvalidSubroutineIndex);
            },
        }
    } else {
        &ctx.global_subrs
    };
    let operand = match vm.stack.pop() {
        Some(v) => v,
        None => {
            return Err(CFFError::StackUnderflow);
        },
    };
    let bias = subr_bias(subrs.count);
    let idx_wide: i64 = operand as i64 + bias as i64;
    if idx_wide < 0 || idx_wide >= subrs.count as i64 {
        return Err(CFFError::InvalidSubroutineIndex);
    }
    let subr = match index_get(ctx.data, subrs, idx_wide as u16) {
        Ok(s) => s,
        Err(e) => {
            return Err(e);
        },
    };
    exec_charstring(ctx, subr, depth + 1, vm, builder)
}

/// `rmoveto`: closes any open contour and starts a new one at the pen
/// moved by the two geometric operands.  The operands start where the
/// width rule says: when the stack carries one extra leading operand and
/// no width has been consumed yet, that leading operand is the
/// advance-width override — it is discarded and never becomes a
/// coordinate.
fn op_rmoveto<B: OutlineBuilder>(vm: &mut Vm, builder: &mut B) -> (r: Result<(), CFFError>)
    requires
        old(vm).wf(),
    ensures
        final(vm).wf(),
        old(builder).emitted().is_prefix_of(final(builder).emitted()),
        old(vm).bbox.any ==> final(vm).bbox.any,
        !final(vm).bbox.any ==> final(builder).emitted() == old(builder).emitted(),
        final(vm).width_parsed,
        match r {
            Ok(()) => old(vm).stack@.len() == spec_width_args_start(
                old(vm).stack@.len() as int,
                2,
                old(vm).width_parsed,
            ) + 2 && final(vm).stack@.len() == 0 && final(vm).has_moved && final(vm).x
                == spec_cadd(
                old(vm).x as int,
                old(vm).stack@[spec_width_args_start(
                    old(vm).stack@.len() as int,
                    2,
                    old(vm).width_parsed,
                )] as int,
            ) && final(vm).y == spec_cadd(
                old(vm).y as int,
                old(vm).stack@[spec_width_args_start(
                    old(vm).stack@.len() as int,
                    2,
                    old(vm).width_parsed,
                ) + 1] as int,
            ) && final(builder).emitted() == (if old(vm).has_moved {
                old(builder).emitted().push(OutlineEvent::Close)
            } else {
                old(builder).emitted()
            }).push((OutlineEvent::MoveTo { x: final(vm).x, y: final(vm).y })),
            Err(e) => e == CFFError::StackUnderflow && final(vm).stack@ == old(vm).stack@
                && final(builder).emitted() == old(builder).emitted(),
        },
{
    let base = width_args_start(vm.stack.len(), 2, vm.width_parsed);
    vm.width_parsed = true;
    if vm.stack.len() != base + 2 {
        return Err(CFFError::StackUnderflow);
    }
    let dx = vm.stack[base];
    let dy = vm.stack[base + 1];
    vm_move_to(vm, builder, dx, dy);
    vm.stack.clear();
    Ok(())
}

/// Stem-definition operators: each pair of operands defines one stem
/// hint; an odd leading operand is the width (the width rule).
fn op_stems(vm: &mut Vm)
    requires
        old(vm).wf(),
    ensures
        final(vm).wf(),
        final(vm).stack@.len() == 0,
        final(vm).width_parsed,
        final(vm).has_moved == old(vm).has_moved,
        final(vm).end_reached == old(vm).end_reached,
        final(vm).x == old(vm).x && final(vm).y == old(vm).y,
        final(vm).bbox == old(vm).bbox,
{
    let pairs = (vm.stack.len() / 2) as u32;
    if vm.stems <= 0xFFFF {
        vm.stems = vm.stems + pairs;
    }
    vm.width_parsed = true;
    vm.stack.clear();
}

/// `rlineto`: consumes operand pairs, emitting a line for each.
fn op_rlineto<B: OutlineBuilder>(vm: &mut Vm, builder: &mut B) -> (r: Result<(), CFFError>)
    requires
        old(vm).wf(),
    ensures
        final(vm).wf(),
        old(builder).emitted().is_prefix_of(final(builder).emitted()),
        old(vm).bbox.any ==> final(vm).bbox.any,
        !final(vm).bbox.any ==> final(builder).emitted() == old(builder).emitted(),
    {
    if vm.stack.len() < 2 || vm.stack.len() % 2 != 0 {
        return Err(CFFError::StackUnderflow);
    }
    let mut i: usize = 0;
    let n = vm.stack.len();
    while i + 1 < n
        invariant
            vm.wf(),
            vm.stack@.len() == n,
            i <= n,
            old(builder).emitted().is_prefix_of(builder.emitted()),
            old(vm).bbox.any ==> vm.bbox.any,
            !vm.bbox.any ==> builder.emitted() == old(builder).emitted(),
        decreases n - i,
    {
        let dx = vm.stack[i];
        let dy = vm.stack[i + 1];
        vm_line_to(vm, builder, dx, dy);
        i = i + 2;
    }
    vm.stack.clear();
    Ok(())
}

/// `hlineto`/`vlineto`: alternating single deltas, starting on the
/// horizontal (or vertical) axis.
fn op_alt_lineto<B: OutlineBuilder>(vm: &mut Vm, builder: &mut B, start_horizontal: bool) -> (r:
    Result<(), CFFError>)
    requires
        old(vm).wf(),
    ensures
        final(vm).wf(),
        old(builder).emitted().is_prefix_of(final(builder).emitted()),
        old(vm).bbox.any ==> final(vm).bbox.any,
        !final(vm).bbox.any ==> final(builder).emitted() == old(builder).emitted(),
{
    if vm.stack.len() == 0 {
        return Err(CFFError::StackUnderflow);
    }
    let mut i: usize = 0;
    let mut horizontal = start_horizontal;
    let n = vm.stack.len();
    while i < n
        invariant
            vm.wf(),
            vm.stack@.len() == n,
            old(builder).emitted().is_prefix_of(builder.emitted()),
            old(vm).bbox.any ==> vm.bbox.any,
            !vm.bbox.any ==> builder.emitted() == old(builder).emitted(),
        decreases n - i,
    {
        let d = vm.stack[i];
        if horizontal {
            vm_line_to(vm, builder, d, 0);
        } else {
            vm_line_to(vm, builder, 0, d);
        }
        horizontal = !horizontal;
        i = i + 1;
    }
    vm.stack.clear();
    Ok(())
}

/// `rrcurveto`: consumes operand six-tuples, emitting a cubic for each.
fn op_rrcurveto<B: OutlineBuilder>(vm: &mut Vm, builder: &mut B) -> (r: Result<(), CFFError>)
    requires
        old(vm).wf(),
    ensures
        final(vm).wf(),
        old(builder).emitted().is_prefix_of(final(builder).emitted()),
        old(vm).bbox.any ==> final(vm).bbox.any,
        !final(vm).bbox.any ==> final(builder).emitted() == old(builder).emitted(),
{
    if vm.stack.len() < 6 || vm.stack.len() % 6 != 0 {
        return Err(CFFError::StackUnderflow);
    }
    let n = vm.stack.len();
    let mut i: usize = 0;
    while i + 5 < n
        invariant
            vm.wf(),
            vm.stack@.len() == n,
            i <= n,
            old(builder).emitted().is_prefix_of(builder.emitted()),
            old(vm).bbox.any ==> vm.bbox.any,
            !vm.bbox.any ==> builder.emitted() == old(builder).emitted(),
        decreases n - i,
    {
        let d1 = vm.stack[i];
        let d2 = vm.stack[i + 1];
        let d3 = vm.stack[i + 2];
        let d4 = vm.stack[i + 3];
        let d5 = vm.stack[i + 4];
        let d6 = vm.stack[i + 5];
        vm_curve_to(vm, builder, d1, d2, d3, d4, d5, d6);
        i = i + 6;
    }
    vm.stack.clear();
    Ok(())
}

/// `rcurveline`: cubics, then one final line from the last pair.
fn op_rcurveline<B: OutlineBuilder>(vm: &mut Vm, builder: &mut B) -> (r: Result<(), CFFError>)
    requires
        old(vm).wf(),
    ensures
        final(vm).wf(),
        old(builder).emitted().is_prefix_of(final(builder).emitted()),
        old(vm).bbox.any ==> final(vm).bbox.any,
        !final(vm).bbox.any ==> final(builder).emitted() == old(builder).emitted(),
{
    if vm.stack.len() < 8 || (vm.stack.len() - 2) % 6 != 0 {
        return Err(CFFError::StackUnderflow);
    }
    let n = vm.stack.len();
    let mut i: usize = 0;
    while i + 5 < n - 2
        invariant
            vm.wf(),
            vm.stack@.len() == n,
            n >= 8,
            i <= n,
            old(builder).emitted().is_prefix_of(builder.emitted()),
            old(vm).bbox.any ==> vm.bbox.any,
            !vm.bbox.any ==> builder.emitted() == old(builder).emitted(),
        decreases n - i,
    {
        let d1 = vm.stack[i];
        let d2 = vm.stack[i + 1];
        let d3 = vm.stack[i + 2];
        let d4 = vm.stack[i + 3];
        let d5 = vm.stack[i + 4];
        let d6 = vm.stack[i + 5];
        vm_curve_to(vm, builder, d1, d2, d3, d4, d5, d6);
        i = i + 6;
    }
    let dx = vm.stack[n - 2];
    let dy = vm.stack[n - 1];
    vm_line_to(vm, builder, dx, dy);
    vm.stack.clear();
    Ok(())
}

/// `rlinecurve`: lines, then one final cubic from the last six.
fn op_rlinecurve<B: OutlineBuilder>(vm: &mut Vm, builder: &mut B) -> (r: Result<(), CFFError>)
    requires
        old(vm).wf(),
    ensures
        final(vm).wf(),
        old(builder).emitted().is_prefix_of(final(builder).emitted()),
        old(vm).bbox.any ==> final(vm).bbox.any,
        !final(vm).bbox.any ==> final(builder).emitted() == old(builder).emitted(),
{
    if vm.stack.len() < 8 || (vm.stack.len() - 6) % 2 != 0 {
        return Err(CFFError::StackUnderflow);
    }
    let n = vm.stack.len();
    let mut i: usize = 0;
    while i + 1 < n - 6
        invariant
            vm.wf(),
            vm.stack@.len() == n,
            n >= 8,
            i <= n,
            old(builder).emitted().is_prefix_of(builder.emitted()),
            old(vm).bbox.any ==> vm.bbox.any,
            !vm.bbox.any ==> builder.emitted() == old(builder).emitted(),
        decreases n - i,
    {
        let dx = vm.stack[i];
        let dy = vm.stack[i + 1];
        vm_line_to(vm, builder, dx, dy);
        i = i + 2;
    }
    let d1 = vm.stack[n - 6];
    let d2 = vm.stack[n - 5];
    let d3 = vm.stack[n - 4];
    let d4 = vm.stack[n - 3];
    let d5 = vm.stack[n - 2];
    let d6 = vm.stack[n - 1];
    vm_curve_to(vm, builder, d1, d2, d3, d4, d5, d6);
    vm.stack.clear();
    Ok(())
}

/// `vvcurveto`/`hhcurveto`: curve four-tuples along one axis, with an
/// optional leading cross-axis delta on the first curve.
fn op_axis_curveto<B: OutlineBuilder>(vm: &mut Vm, builder: &mut B, horizontal: bool) -> (r: Result<
    (),
    CFFError,
>)
    requires
        old(vm).wf(),
    ensures
        final(vm).wf(),
        old(builder).emitted().is_prefix_of(final(builder).emitted()),
        old(vm).bbox.any ==> final(vm).bbox.any,
        !final(vm).bbox.any ==> final(builder).emitted() == old(builder).emitted(),
{
    if vm.stack.len() < 4 || vm.stack.len() % 4 > 1 {
        return Err(CFFError::StackUnderflow);
    }
    let n = vm.stack.len();
    let mut i: usize = 0;
    let mut cross: i32 = 0;
    if n % 4 == 1 {
        cross = vm.stack[0];
        i = 1;
    }
    while i + 3 < n
        invariant
            vm.wf(),
            vm.stack@.len() == n,
            i <= n,
            in_coord_range(cross as int),
            old(builder).emitted().is_prefix_of(builder.emitted()),
            old(vm).bbox.any ==> vm.bbox.any,
            !vm.bbox.any ==> builder.emitted() == old(builder).emitted(),
        decreases n - i,
    {
        let da = vm.stack[i];
        let db1 = vm.stack[i + 1];
        let db2 = vm.stack[i + 2];
        let dc = vm.stack[i + 3];
        if horizontal {
            // hhcurveto: dy1? {dxa dxb dyb dxc}+
            vm_curve_to(vm, builder, da, cross, db1, db2, dc, 0);
        } else {
            // vvcurveto: dx1? {dya dxb dyb dyc}+
            vm_curve_to(vm, builder, cross, da, db1, db2, 0, dc);
        }
        cross = 0;
        i = i + 4;
    }
    vm.stack.clear();
    Ok(())
}

/// `vhcurveto`/`hvcurveto`: curve four-tuples whose start and end
/// tangents alternate between the axes; the last curve may carry one
/// extra operand for its final cross component.
fn op_alt_curveto<B: OutlineBuilder>(vm: &mut Vm, builder: &mut B, start_horizontal: bool) -> (r:
    Result<(), CFFError>)
    requires
        old(vm).wf(),
    ensures
        final(vm).wf(),
        old(builder).emitted().is_prefix_of(final(builder).emitted()),
        old(vm).bbox.any ==> final(vm).bbox.any,
        !final(vm).bbox.any ==> final(builder).emitted() == old(builder).emitted(),
{
    if vm.stack.len() < 4 || vm.stack.len() % 4 > 1 {
        return Err(CFFError::StackUnderflow);
    }
    let n = vm.stack.len();
    let mut i: usize = 0;
    let mut horizontal = start_horizontal;
    while i + 3 < n
        invariant
            vm.wf(),
            vm.stack@.len() == n,
            i <= n,
            old(builder).emitted().is_prefix_of(builder.emitted()),
            old(vm).bbox.any ==> vm.bbox.any,
            !vm.bbox.any ==> builder.emitted() == old(builder).emitted(),
        decreases n - i,
    {
        let d1 = vm.stack[i];
        let d2 = vm.stack[i + 1];
        let d3 = vm.stack[i + 2];
        let d4 = vm.stack[i + 3];
        // A ninth-and-last operand gives the final cross component.
        let last: i32 = if i + 5 == n {
            vm.stack[i + 4]
        } else {
            0
        };
        if horizontal {
            // {dxa dxb dyb dyc (dxf)}
            vm_curve_to(vm, builder, d1, 0, d2, d3, last, d4);
        } else {
            // {dya dxb dyb dxc (dyf)}
            vm_curve_to(vm, builder, 0, d1, d2, d3, d4, last);
        }
        horizontal = !horizontal;
        i = i + 4;
    }
    vm.stack.clear();
    Ok(())
}

/// Escaped (two-byte) operators: the flex family emits its cubic pairs;
/// the stack-manipulation and simple arithmetic operators act on the
/// stack alone; anything else is an unrecognized operator.
fn op_escape<B: OutlineBuilder>(vm: &mut Vm, builder: &mut B, b1: u8) -> (r: Result<(), CFFError>)
    requires
        old(vm).wf(),
    ensures
        final(vm).wf(),
        old(builder).emitted().is_prefix_of(final(builder).emitted()),
        old(vm).bbox.any ==> final(vm).bbox.any,
        !final(vm).bbox.any ==> final(builder).emitted() == old(builder).emitted(),
{
    if b1 == 35 {
        // flex: two cubics from 13 operands (the fd operand is unused).
        if vm.stack.len() != 13 {
            return Err(CFFError::StackUnderflow);
        }
        let d1 = vm.stack[0];
        let d2 = vm.stack[1];
        let d3 = vm.stack[2];
        let d4 = vm.stack[3];
        let d5 = vm.stack[4];
        let d6 = vm.stack[5];
        vm_curve_to(vm, builder, d1, d2, d3, d4, d5, d6);
        let e1 = vm.stack[6];
        let e2 = vm.stack[7];
        let e3 = vm.stack[8];
        let e4 = vm.stack[9];
        let e5 = vm.stack[10];
        let e6 = vm.stack[11];
        vm_curve_to(vm, builder, e1, e2, e3, e4, e5, e6);
        vm.stack.clear();
        Ok(())
    } else if b1 == 34 {
        // hflex: two horizontal cubics from 7 operands.
        if vm.stack.len() != 7 {
            return Err(CFFError::StackUnderflow);
        }
        let dx1 = vm.stack[0];
        let dx2 = vm.stack[1];
        let dy2 = vm.stack[2];
        let dx3 = vm.stack[3];
        let dx4 = vm.stack[4];
        let dx5 = vm.stack[5];
        let dx6 = vm.stack[6];
        let neg_dy2 = cadd(0, dy2);
        vm_curve_to(vm, builder, dx1, 0, dx2, dy2, dx3, 0);
        vm_curve_to(vm, builder, dx4, 0, dx5, 0 - neg_dy2, dx6, 0);
        vm.stack.clear();
        Ok(())
    } else if b1 == 36 {
        // hflex1: 9 operands.
        if vm.stack.len() != 9 {
            return Err(CFFError::StackUnderflow);
        }
        let dx1 = vm.stack[0];
        let dy1 = vm.stack[1];
        let dx2 = vm.stack[2];
        let dy2 = vm.stack[3];
        let dx3 = vm.stack[4];
        let dx4 = vm.stack[5];
        let dx5 = vm.stack[6];
        let dy5 = vm.stack[7];
        let dx6 = vm.stack[8];
        let dy_back = cadd(cadd(cadd(dy1, dy2), 0), dy5);
        vm_curve_to(vm, builder, dx1, dy1, dx2, dy2, dx3, 0);
        vm_curve_to(vm, builder, dx4, 0, dx5, dy5, dx6, 0 - dy_back);
        vm.stack.clear();
        Ok(())
    } else if b1 == 37 {
        // flex1: 11 operands; the final delta returns to the start
        // elevation on the dominant axis.
        if vm.stack.len() != 11 {
            return Err(CFFError::StackUnderflow);
        }
        let dx1 = vm.stack[0];
        let dy1 = vm.stack[1];
        let dx2 = vm.stack[2];
        let dy2 = vm.stack[3];
        let dx3 = vm.stack[4];
        let dy3 = vm.stack[5];
        let dx4 = vm.stack[6];
        let dy4 = vm.stack[7];
        let dx5 = vm.stack[8];
        let dy5 = vm.stack[9];
        let d6 = vm.stack[10];
        let dx_sum = cadd(cadd(cadd(cadd(dx1, dx2), dx3), dx4), dx5);
        let dy_sum = cadd(cadd(cadd(cadd(dy1, dy2), dy3), dy4), dy5);
        vm_curve_to(vm, builder, dx1, dy1, dx2, dy2, dx3, dy3);
        // The dominant axis takes the explicit operand; the other
        // returns to the starting coordinate.
        if abs_ge(dx_sum, dy_sum) {
            vm_curve_to(vm, builder, dx4, dy4, dx5, dy5, d6, 0 - dy_sum);
        } else {
            vm_curve_to(vm, builder, dx4, dy4, dx5, dy5, 0 - dx_sum, d6);
        }
        vm.stack.clear();
        Ok(())
    } else if b1 == 18 {
        // drop
        match vm.stack.pop() {
            Some(_) => Ok(()),
            None => Err(CFFError::StackUnderflow),
        }
    } else if b1 == 27 {
        // dup
        if vm.stack.len() == 0 {
            return Err(CFFError::StackUnderflow);
        }
        let v = vm.stack[vm.stack.len() - 1];
        match vm.push(v) {
            Ok(()) => Ok(()),
            Err(e) => Err(e),
        }
    } else if b1 == 28 {
        // exch
        let b = match vm.stack.pop() {
            Some(v) => v,
            None => {
                return Err(CFFError::StackUnderflow);
            },
        };
        let a = match vm.stack.pop() {
            Some(v) => v,
            None => {
                return Err(CFFError::StackUnderflow);
            },
        };
        match vm.push(b) {
            Ok(()) => {},
            Err(e) => {
                return Err(e);
            },
        }
        match vm.push(a) {
            Ok(()) => Ok(()),
            Err(e) => Err(e),
        }
    } else if b1 == 9 {
        // abs
        let v = match vm.stack.pop() {
            Some(v) => v,
            None => {
                return Err(CFFError::StackUnderflow);
            },
        };
        let a = if v < 0 {
            0 - v
        } else {
            v
        };
        match vm.push(a) {
            Ok(()) => Ok(()),
            Err(e) => Err(e),
        }
    } else if b1 == 14 {
        // neg
        let v = match vm.stack.pop() {
            Some(v) => v,
            None => {
                return Err(CFFError::StackUnderflow);
            },
        };
        match vm.push(0 - v) {
            Ok(()) => Ok(()),
            Err(e) => Err(e),
        }
    } else if b1 == 10 || b1 == 11 {
        // add / sub, clamped like every coordinate accumulation.
        let b = match vm.stack.pop() {
            Some(v) => v,
            None => {
                return Err(CFFError::StackUnderflow);
            },
        };
        let a = match vm.stack.pop() {
            Some(v) => v,
            None => {
                return Err(CFFError::StackUnderflow);
            },
        };
        let v = if b1 == 10 {
            cadd(a, b)
        } else {
            cadd(a, 0 - b)
        };
        match vm.push(v) {
            Ok(()) => Ok(()),
            Err(e) => Err(e),
        }
    } else {
        Err(CFFError::InvalidOperator)
    }
}

/// Whether `|a| >= |b|`.
fn abs_ge(a: i32, b: i32) -> (r: bool)
    requires
        in_coord_range(a as int),
        in_coord_range(b as int),
{
    let aa: i32 = if a < 0 {
        0 - a
    } else {
        a
    };
    let bb: i32 = if b < 0 {
        0 - b
    } else {
        b
    };
    aa >= bb
}

/// Saturates an accumulated coordinate into the 16-bit design-unit range
/// of a bounding-box field.
fn coord_to_i16(v: i32) -> (r: i16)
    ensures
        r == if v > 32767 {
            32767i16
        } else if v < -32768 {
            -32768i16
        } else {
            v as i16
        },
{
    if v > 32767 {
        32767
    } else if v < -32768 {
        -32768
    } else {
        v as i16
    }
}

/// Outlines one glyph of the compact outline format: fetches its
/// charstring, executes it against a fresh machine state, and returns the
/// bounding box accumulated from every emitted coordinate.  A glyph whose
/// program emits nothing has no outline.
pub fn outline<B: OutlineBuilder>(
    cff: &[u8],
    metadata: &Metadata,
    glyph_id: u16,
    builder: &mut B,
) -> (r: Result<Rect, Error>)
    ensures
        old(builder).emitted().is_prefix_of(final(builder).emitted()),
        r matches Err(e) ==> e is NoGlyph || e is NoOutline || e is CFFError,
        r matches Ok(rect) ==> rect.x_min <= rect.x_max && rect.y_min <= rect.y_max,
        r == Err::<Rect, Error>(Error::NoGlyph) <==> (spec_parse_index(
            cff@,
            metadata.charstrings_offset as int,
        ) matches Some(cs) && glyph_id >= cs.count),
        r == Err::<Rect, Error>(Error::NoGlyph) || r == Err::<Rect, Error>(Error::NoOutline)
            ==> final(builder).emitted() == old(builder).emitted(),
{
    proof {
        assert(cff.len() == cff@.len());
    }
    let charstrings = match parse_index(cff, metadata.charstrings_offset as usize) {
        Ok(i) => i,
        Err(e) => {
            return Err(Error::CFFError(e));
        },
    };
    if glyph_id >= charstrings.count {
        return Err(Error::NoGlyph);
    }
    let global_subrs = match parse_index(cff, metadata.global_subrs_offset as usize) {
        Ok(i) => i,
        Err(e) => {
            return Err(Error::CFFError(e));
        },
    };
    let local_subrs: Option<IndexRef> = if metadata.has_local_subrs {
        match parse_index(cff, metadata.local_subrs_offset as usize) {
            Ok(i) => Some(i),
            Err(e) => {
                return Err(Error::CFFError(e));
            },
        }
    } else {
        None
    };
    let ctx = ExecCtx { data: cff, charstrings, global_subrs, local_subrs };
    let program = match index_get(cff, &ctx.charstrings, glyph_id) {
        Ok(s) => s,
        Err(e) => {
            return Err(Error::CFFError(e));
        },
    };
    let mut vm = Vm::new();
    match exec_charstring(&ctx, program, 0, &mut vm, builder) {
        Ok(()) => {},
        Err(e) => {
            return Err(Error::CFFError(e));
        },
    }
    if vm.has_moved {
        builder.close();
    }
    if !vm.bbox.any {
        return Err(Error::NoOutline);
    }
    Ok(
        Rect {
            x_min: coord_to_i16(vm.bbox.x_min),
            y_min: coord_to_i16(vm.bbox.y_min),
            x_max: coord_to_i16(vm.bbox.x_max),
            y_max: coord_to_i16(vm.bbox.y_max),
        },
    )
}

} // verus!
