//! A safe, bounds-checked parser for TrueType/OpenType font binaries that
//! extracts glyph vector outlines and basic metadata without copying font
//! data and without faulting on malformed or adversarial input.
//!
//! The core of the library is the outline-extraction subsystem:
//!
//! - a table-directory loader that validates and slices the binary
//!   container ([`Font::from_data`]),
//! - a decoder for the quadratic `glyf`/`loca` outline format, and
//! - a stack-machine interpreter for Type2 charstrings in the compact
//!   (`CFF `) outline format.
//!
//! Both decoders stream outline events to a caller-supplied sink (the
//! [`OutlineBuilder`] trait) and return a bounding box.
//!
//! All coordinates are integers in font design units.  Coordinate
//! arithmetic is clamped to [`coords::COORD_MIN`]`..=`[`coords::COORD_MAX`],
//! a range far wider than any real font uses, so no input can cause an
//! arithmetic fault.  Fractional values that the compact outline format
//! can encode are truncated toward negative infinity when decoded.

use vstd::prelude::*;

pub mod cff;
pub mod coords;
pub mod glyf;
pub mod parser;

use parser::Stream;
use parser::SafeStream;
use parser::be_u16;
use parser::be_u32;
use parser::read_u16_at;
use parser::read_u32_at;
use parser::sat_u32;
use parser::try_slice;
use parser::try_slice_wide;

verus! {

/// A type-safe wrapper for glyph ID.
#[derive(Clone, Copy, PartialEq, Eq, Structural, Debug, PartialOrd, Ord, Hash)]
pub struct GlyphId(pub u16);

impl GlyphId {
    /// Reads a glyph id from a table cursor.
    pub fn parse(s: &mut SafeStream) -> (r: Self)
        requires
            old(s).pos() + 2 <= old(s).bytes().len(),
        ensures
            final(s).bytes() == old(s).bytes(),
            final(s).pos() == old(s).pos() + 2,
            r.0 == be_u16(old(s).bytes(), old(s).pos()),
    {
        GlyphId(s.read_u16())
    }
}

/// A table name.
#[derive(Clone, Copy, PartialEq, Eq, Structural, Debug)]
pub enum TableName {
    CharacterToGlyphIndexMapping,
    CompactFontFormat,
    GlyphData,
    Header,
    HorizontalHeader,
    HorizontalMetrics,
    IndexToLocation,
    Kerning,
    MaximumProfile,
    Naming,
    PostScript,
    VerticalHeader,
    VerticalMetrics,
    WindowsMetrics,
}

/// A charstring interpreter error.
#[derive(Clone, Copy, PartialEq, Eq, Structural, Debug)]
pub enum CFFError {
    /// The operand stack would exceed its capacity.
    StackOverflow,
    /// An operator found fewer (or otherwise unusable) operands than it
    /// needs.
    StackUnderflow,
    /// An unrecognized operator byte.
    InvalidOperator,
    /// A subroutine call's index is out of range.
    InvalidSubroutineIndex,
    /// The bounded subroutine call depth was exceeded.
    NestingLimitReached,
    /// The program (or an index structure around it) is truncated.
    ReadOutOfBounds,
}

/// A font parsing error.
#[derive(Clone, Copy, PartialEq, Eq, Structural, Debug)]
pub enum Error {
    /// Not a TrueType data.
    NotATrueType,
    /// The font index is out of bounds.
    FontIndexOutOfBounds,
    /// One of the required tables is missing.
    TableMissing(TableName),
    /// Table has an invalid size.
    InvalidTableSize(TableName),
    /// Font doesn't have such glyph ID.
    NoGlyph,
    /// Glyph doesn't have an outline.
    NoOutline,
    /// The bounded composite-glyph recursion depth was exceeded.
    RecursionLimitReached,
    /// A compact-outline-table parsing error.
    CFFError(CFFError),
    /// An attempt to slice raw data out of bounds.
    ///
    /// Caused by a malformed font.  Values above `u32::MAX` are reported
    /// saturated, since font offsets are 32-bit.
    SliceOutOfBounds { start: u32, end: u32, data_len: u32 },
}

/// The error returned when a slice `start..end` of a buffer of length
/// `len` is requested but is not in bounds.
pub open spec fn slice_oob_error(start: int, end: int, len: int) -> Error {
    Error::SliceOutOfBounds {
        start: sat_u32(start),
        end: sat_u32(end),
        data_len: sat_u32(len),
    }
}

impl core::convert::From<CFFError> for Error {
    /// Wraps a charstring interpreter error into the general error type.
    fn from(e: CFFError) -> (r: Self) {
        Error::CFFError(e)
    }
}

impl vstd::std_specs::convert::FromSpecImpl<CFFError> for Error {
    open spec fn obeys_from_spec() -> bool {
        true
    }

    open spec fn from_spec(e: CFFError) -> Self {
        Error::CFFError(e)
    }
}

/// A line metrics.
///
/// Used for underline and strikeout.
#[derive(Clone, Copy, PartialEq, Eq, Structural, Debug)]
pub struct LineMetrics {
    /// Line position.
    pub position: i16,
    /// Line thickness.
    pub thickness: i16,
}

/// A horizontal metrics of a glyph.
#[derive(Clone, Copy, PartialEq, Eq, Structural, Debug)]
pub struct HorizontalMetrics {
    /// A horizontal advance.
    pub advance: u16,
    /// Left side bearing.
    pub left_side_bearing: i16,
}

impl HorizontalMetrics {
    /// Reads an advance/side-bearing pair from a metrics table cursor.
    pub fn parse(s: &mut SafeStream) -> (r: Self)
        requires
            old(s).pos() + 4 <= old(s).bytes().len(),
        ensures
            final(s).bytes() == old(s).bytes(),
            final(s).pos() == old(s).pos() + 4,
            r.advance == be_u16(old(s).bytes(), old(s).pos()),
            r.left_side_bearing == parser::be_i16(old(s).bytes(), old(s).pos() + 2),
    {
        let advance = s.read_u16();
        let left_side_bearing = s.read_i16();
        HorizontalMetrics { advance, left_side_bearing }
    }
}

/// A vertical metrics of a glyph.
#[derive(Clone, Copy, PartialEq, Eq, Structural, Debug)]
pub struct VerticalMetrics {
    /// A vertical advance.
    pub advance: u16,
    /// Top side bearing.
    pub top_side_bearing: i16,
}

impl VerticalMetrics {
    /// Reads an advance/side-bearing pair from a metrics table cursor.
    pub fn parse(s: &mut SafeStream) -> (r: Self)
        requires
            old(s).pos() + 4 <= old(s).bytes().len(),
        ensures
            final(s).bytes() == old(s).bytes(),
            final(s).pos() == old(s).pos() + 4,
            r.advance == be_u16(old(s).bytes(), old(s).pos()),
            r.top_side_bearing == parser::be_i16(old(s).bytes(), old(s).pos() + 2),
    {
        let advance = s.read_u16();
        let top_side_bearing = s.read_i16();
        VerticalMetrics { advance, top_side_bearing }
    }
}

/// Rectangle: an axis-aligned bounding box in font design units.
#[derive(Clone, Copy, PartialEq, Eq, Structural, Debug)]
pub struct Rect {
    pub x_min: i16,
    pub y_min: i16,
    pub x_max: i16,
    pub y_max: i16,
}

impl Rect {
    /// The degenerate all-zero rectangle.
    pub fn zero() -> (r: Self)
        ensures
            r == (Rect { x_min: 0i16, y_min: 0i16, x_max: 0i16, y_max: 0i16 }),
    {
        Rect { x_min: 0, y_min: 0, x_max: 0, y_max: 0 }
    }

    /// Reads the four bounding-box fields of a glyph header.
    pub fn parse(s: &mut SafeStream) -> (r: Self)
        requires
            old(s).pos() + 8 <= old(s).bytes().len(),
        ensures
            final(s).bytes() == old(s).bytes(),
            final(s).pos() == old(s).pos() + 8,
            r == spec_rect_at(old(s).bytes(), old(s).pos()),
    {
        let x_min = s.read_i16();
        let y_min = s.read_i16();
        let x_max = s.read_i16();
        let y_max = s.read_i16();
        Rect { x_min, y_min, x_max, y_max }
    }
}

/// The bounding-box record stored at `i` in `s`: four big-endian `i16`s.
pub open spec fn spec_rect_at(s: Seq<u8>, i: int) -> Rect {
    Rect {
        x_min: parser::be_i16(s, i),
        y_min: parser::be_i16(s, i + 2),
        x_max: parser::be_i16(s, i + 4),
        y_max: parser::be_i16(s, i + 6),
    }
}

/// One outline command, as received by an [`OutlineBuilder`].
#[derive(Clone, Copy, PartialEq, Eq, Structural, Debug)]
pub enum OutlineEvent {
    /// Start of a contour.
    MoveTo { x: i32, y: i32 },
    /// A straight segment.
    LineTo { x: i32, y: i32 },
    /// A quadratic segment with one control point.
    QuadTo { x1: i32, y1: i32, x: i32, y: i32 },
    /// A cubic segment with two control points.
    CurveTo { x1: i32, y1: i32, x2: i32, y2: i32, x: i32, y: i32 },
    /// End of a contour.
    Close,
}

/// Prefix order on event sequences is transitive: what was emitted
/// before a decoding step stays a prefix through every later step.
pub broadcast proof fn lemma_prefix_trans<T>(a: Seq<T>, b: Seq<T>, c: Seq<T>)
    requires
        #[trigger] a.is_prefix_of(b),
        #[trigger] b.is_prefix_of(c),
    ensures
        a.is_prefix_of(c),
{
    assert(a =~= c.subrange(0, a.len() as int));
}

/// Any sequence is a prefix of itself extended by one event.
pub broadcast proof fn lemma_prefix_push<T>(a: Seq<T>, x: T)
    ensures
        a.is_prefix_of(#[trigger] a.push(x)),
{
    assert(a =~= a.push(x).subrange(0, a.len() as int));
}

/// A trait for glyph outline construction: a capability interface that
/// both decoders drive, agnostic of the concrete consumer.
///
/// The ghost sequence [`OutlineBuilder::emitted`] abstracts the events an
/// implementation has received; every method appends exactly the event it
/// was called with, so contracts over `emitted` describe precisely which
/// sink methods a decoder invokes, and in which order.
pub trait OutlineBuilder {
    /// The events received so far, oldest first.
    spec fn emitted(&self) -> Seq<OutlineEvent>;

    /// Appends a MoveTo segment: the start of a contour.
    fn move_to(&mut self, x: i32, y: i32)
        ensures
            final(self).emitted() == old(self).emitted().push(OutlineEvent::MoveTo { x, y }),
    ;

    /// Appends a LineTo segment.
    fn line_to(&mut self, x: i32, y: i32)
        ensures
            final(self).emitted() == old(self).emitted().push(OutlineEvent::LineTo { x, y }),
    ;

    /// Appends a QuadTo segment.
    fn quad_to(&mut self, x1: i32, y1: i32, x: i32, y: i32)
        ensures
            final(self).emitted() == old(self).emitted().push(
                OutlineEvent::QuadTo { x1, y1, x, y },
            ),
    ;

    /// Appends a CurveTo segment.
    fn curve_to(&mut self, x1: i32, y1: i32, x2: i32, y2: i32, x: i32, y: i32)
        ensures
            final(self).emitted() == old(self).emitted().push(
                OutlineEvent::CurveTo { x1, y1, x2, y2, x, y },
            ),
    ;

    /// Appends a ClosePath segment: the end of a contour.
    fn close(&mut self)
        ensures
            final(self).emitted() == old(self).emitted().push(OutlineEvent::Close),
    ;
}

/// An [`OutlineBuilder`] that records every event it receives.
pub struct EventRecorder {
    /// The recorded events, oldest first.
    pub events: Vec<OutlineEvent>,
}

impl EventRecorder {
    /// Creates an empty recorder.
    pub fn new() -> (r: Self)
        ensures
            r.emitted() == Seq::<OutlineEvent>::empty(),
    {
        EventRecorder { events: Vec::new() }
    }
}

impl OutlineBuilder for EventRecorder {
    open spec fn emitted(&self) -> Seq<OutlineEvent> {
        self.events@
    }

    fn move_to(&mut self, x: i32, y: i32) {
        self.events.push(OutlineEvent::MoveTo { x, y });
    }

    fn line_to(&mut self, x: i32, y: i32) {
        self.events.push(OutlineEvent::LineTo { x, y });
    }

    fn quad_to(&mut self, x1: i32, y1: i32, x: i32, y: i32) {
        self.events.push(OutlineEvent::QuadTo { x1, y1, x, y });
    }

    fn curve_to(&mut self, x1: i32, y1: i32, x2: i32, y2: i32, x: i32, y: i32) {
        self.events.push(OutlineEvent::CurveTo { x1, y1, x2, y2, x, y });
    }

    fn close(&mut self) {
        self.events.push(OutlineEvent::Close);
    }
}

/// The ghost image of a loaded font: one optional byte sequence per
/// recognized table (`head` and `hhea` are mandatory, so a fully loaded
/// font has them present), the cached glyph count, and the raw candidate
/// slice of the compact-outline table before its speculative sub-parse.
pub ghost struct FontTables {
    pub head: Option<Seq<u8>>,
    pub hhea: Option<Seq<u8>>,
    pub cff: Option<Seq<u8>>,
    pub cmap: Option<Seq<u8>>,
    pub glyf: Option<Seq<u8>>,
    pub hmtx: Option<Seq<u8>>,
    pub kern: Option<Seq<u8>>,
    pub loca: Option<Seq<u8>>,
    pub name: Option<Seq<u8>>,
    pub os_2: Option<Seq<u8>>,
    pub post: Option<Seq<u8>>,
    pub vhea: Option<Seq<u8>>,
    pub vmtx: Option<Seq<u8>>,
    pub number_of_glyphs: u16,
}

impl FontTables {
    /// The state before any directory record has been applied.
    pub open spec fn initial() -> FontTables {
        FontTables {
            head: None,
            hhea: None,
            cff: None,
            cmap: None,
            glyf: None,
            hmtx: None,
            kern: None,
            loca: None,
            name: None,
            os_2: None,
            post: None,
            vhea: None,
            vmtx: None,
            number_of_glyphs: 0,
        }
    }
}

pub const TAG_TTCF: u32 = 0x74746366;

pub const TAG_HEAD: u32 = 0x68656164;

pub const TAG_HHEA: u32 = 0x68686561;

pub const TAG_MAXP: u32 = 0x6D617870;

pub const TAG_OS_2: u32 = 0x4F532F32;

pub const TAG_POST: u32 = 0x706F7374;

pub const TAG_VHEA: u32 = 0x76686561;

pub const TAG_CFF: u32 = 0x43464620;

pub const TAG_CMAP: u32 = 0x636D6170;

pub const TAG_GLYF: u32 = 0x676C7966;

pub const TAG_HMTX: u32 = 0x686D7478;

pub const TAG_KERN: u32 = 0x6B65726E;

pub const TAG_LOCA: u32 = 0x6C6F6361;

pub const TAG_NAME: u32 = 0x6E616D65;

pub const TAG_VMTX: u32 = 0x766D7478;

pub const HEAD_TABLE_SIZE: u32 = 54;

pub const HHEA_TABLE_SIZE: u32 = 36;

pub const MAXP_TABLE_MIN_SIZE: u32 = 6;

pub const OS_2_TABLE_MIN_SIZE: u32 = 78;

pub const POST_TABLE_MIN_SIZE: u32 = 16;

pub const VHEA_TABLE_MIN_SIZE: u32 = 36;

pub const SFNT_VERSION_TRUE_TYPE: u32 = 0x00010000;

pub const SFNT_VERSION_OPEN_TYPE: u32 = 0x4F54544F;

/// The table slice `off..off + len` of the whole buffer, provided it is
/// in bounds.
pub open spec fn spec_table_slice(data: Seq<u8>, off: u32, len: u32) -> Option<Seq<u8>> {
    if off + len <= data.len() {
        Some(data.subrange(off as int, off + len))
    } else {
        None
    }
}

/// The effect of one 16-byte directory record (tag, checksum, offset,
/// length) on the partially built table set.  `head`, `hhea` and `maxp`
/// fail the load when out of bounds; the optional tables degrade to
/// absent instead.  A table shorter than its declared minimum size is its
/// own typed error, whatever the other records hold.
pub open spec fn spec_apply_record(data: Seq<u8>, dir: Seq<u8>, k: int, t: FontTables) -> Result<
    FontTables,
    Error,
> {
    let tag = be_u32(dir, 16 * k);
    let off = be_u32(dir, 16 * k + 8);
    let len = be_u32(dir, 16 * k + 12);
    if tag == TAG_HEAD {
        if len < HEAD_TABLE_SIZE {
            Err(Error::InvalidTableSize(TableName::Header))
        } else if off + len > data.len() {
            Err(slice_oob_error(off as int, off + len, data.len() as int))
        } else {
            Ok(FontTables { head: spec_table_slice(data, off, len), ..t })
        }
    } else if tag == TAG_HHEA {
        if len < HHEA_TABLE_SIZE {
            Err(Error::InvalidTableSize(TableName::HorizontalHeader))
        } else if off + len > data.len() {
            Err(slice_oob_error(off as int, off + len, data.len() as int))
        } else {
            Ok(FontTables { hhea: spec_table_slice(data, off, len), ..t })
        }
    } else if tag == TAG_MAXP {
        if len < MAXP_TABLE_MIN_SIZE {
            Err(Error::InvalidTableSize(TableName::MaximumProfile))
        } else if off + len > data.len() {
            Err(slice_oob_error(off as int, off + len, data.len() as int))
        } else {
            Ok(FontTables { number_of_glyphs: be_u16(data, off + 4), ..t })
        }
    } else if tag == TAG_OS_2 {
        if len < OS_2_TABLE_MIN_SIZE {
            Err(Error::InvalidTableSize(TableName::WindowsMetrics))
        } else {
            Ok(FontTables { os_2: spec_table_slice(data, off, len), ..t })
        }
    } else if tag == TAG_POST {
        if len < POST_TABLE_MIN_SIZE {
            Err(Error::InvalidTableSize(TableName::PostScript))
        } else {
            Ok(FontTables { post: spec_table_slice(data, off, len), ..t })
        }
    } else if tag == TAG_VHEA {
        if len < VHEA_TABLE_MIN_SIZE {
            Err(Error::InvalidTableSize(TableName::VerticalHeader))
        } else {
            Ok(FontTables { vhea: spec_table_slice(data, off, len), ..t })
        }
    } else if tag == TAG_CFF {
        Ok(FontTables { cff: spec_table_slice(data, off, len), ..t })
    } else if tag == TAG_CMAP {
        Ok(FontTables { cmap: spec_table_slice(data, off, len), ..t })
    } else if tag == TAG_GLYF {
        Ok(FontTables { glyf: spec_table_slice(data, off, len), ..t })
    } else if tag == TAG_HMTX {
        Ok(FontTables { hmtx: spec_table_slice(data, off, len), ..t })
    } else if tag == TAG_KERN {
        Ok(FontTables { kern: spec_table_slice(data, off, len), ..t })
    } else if tag == TAG_LOCA {
        Ok(FontTables { loca: spec_table_slice(data, off, len), ..t })
    } else if tag == TAG_NAME {
        Ok(FontTables { name: spec_table_slice(data, off, len), ..t })
    } else if tag == TAG_VMTX {
        Ok(FontTables { vmtx: spec_table_slice(data, off, len), ..t })
    } else {
        Ok(t)
    }
}

/// The table set after the first `n` directory records, or the error of
/// the first record that fails the load.
pub open spec fn spec_scan_records(data: Seq<u8>, dir: Seq<u8>, n: nat) -> Result<
    FontTables,
    Error,
>
    decreases n,
{
    if n == 0 {
        Ok(FontTables::initial())
    } else {
        match spec_scan_records(data, dir, (n - 1) as nat) {
            Ok(t) => spec_apply_record(data, dir, n - 1, t),
            Err(e) => Err(e),
        }
    }
}

/// Once a directory record fails the load, every longer scan reports
/// that same first failure.
proof fn lemma_scan_stops(data: Seq<u8>, dir: Seq<u8>, k: nat, n: nat)
    requires
        k < n,
        spec_scan_records(data, dir, k) matches Ok(t) && spec_apply_record(
            data,
            dir,
            k as int,
            t,
        ) is Err,
    ensures
        spec_scan_records(data, dir, n) == spec_apply_record(
            data,
            dir,
            k as int,
            spec_scan_records(data, dir, k)->Ok_0,
        ),
    decreases n,
{
    if n > k + 1 {
        lemma_scan_stops(data, dir, k, (n - 1) as nat);
    }
}

/// The loader's result on `data`, given the offset-table bytes `tdata`
/// (for a collection, `data` re-sliced at the sub-font offset): validates
/// the signature, walks the directory, and requires the header and
/// horizontal-header tables to be present.
pub open spec fn spec_load_tables(data: Seq<u8>, tdata: Seq<u8>) -> Result<FontTables, Error> {
    if tdata.len() < 12 {
        Err(Error::NotATrueType)
    } else {
        let version = be_u32(tdata, 0);
        if version != SFNT_VERSION_TRUE_TYPE && version != SFNT_VERSION_OPEN_TYPE {
            Err(Error::NotATrueType)
        } else {
            let num_tables = be_u16(tdata, 4);
            if 12 + 16 * num_tables > tdata.len() {
                Err(slice_oob_error(12, 12 + 16 * num_tables, tdata.len() as int))
            } else {
                match spec_scan_records(
                    data,
                    tdata.subrange(12, 12 + 16 * num_tables),
                    num_tables as nat,
                ) {
                    Ok(t) => {
                        if t.head is None {
                            Err(Error::TableMissing(TableName::Header))
                        } else if t.hhea is None {
                            Err(Error::TableMissing(TableName::HorizontalHeader))
                        } else {
                            Ok(t)
                        }
                    },
                    Err(e) => Err(e),
                }
            }
        }
    }
}

/// Whether the buffer begins with the 4-byte font-collection signature.
pub open spec fn spec_is_collection(data: Seq<u8>) -> bool {
    data.len() >= 4 && be_u32(data, 0) == TAG_TTCF
}

/// The declared font count of a collection, or `None` for any buffer
/// that does not begin with the collection signature (or is too short to
/// hold the count).
pub open spec fn spec_fonts_in_collection(data: Seq<u8>) -> Option<u32> {
    if spec_is_collection(data) {
        if data.len() >= 12 {
            Some(be_u32(data, 8))
        } else {
            None
        }
    } else {
        None
    }
}

/// The loader's full result on `data` and a collection index: resolves
/// the collection indirection, then loads the table directory.
pub open spec fn spec_from_data(data: Seq<u8>, index: u32) -> Result<FontTables, Error> {
    match spec_fonts_in_collection(data) {
        Some(n) => {
            if index < n {
                let pos = 12 + 4 * (index as int);
                if pos + 4 <= data.len() {
                    let font_offset = be_u32(data, pos);
                    if font_offset <= data.len() {
                        spec_load_tables(data, data.subrange(font_offset as int, data.len() as int))
                    } else {
                        Err(
                            slice_oob_error(
                                font_offset as int,
                                data.len() as int,
                                data.len() as int,
                            ),
                        )
                    }
                } else {
                    Err(slice_oob_error(pos, pos + 4, data.len() as int))
                }
            } else {
                Err(Error::FontIndexOutOfBounds)
            }
        },
        None => spec_load_tables(data, data),
    }
}

/// How the loaded handle relates a ghost table set's compact-outline
/// candidate to the handle's own table and metadata: a candidate whose
/// speculative metadata sub-parse succeeds is kept with that metadata; a
/// failing or absent candidate degrades to absent, never failing the
/// load.
pub open spec fn cff_resolved(
    candidate: Option<Seq<u8>>,
    cff: Option<Seq<u8>>,
    meta: cff::Metadata,
) -> bool {
    match candidate {
        Some(s) => match cff::spec_parse_metadata(s) {
            Some(m) => cff == Some(s) && meta == m,
            None => cff is None && meta == cff::Metadata::spec_empty(),
        },
        None => cff is None && meta == cff::Metadata::spec_empty(),
    }
}

/// A font data handle: an immutable set of non-owning views over the
/// caller's buffer.  The caller owns the bytes; the handle must not
/// outlive them; no whole-font copy ever occurs.
#[derive(Clone, Copy)]
pub struct Font<'a> {
    head: &'a [u8],
    hhea: &'a [u8],
    cff_: Option<&'a [u8]>,
    cmap: Option<&'a [u8]>,
    glyf: Option<&'a [u8]>,
    hmtx: Option<&'a [u8]>,
    kern: Option<&'a [u8]>,
    loca: Option<&'a [u8]>,
    name: Option<&'a [u8]>,
    os_2: Option<&'a [u8]>,
    post: Option<&'a [u8]>,
    vhea: Option<&'a [u8]>,
    vmtx: Option<&'a [u8]>,
    number_of_glyphs: GlyphId,
    cff_metadata: cff::Metadata,
}

/// The ghost image of an optional table slice.
pub open spec fn opt_bytes(o: Option<&[u8]>) -> Option<Seq<u8>> {
    match o {
        Some(s) => Some(s@),
        None => None,
    }
}

impl<'a> Font<'a> {
    /// The bytes of the mandatory header table.
    pub closed spec fn head_bytes(&self) -> Seq<u8> {
        self.head@
    }

    /// The bytes of the mandatory horizontal-header table.
    pub closed spec fn hhea_bytes(&self) -> Seq<u8> {
        self.hhea@
    }

    /// The bytes of the compact-outline table, when present and valid.
    pub closed spec fn cff_bytes(&self) -> Option<Seq<u8>> {
        opt_bytes(self.cff_)
    }

    /// The bytes of the quadratic-outline table, when present.
    pub closed spec fn glyf_bytes(&self) -> Option<Seq<u8>> {
        opt_bytes(self.glyf)
    }

    /// The bytes of the offset-index table, when present.
    pub closed spec fn loca_bytes(&self) -> Option<Seq<u8>> {
        opt_bytes(self.loca)
    }

    /// The bytes of the character-mapping table, when present.
    pub closed spec fn cmap_bytes(&self) -> Option<Seq<u8>> {
        opt_bytes(self.cmap)
    }

    /// The bytes of the horizontal-metrics table, when present.
    pub closed spec fn hmtx_bytes(&self) -> Option<Seq<u8>> {
        opt_bytes(self.hmtx)
    }

    /// The bytes of the kerning table, when present.
    pub closed spec fn kern_bytes(&self) -> Option<Seq<u8>> {
        opt_bytes(self.kern)
    }

    /// The bytes of the naming table, when present.
    pub closed spec fn name_bytes(&self) -> Option<Seq<u8>> {
        opt_bytes(self.name)
    }

    /// The bytes of the Windows-metrics table, when present.
    pub closed spec fn os_2_bytes(&self) -> Option<Seq<u8>> {
        opt_bytes(self.os_2)
    }

    /// The bytes of the PostScript table, when present.
    pub closed spec fn post_bytes(&self) -> Option<Seq<u8>> {
        opt_bytes(self.post)
    }

    /// The bytes of the vertical-header table, when present.
    pub closed spec fn vhea_bytes(&self) -> Option<Seq<u8>> {
        opt_bytes(self.vhea)
    }

    /// The bytes of the vertical-metrics table, when present.
    pub closed spec fn vmtx_bytes(&self) -> Option<Seq<u8>> {
        opt_bytes(self.vmtx)
    }

    /// The cached glyph count.
    pub closed spec fn glyph_count(&self) -> u16 {
        self.number_of_glyphs.0
    }

    /// The compact-outline metadata computed at load time (the empty
    /// metadata when that table is absent).
    pub closed spec fn cff_meta(&self) -> cff::Metadata {
        self.cff_metadata
    }

    /// Structural well-formedness: every slice the constructor validated
    /// meets its table's minimum size.
    pub open spec fn wf(&self) -> bool {
        &&& self.head_bytes().len() >= HEAD_TABLE_SIZE
        &&& self.hhea_bytes().len() >= HHEA_TABLE_SIZE
    }

    /// Whether the handle's tables agree with the ghost table set `t`,
    /// except for the compact-outline table (whose speculative sub-parse
    /// may degrade it to absent).
    pub open spec fn agrees_except_cff(&self, t: FontTables) -> bool {
        &&& t.head == Some(self.head_bytes())
        &&& t.hhea == Some(self.hhea_bytes())
        &&& self.cmap_bytes() == t.cmap
        &&& self.glyf_bytes() == t.glyf
        &&& self.hmtx_bytes() == t.hmtx
        &&& self.kern_bytes() == t.kern
        &&& self.loca_bytes() == t.loca
        &&& self.name_bytes() == t.name
        &&& self.os_2_bytes() == t.os_2
        &&& self.post_bytes() == t.post
        &&& self.vhea_bytes() == t.vhea
        &&& self.vmtx_bytes() == t.vmtx
        &&& self.glyph_count() == t.number_of_glyphs
    }

    /// Checks that font has a specified table.
    pub fn has_table(&self, name: TableName) -> (r: bool)
        ensures
            r == match name {
                TableName::Header => true,
                TableName::HorizontalHeader => true,
                TableName::MaximumProfile => true,
                TableName::CharacterToGlyphIndexMapping => self.cmap_bytes() is Some,
                TableName::CompactFontFormat => self.cff_bytes() is Some,
                TableName::GlyphData => self.glyf_bytes() is Some,
                TableName::HorizontalMetrics => self.hmtx_bytes() is Some,
                TableName::IndexToLocation => self.loca_bytes() is Some,
                TableName::Kerning => self.kern_bytes() is Some,
                TableName::Naming => self.name_bytes() is Some,
                TableName::PostScript => self.post_bytes() is Some,
                TableName::VerticalHeader => self.vhea_bytes() is Some,
                TableName::VerticalMetrics => self.vmtx_bytes() is Some,
                TableName::WindowsMetrics => self.os_2_bytes() is Some,
            },
    {
        match name {
            TableName::Header => true,
            TableName::HorizontalHeader => true,
            TableName::MaximumProfile => true,
            TableName::CharacterToGlyphIndexMapping => self.cmap.is_some(),
            TableName::CompactFontFormat => self.cff_.is_some(),
            TableName::GlyphData => self.glyf.is_some(),
            TableName::HorizontalMetrics => self.hmtx.is_some(),
            TableName::IndexToLocation => self.loca.is_some(),
            TableName::Kerning => self.kern.is_some(),
            TableName::Naming => self.name.is_some(),
            TableName::PostScript => self.post.is_some(),
            TableName::VerticalHeader => self.vhea.is_some(),
            TableName::VerticalMetrics => self.vmtx.is_some(),
            TableName::WindowsMetrics => self.os_2.is_some(),
        }
    }

    /// Returns a total number of glyphs in the font.
    ///
    /// The value was parsed at load time, so this involves no parsing.
    pub fn number_of_glyphs(&self) -> (r: u16)
        ensures
            r == self.glyph_count(),
    {
        self.number_of_glyphs.0
    }

    /// Checks a glyph id against the font's glyph count.
    pub fn check_glyph_id(&self, glyph_id: GlyphId) -> (r: Result<(), Error>)
        ensures
            r is Ok <==> glyph_id.0 < self.glyph_count(),
            r is Err ==> r == Err::<(), Error>(Error::NoGlyph),
    {
        if glyph_id.0 < self.number_of_glyphs.0 {
            Ok(())
        } else {
            Err(Error::NoGlyph)
        }
    }

    /// Outlines a glyph, streaming its commands to `builder`, and
    /// returns the glyph's bounding box.
    ///
    /// Both the quadratic and the compact outline tables are supported;
    /// the handle dispatches to whichever decoder is present.  A glyph id
    /// at or beyond the glyph count is rejected before any sink method is
    /// invoked, as is a font with neither outline table.  On an error
    /// partial output may already have been streamed; everything emitted
    /// before the call stays untouched in order.
    pub fn outline_glyph<B: OutlineBuilder>(&self, glyph_id: GlyphId, builder: &mut B) -> (r:
        Result<Rect, Error>)
        requires
            self.wf(),
        ensures
            old(builder).emitted().is_prefix_of(final(builder).emitted()),
            glyph_id.0 >= self.glyph_count() ==> r == Err::<Rect, Error>(Error::NoGlyph)
                && final(builder).emitted() == old(builder).emitted(),
            self.glyf_bytes() is None && self.cff_bytes() is None ==> r == Err::<Rect, Error>(
                Error::NoGlyph,
            ) && final(builder).emitted() == old(builder).emitted(),
            self.glyf_bytes() is Some && self.loca_bytes() is None && glyph_id.0
                < self.glyph_count() ==> r == Err::<Rect, Error>(
                Error::TableMissing(TableName::IndexToLocation),
            ) && final(builder).emitted() == old(builder).emitted(),
            self.glyf_bytes() matches Some(gb) ==> match r {
                Ok(rect) => self.loca_bytes() matches Some(lb) && glyf::spec_glyph_range(
                    lb,
                    parser::be_i16(self.head_bytes(), 50) != 0,
                    glyph_id.0,
                ) matches Some(rg) && rg.0 + 10 <= rg.1 <= gb.len() && rect == spec_rect_at(
                    gb,
                    rg.0 + 2,
                ),
                Err(_) => true,
            },
            r matches Err(e) ==> e is NoGlyph || e is NoOutline || e is RecursionLimitReached
                || e is SliceOutOfBounds || e is CFFError || e == Error::TableMissing(
                TableName::IndexToLocation,
            ),
            glyph_id.0 < self.glyph_count() ==> match self.glyf_bytes() {
                None => true,
                Some(gb) => match self.loca_bytes() {
                Some(lb) => match glyf::spec_glyph_range(
                    lb,
                    parser::be_i16(self.head_bytes(), 50) != 0,
                    glyph_id.0,
                ) {
                    Some(rg) => {
                        &&& (rg.0 >= rg.1 ==> r == Err::<Rect, Error>(Error::NoOutline)
                            && final(builder).emitted() == old(builder).emitted())
                        &&& (rg.0 + 10 <= rg.1 <= gb.len() && parser::be_i16(gb, rg.0) >= 0
                            ==> match glyf::spec_simple_glyph_events(
                            gb.subrange(rg.0, rg.1),
                            parser::be_i16(gb, rg.0) as u16,
                            glyf::Transform::spec_identity(),
                        ) {
                            Some(evs) => r is Ok && final(builder).emitted() == old(
                                builder,
                            ).emitted() + evs,
                            None => r is Err && final(builder).emitted() == old(
                                builder,
                            ).emitted(),
                        })
                    },
                    None => r == Err::<Rect, Error>(Error::NoGlyph) && final(builder).emitted()
                        == old(builder).emitted(),
                },
                None => true,
                },
            },
            self.glyf_bytes() is None && glyph_id.0 < self.glyph_count() ==> match self.cff_bytes() {
                Some(cb) => {
                    &&& (r == Err::<Rect, Error>(Error::NoGlyph) <==> (cff::spec_parse_index(
                        cb,
                        self.cff_meta().charstrings_offset as int,
                    ) matches Some(cs) && glyph_id.0 >= cs.count))
                    &&& ((r == Err::<Rect, Error>(Error::NoGlyph) || r == Err::<Rect, Error>(
                        Error::NoOutline,
                    )) ==> final(builder).emitted() == old(builder).emitted())
                },
                None => true,
            },
    {
        match self.check_glyph_id(glyph_id) {
            Ok(()) => {},
            Err(e) => {
                return Err(e);
            },
        }
        match self.glyf {
            Some(glyf_data) => {
                let loca_data = match self.loca {
                    Some(l) => l,
                    None => {
                        return Err(Error::TableMissing(TableName::IndexToLocation));
                    },
                };
                // The offset-index format flag sits in the header table.
                let format = parser::read_i16_at(self.head, 50);
                glyf::outline(
                    glyf_data,
                    loca_data,
                    format != 0,
                    self.number_of_glyphs.0,
                    glyph_id.0,
                    builder,
                )
            },
            None => match self.cff_ {
                Some(cff_data) => cff::outline(
                    cff_data,
                    &self.cff_metadata,
                    glyph_id.0,
                    builder,
                ),
                None => Err(Error::NoGlyph),
            },
        }
    }

    /// Creates a `Font` object from raw data.
    ///
    /// Set `index` to choose a font in a collection; for a plain font set
    /// it to 0.
    ///
    /// This validates and slices the container structure only, so it is
    /// relatively light.  The returned handle holds only validated,
    /// in-bounds slices.  No input can make this function fault: the
    /// result on every buffer is the one [`spec_from_data`] describes,
    /// except that a compact-outline table whose header metadata fails
    /// its speculative sub-parse is treated as absent rather than failing
    /// the load.
    pub fn from_data(data: &'a [u8], index: u32) -> (r: Result<Self, Error>)
        ensures
            match r {
                Ok(font) => {
                    &&& font.wf()
                    &&& spec_from_data(data@, index) matches Ok(t) && font.agrees_except_cff(t)
                        && cff_resolved(t.cff, font.cff_bytes(), font.cff_meta())
                },
                Err(e) => spec_from_data(data@, index) == Err::<FontTables, Error>(e),
            },
    {
        let table_data: &'a [u8] = match fonts_in_collection(data) {
            Some(n) => {
                if index < n {
                    let pos: u64 = 12 + 4 * (index as u64);
                    proof {
                        assert(data.len() == data@.len());
                    }
                    if pos + 4 <= data.len() as u64 {
                        let font_offset = read_u32_at(data, pos as usize);
                        match try_slice(data, font_offset as usize, data.len()) {
                            Ok(s) => s,
                            Err(e) => {
                                return Err(e);
                            },
                        }
                    } else {
                        return Err(
                            Error::SliceOutOfBounds {
                                start: parser::u64_sat_u32(pos),
                                end: parser::u64_sat_u32(pos + 4),
                                data_len: parser::usize_sat_u32(data.len()),
                            },
                        );
                    }
                } else {
                    return Err(Error::FontIndexOutOfBounds);
                }
            },
            None => data,
        };
        Self::load_tables(data, table_data)
    }

    /// Walks the offset table and the table directory of `table_data`,
    /// slicing each recognized table out of the whole buffer `data`.
    #[verifier::rlimit(100)]
    fn load_tables(data: &'a [u8], table_data: &'a [u8]) -> (r: Result<Self, Error>)
        ensures
            match r {
                Ok(font) => {
                    &&& font.wf()
                    &&& spec_load_tables(data@, table_data@) matches Ok(t) && font.agrees_except_cff(
                        t,
                    ) && cff_resolved(t.cff, font.cff_bytes(), font.cff_meta())
                },
                Err(e) => spec_load_tables(data@, table_data@) == Err::<FontTables, Error>(e),
            },
    {
        if table_data.len() < 12 {
            return Err(Error::NotATrueType);
        }
        let sfnt_version = read_u32_at(table_data, 0);
        if sfnt_version != SFNT_VERSION_TRUE_TYPE && sfnt_version != SFNT_VERSION_OPEN_TYPE {
            return Err(Error::NotATrueType);
        }
        let num_tables = read_u16_at(table_data, 4);
        let mut s = Stream::new(table_data);
        s.skip(12);
        let dir = match s.read_bytes(16 * (num_tables as usize)) {
            Ok(d) => d,
            Err(e) => {
                return Err(e);
            },
        };

        let mut head: Option<&'a [u8]> = None;
        let mut hhea: Option<&'a [u8]> = None;
        let mut cff_: Option<&'a [u8]> = None;
        let mut cmap: Option<&'a [u8]> = None;
        let mut glyf: Option<&'a [u8]> = None;
        let mut hmtx: Option<&'a [u8]> = None;
        let mut kern: Option<&'a [u8]> = None;
        let mut loca: Option<&'a [u8]> = None;
        let mut name: Option<&'a [u8]> = None;
        let mut os_2: Option<&'a [u8]> = None;
        let mut post: Option<&'a [u8]> = None;
        let mut vhea: Option<&'a [u8]> = None;
        let mut vmtx: Option<&'a [u8]> = None;
        let mut number_of_glyphs: u16 = 0;

        let ghost mut gtables = FontTables::initial();

        let mut k: usize = 0;
        while k < num_tables as usize
            invariant
                dir@.len() == 16 * (num_tables as int),
                k <= num_tables,
                table_data@.len() >= 12,
                be_u32(table_data@, 0) == SFNT_VERSION_TRUE_TYPE || be_u32(table_data@, 0)
                    == SFNT_VERSION_OPEN_TYPE,
                num_tables == be_u16(table_data@, 4),
                12 + 16 * (num_tables as int) <= table_data@.len(),
                dir@ == table_data@.subrange(12, 12 + 16 * (num_tables as int)),
                spec_scan_records(data@, dir@, k as nat) == Ok::<FontTables, Error>(gtables),
                gtables == (FontTables {
                    head: opt_bytes(head),
                    hhea: opt_bytes(hhea),
                    cff: opt_bytes(cff_),
                    cmap: opt_bytes(cmap),
                    glyf: opt_bytes(glyf),
                    hmtx: opt_bytes(hmtx),
                    kern: opt_bytes(kern),
                    loca: opt_bytes(loca),
                    name: opt_bytes(name),
                    os_2: opt_bytes(os_2),
                    post: opt_bytes(post),
                    vhea: opt_bytes(vhea),
                    vmtx: opt_bytes(vmtx),
                    number_of_glyphs: number_of_glyphs,
                }),
                head matches Some(s) ==> s@.len() >= HEAD_TABLE_SIZE,
                hhea matches Some(s) ==> s@.len() >= HHEA_TABLE_SIZE,
            decreases num_tables as int - k,
        {
            proof {
                assert(dir.len() == dir@.len());
            }
            let tag = read_u32_at(dir, 16 * k);
            let off = read_u32_at(dir, 16 * k + 8);
            let len = read_u32_at(dir, 16 * k + 12);

            if tag == TAG_HEAD {
                if len < HEAD_TABLE_SIZE {
                    proof {
                        lemma_scan_stops(data@, dir@, k as nat, num_tables as nat);
                    }
                    return Err(Error::InvalidTableSize(TableName::Header));
                }
                match try_slice_wide(data, off as u64, len as u64) {
                    Ok(s) => {
                        head = Some(s);
                    },
                    Err(e) => {
                        proof {
                            lemma_scan_stops(data@, dir@, k as nat, num_tables as nat);
                        }
                        return Err(e);
                    },
                }
            } else if tag == TAG_HHEA {
                if len < HHEA_TABLE_SIZE {
                    proof {
                        lemma_scan_stops(data@, dir@, k as nat, num_tables as nat);
                    }
                    return Err(Error::InvalidTableSize(TableName::HorizontalHeader));
                }
                match try_slice_wide(data, off as u64, len as u64) {
                    Ok(s) => {
                        hhea = Some(s);
                    },
                    Err(e) => {
                        proof {
                            lemma_scan_stops(data@, dir@, k as nat, num_tables as nat);
                        }
                        return Err(e);
                    },
                }
            } else if tag == TAG_MAXP {
                if len < MAXP_TABLE_MIN_SIZE {
                    proof {
                        lemma_scan_stops(data@, dir@, k as nat, num_tables as nat);
                    }
                    return Err(Error::InvalidTableSize(TableName::MaximumProfile));
                }
                match try_slice_wide(data, off as u64, len as u64) {
                    Ok(s) => {
                        number_of_glyphs = read_u16_at(s, 4);
                        proof {
                            assert(be_u16(s@, 4) == be_u16(data@, off + 4));
                        }
                    },
                    Err(e) => {
                        proof {
                            lemma_scan_stops(data@, dir@, k as nat, num_tables as nat);
                        }
                        return Err(e);
                    },
                }
            } else if tag == TAG_OS_2 {
                if len < OS_2_TABLE_MIN_SIZE {
                    proof {
                        lemma_scan_stops(data@, dir@, k as nat, num_tables as nat);
                    }
                    return Err(Error::InvalidTableSize(TableName::WindowsMetrics));
                }
                os_2 = Self::get_slice(data, off, len);
            } else if tag == TAG_POST {
                if len < POST_TABLE_MIN_SIZE {
                    proof {
                        lemma_scan_stops(data@, dir@, k as nat, num_tables as nat);
                    }
                    return Err(Error::InvalidTableSize(TableName::PostScript));
                }
                post = Self::get_slice(data, off, len);
            } else if tag == TAG_VHEA {
                if len < VHEA_TABLE_MIN_SIZE {
                    proof {
                        lemma_scan_stops(data@, dir@, k as nat, num_tables as nat);
                    }
                    return Err(Error::InvalidTableSize(TableName::VerticalHeader));
                }
                vhea = Self::get_slice(data, off, len);
            } else if tag == TAG_CFF {
                cff_ = Self::get_slice(data, off, len);
            } else if tag == TAG_CMAP {
                cmap = Self::get_slice(data, off, len);
            } else if tag == TAG_GLYF {
                glyf = Self::get_slice(data, off, len);
            } else if tag == TAG_HMTX {
                hmtx = Self::get_slice(data, off, len);
            } else if tag == TAG_KERN {
                kern = Self::get_slice(data, off, len);
            } else if tag == TAG_LOCA {
                loca = Self::get_slice(data, off, len);
            } else if tag == TAG_NAME {
                name = Self::get_slice(data, off, len);
            } else if tag == TAG_VMTX {
                vmtx = Self::get_slice(data, off, len);
            }
            proof {
                assert(spec_scan_records(data@, dir@, (k + 1) as nat) == spec_apply_record(
                    data@,
                    dir@,
                    k as int,
                    gtables,
                ));
                gtables = spec_apply_record(data@, dir@, k as int, gtables)->Ok_0;
            }
            k = k + 1;
        }

        let head_slice = match head {
            Some(s) => s,
            None => {
                return Err(Error::TableMissing(TableName::Header));
            },
        };
        let hhea_slice = match hhea {
            Some(s) => s,
            None => {
                return Err(Error::TableMissing(TableName::HorizontalHeader));
            },
        };

        // Speculatively parse the compact-outline table's metadata; on
        // failure the table degrades to absent rather than failing the
        // load, since the quadratic table may still serve outlines.
        let (cff_checked, cff_metadata): (Option<&'a [u8]>, cff::Metadata) = match cff_ {
            Some(s) => match cff::parse_metadata(s) {
                Ok(m) => (Some(s), m),
                Err(_) => (None, cff::Metadata::empty()),
            },
            None => (None, cff::Metadata::empty()),
        };

        Ok(
            Font {
                head: head_slice,
                hhea: hhea_slice,
                cff_: cff_checked,
                cmap,
                glyf,
                hmtx,
                kern,
                loca,
                name,
                os_2,
                post,
                vhea,
                vmtx,
                number_of_glyphs: GlyphId(number_of_glyphs),
                cff_metadata,
            },
        )
    }

    /// The table slice `off..off + len` of the whole buffer, or `None`
    /// when out of bounds (optional tables degrade to absent).
    fn get_slice(data: &'a [u8], off: u32, len: u32) -> (r: Option<&'a [u8]>)
        ensures
            opt_bytes(r) == spec_table_slice(data@, off, len),
    {
        match try_slice_wide(data, off as u64, len as u64) {
            Ok(s) => Some(s),
            Err(_) => None,
        }
    }
}

/// Checks that the provided data is a font collection.
pub fn is_collection(data: &[u8]) -> (r: bool)
    ensures
        r == spec_is_collection(data@),
{
    proof {
        assert(data.len() == data@.len());
    }
    data.len() >= 4 && read_u32_at(data, 0) == TAG_TTCF
}

/// Returns the number of fonts stored in a font collection.
///
/// Returns `None` exactly when the provided data does not begin with the
/// collection signature (or is too short to hold the declared count);
/// otherwise the exact declared count.
pub fn fonts_in_collection(data: &[u8]) -> (r: Option<u32>)
    ensures
        r == spec_fonts_in_collection(data@),
{
    proof {
        assert(data.len() == data@.len());
    }
    if !is_collection(data) {
        return None;
    }
    if data.len() >= 12 {
        Some(read_u32_at(data, 8))
    } else {
        None
    }
}

} // verus!
