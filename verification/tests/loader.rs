use ttf_parser::Error;
use ttf_parser::Font;
use ttf_parser::GlyphId;
use ttf_parser::TableName;
use ttf_parser::fonts_in_collection;

fn be16(v: u16) -> [u8; 2] {
    v.to_be_bytes()
}

fn be32(v: u32) -> [u8; 4] {
    v.to_be_bytes()
}

/// Builds an sfnt container whose table data starts at `base` within the
/// final buffer (0 for a plain font; the sub-font offset in a collection).
/// Offsets in the directory are absolute, as in a real file.
fn build_sfnt(version: u32, tables: &[(&[u8; 4], Vec<u8>)], base: usize) -> Vec<u8> {
    let n = tables.len();
    let mut out = Vec::new();
    out.extend_from_slice(&be32(version));
    out.extend_from_slice(&be16(n as u16));
    out.extend_from_slice(&[0u8; 6]); // searchRange, entrySelector, rangeShift
    let mut offset = base + 12 + 16 * n;
    let mut payload: Vec<u8> = Vec::new();
    for (tag, data) in tables {
        out.extend_from_slice(&tag[..]);
        out.extend_from_slice(&be32(0)); // checksum is ignored
        out.extend_from_slice(&be32(offset as u32));
        out.extend_from_slice(&be32(data.len() as u32));
        payload.extend_from_slice(data);
        offset += data.len();
    }
    out.extend_from_slice(&payload);
    out
}

fn head_table(index_to_loc_format: i16) -> Vec<u8> {
    let mut t = vec![0u8; 54];
    let b = be16(index_to_loc_format as u16);
    t[50] = b[0];
    t[51] = b[1];
    t
}

fn hhea_table() -> Vec<u8> {
    vec![0u8; 36]
}

fn maxp_table(num_glyphs: u16) -> Vec<u8> {
    let mut t = Vec::new();
    t.extend_from_slice(&be32(0x00010000));
    t.extend_from_slice(&be16(num_glyphs));
    t
}

fn minimal_font() -> Vec<u8> {
    build_sfnt(
        0x00010000,
        &[
            (b"head", head_table(0)),
            (b"hhea", hhea_table()),
            (b"maxp", maxp_table(7)),
        ],
        0,
    )
}

#[test]
fn load_minimal_font() {
    let data = minimal_font();
    let font = Font::from_data(&data, 0).unwrap();
    assert_eq!(font.number_of_glyphs(), 7);
    assert!(font.has_table(TableName::Header));
    assert!(font.has_table(TableName::HorizontalHeader));
    assert!(font.has_table(TableName::MaximumProfile));
    assert!(!font.has_table(TableName::GlyphData));
    assert!(!font.has_table(TableName::CompactFontFormat));
    assert!(!font.has_table(TableName::Kerning));
}

#[test]
fn empty_buffer_is_not_a_font() {
    assert!(matches!(Font::from_data(&[], 0), Err(Error::NotATrueType)));
}

#[test]
fn bad_signature_is_not_a_font() {
    let data = vec![0xDEu8, 0xAD, 0xBE, 0xEF, 0, 0, 0, 0, 0, 0, 0, 0];
    assert!(matches!(Font::from_data(&data, 0), Err(Error::NotATrueType)));
}

#[test]
fn loader_never_panics_on_arbitrary_buffers() {
    // A crude generator walks many malformed buffers; every one must
    // produce a handle or a typed error, never a fault.
    let mut seed: u32 = 0x12345678;
    for len in 0..200usize {
        let mut data = Vec::with_capacity(len);
        for _ in 0..len {
            seed = seed.wrapping_mul(1664525).wrapping_add(1013904223);
            data.push((seed >> 24) as u8);
        }
        // Nudge some buffers toward the interesting signatures.
        if len >= 4 && len % 3 == 0 {
            data[0..4].copy_from_slice(&be32(0x00010000));
        }
        if len >= 4 && len % 3 == 1 {
            data[0..4].copy_from_slice(b"ttcf");
        }
        let _ = Font::from_data(&data, 0);
        let _ = fonts_in_collection(&data);
    }
}

#[test]
fn truncated_directory_reports_slice_error() {
    let mut data = minimal_font();
    data.truncate(14); // inside the table directory
    match Font::from_data(&data, 0) {
        Err(Error::SliceOutOfBounds { start, end, data_len }) => {
            assert_eq!(start, 12);
            assert_eq!(end, 12 + 16 * 3);
            assert_eq!(data_len, 14);
        },
        Err(e) => panic!("expected a slice error, got {:?}", e),
        Ok(_) => panic!("expected a slice error, got a font"),
    }
}

#[test]
fn missing_head_table_is_reported() {
    let data = build_sfnt(
        0x00010000,
        &[(b"hhea", hhea_table()), (b"maxp", maxp_table(1))],
        0,
    );
    assert!(matches!(
        Font::from_data(&data, 0),
        Err(Error::TableMissing(TableName::Header))
    ));
}

#[test]
fn missing_hhea_table_is_reported() {
    let data = build_sfnt(
        0x00010000,
        &[(b"head", head_table(0)), (b"maxp", maxp_table(1))],
        0,
    );
    assert!(matches!(
        Font::from_data(&data, 0),
        Err(Error::TableMissing(TableName::HorizontalHeader))
    ));
}

#[test]
fn undersized_head_table_is_its_own_error() {
    // The head table is one byte short of its minimum; everything else
    // is pristine, and the error still names the header table.
    let data = build_sfnt(
        0x00010000,
        &[
            (b"head", vec![0u8; 53]),
            (b"hhea", hhea_table()),
            (b"maxp", maxp_table(1)),
        ],
        0,
    );
    assert!(matches!(
        Font::from_data(&data, 0),
        Err(Error::InvalidTableSize(TableName::Header))
    ));
}

#[test]
fn undersized_post_table_is_its_own_error() {
    let data = build_sfnt(
        0x00010000,
        &[
            (b"head", head_table(0)),
            (b"hhea", hhea_table()),
            (b"maxp", maxp_table(1)),
            (b"post", vec![0u8; 15]),
        ],
        0,
    );
    assert!(matches!(
        Font::from_data(&data, 0),
        Err(Error::InvalidTableSize(TableName::PostScript))
    ));
}

#[test]
fn undersized_os2_table_is_its_own_error() {
    let data = build_sfnt(
        0x00010000,
        &[
            (b"OS/2", vec![0u8; 77]),
            (b"head", head_table(0)),
            (b"hhea", hhea_table()),
        ],
        0,
    );
    assert!(matches!(
        Font::from_data(&data, 0),
        Err(Error::InvalidTableSize(TableName::WindowsMetrics))
    ));
}

#[test]
fn out_of_bounds_optional_table_degrades_to_absent() {
    // A kern record pointing past the buffer is dropped, not fatal.
    let mut data = build_sfnt(
        0x00010000,
        &[
            (b"head", head_table(0)),
            (b"hhea", hhea_table()),
            (b"kern", vec![0u8; 4]),
        ],
        0,
    );
    // Corrupt the kern record's offset (third record, offset field).
    let rec = 12 + 16 * 2 + 8;
    data[rec..rec + 4].copy_from_slice(&be32(0x7FFF_FFFF));
    let font = Font::from_data(&data, 0).unwrap();
    assert!(!font.has_table(TableName::Kerning));
}

#[test]
fn fonts_in_collection_none_without_signature() {
    assert_eq!(fonts_in_collection(&[]), None);
    assert_eq!(fonts_in_collection(b"ttc"), None);
    assert_eq!(fonts_in_collection(b"OTTO\x00\x00\x00\x01\x00\x00\x00\x02"), None);
    let data = minimal_font();
    assert_eq!(fonts_in_collection(&data), None);
}

#[test]
fn fonts_in_collection_reads_declared_count() {
    let mut data = Vec::new();
    data.extend_from_slice(b"ttcf");
    data.extend_from_slice(&be32(0x00010000));
    data.extend_from_slice(&be32(3));
    assert_eq!(fonts_in_collection(&data), Some(3));
}

fn build_collection(num_declared: u32) -> Vec<u8> {
    // One sub-font at offset 16, declared `num_declared` times.
    let mut data = Vec::new();
    data.extend_from_slice(b"ttcf");
    data.extend_from_slice(&be32(0x00010000));
    data.extend_from_slice(&be32(num_declared));
    data.extend_from_slice(&be32(16));
    let font = build_sfnt(
        0x00010000,
        &[
            (b"head", head_table(0)),
            (b"hhea", hhea_table()),
            (b"maxp", maxp_table(9)),
        ],
        16,
    );
    data.extend_from_slice(&font);
    data
}

#[test]
fn collection_index_resolves_sub_font() {
    let data = build_collection(1);
    let font = Font::from_data(&data, 0).unwrap();
    assert_eq!(font.number_of_glyphs(), 9);
}

#[test]
fn collection_index_out_of_bounds() {
    let data = build_collection(1);
    assert!(matches!(
        Font::from_data(&data, 1),
        Err(Error::FontIndexOutOfBounds)
    ));
    assert!(matches!(
        Font::from_data(&data, 1000),
        Err(Error::FontIndexOutOfBounds)
    ));
}

#[test]
fn glyph_id_is_ordered() {
    assert!(GlyphId(3) < GlyphId(7));
    assert_eq!(GlyphId(3), GlyphId(3));
}

#[test]
fn short_collection_header_is_not_a_font() {
    // A buffer with the collection signature but no room for the header
    // resolves to no collection, and its bytes are not a font either.
    let data = b"ttcf\x00\x01";
    assert_eq!(fonts_in_collection(data), None);
    assert!(matches!(Font::from_data(data, 0), Err(Error::NotATrueType)));
}
