use ttf_parser::CFFError;
use ttf_parser::Error;
use ttf_parser::EventRecorder;
use ttf_parser::Font;
use ttf_parser::GlyphId;
use ttf_parser::OutlineEvent;
use ttf_parser::Rect;

fn be16(v: u16) -> [u8; 2] {
    v.to_be_bytes()
}

fn be32(v: u32) -> [u8; 4] {
    v.to_be_bytes()
}

fn build_sfnt(version: u32, tables: &[(&[u8; 4], Vec<u8>)]) -> Vec<u8> {
    let n = tables.len();
    let mut out = Vec::new();
    out.extend_from_slice(&be32(version));
    out.extend_from_slice(&be16(n as u16));
    out.extend_from_slice(&[0u8; 6]);
    let mut offset = 12 + 16 * n;
    let mut payload: Vec<u8> = Vec::new();
    for (tag, data) in tables {
        out.extend_from_slice(&tag[..]);
        out.extend_from_slice(&be32(0));
        out.extend_from_slice(&be32(offset as u32));
        out.extend_from_slice(&be32(data.len() as u32));
        payload.extend_from_slice(data);
        offset += data.len();
    }
    out.extend_from_slice(&payload);
    out
}

fn head_table(index_to_loc_format: i16) -> Vec<u8> {
    let mut t = vec![0u8; 54];
    let b = be16(index_to_loc_format as u16);
    t[50] = b[0];
    t[51] = b[1];
    t
}

fn maxp_table(num_glyphs: u16) -> Vec<u8> {
    let mut t = Vec::new();
    t.extend_from_slice(&be32(0x00010000));
    t.extend_from_slice(&be16(num_glyphs));
    t
}

/// The square simple glyph: on-curve contour points (50,0), (50,750),
/// (450,750), (450,0), closed.
fn square_glyph() -> Vec<u8> {
    let mut g = Vec::new();
    g.extend_from_slice(&be16(1)); // numberOfContours
    g.extend_from_slice(&be16(50)); // xMin
    g.extend_from_slice(&be16(0)); // yMin
    g.extend_from_slice(&be16(450)); // xMax
    g.extend_from_slice(&be16(750)); // yMax
    g.extend_from_slice(&be16(3)); // endPtsOfContours[0]
    g.extend_from_slice(&be16(0)); // instructionLength
    g.extend_from_slice(&[0x01, 0x01, 0x01, 0x01]); // flags: all on-curve
    for dx in [50i16, 0, 400, 0] {
        g.extend_from_slice(&be16(dx as u16));
    }
    for dy in [0i16, 750, 0, -750] {
        g.extend_from_slice(&be16(dy as u16));
    }
    g
}

/// A composite glyph with one component: child 0, unit scale, offset
/// (dx, dy).
fn composite_glyph(dx: i16, dy: i16) -> Vec<u8> {
    let mut g = Vec::new();
    g.extend_from_slice(&be16(0xFFFF)); // numberOfContours == -1
    g.extend_from_slice(&be16(0));
    g.extend_from_slice(&be16(0));
    g.extend_from_slice(&be16(500));
    g.extend_from_slice(&be16(800));
    g.extend_from_slice(&be16(0x0003)); // words + xy values, no more components
    g.extend_from_slice(&be16(0)); // child glyph id
    g.extend_from_slice(&be16(dx as u16));
    g.extend_from_slice(&be16(dy as u16));
    g
}

/// A glyf/loca font (short offset format) from raw glyph records.
fn build_glyf_font(glyphs: &[Vec<u8>]) -> Vec<u8> {
    let mut glyf = Vec::new();
    let mut loca = Vec::new();
    loca.extend_from_slice(&be16(0));
    for g in glyphs {
        glyf.extend_from_slice(g);
        assert!(glyf.len() % 2 == 0);
        loca.extend_from_slice(&be16((glyf.len() / 2) as u16));
    }
    build_sfnt(
        0x00010000,
        &[
            (b"glyf", glyf),
            (b"head", head_table(0)),
            (b"hhea", vec![0u8; 36]),
            (b"loca", loca),
            (b"maxp", maxp_table(glyphs.len() as u16)),
        ],
    )
}

fn move_to(x: i32, y: i32) -> OutlineEvent {
    OutlineEvent::MoveTo { x, y }
}

fn line_to(x: i32, y: i32) -> OutlineEvent {
    OutlineEvent::LineTo { x, y }
}

#[test]
fn square_glyph_emits_exact_commands() {
    let data = build_glyf_font(&[square_glyph()]);
    let font = Font::from_data(&data, 0).unwrap();
    let mut rec = EventRecorder::new();
    let bbox = font.outline_glyph(GlyphId(0), &mut rec).unwrap();
    assert_eq!(
        rec.events,
        vec![
            move_to(50, 0),
            line_to(50, 750),
            line_to(450, 750),
            line_to(450, 0),
            line_to(50, 0),
            OutlineEvent::Close,
        ]
    );
    assert_eq!(bbox, Rect { x_min: 50, y_min: 0, x_max: 450, y_max: 750 });
}

#[test]
fn composite_component_shifts_child_by_offset() {
    let data = build_glyf_font(&[square_glyph(), composite_glyph(100, 200)]);
    let font = Font::from_data(&data, 0).unwrap();

    let mut child = EventRecorder::new();
    font.outline_glyph(GlyphId(0), &mut child).unwrap();
    let mut shifted = EventRecorder::new();
    let bbox = font.outline_glyph(GlyphId(1), &mut shifted).unwrap();

    assert_eq!(child.events.len(), shifted.events.len());
    for (c, s) in child.events.iter().zip(shifted.events.iter()) {
        match (c, s) {
            (OutlineEvent::MoveTo { x, y }, OutlineEvent::MoveTo { x: sx, y: sy }) => {
                assert_eq!((*x + 100, *y + 200), (*sx, *sy));
            },
            (OutlineEvent::LineTo { x, y }, OutlineEvent::LineTo { x: sx, y: sy }) => {
                assert_eq!((*x + 100, *y + 200), (*sx, *sy));
            },
            (OutlineEvent::Close, OutlineEvent::Close) => {},
            other => panic!("event kinds diverged: {:?}", other),
        }
    }
    // The composite's bounding box comes from its own header.
    assert_eq!(bbox, Rect { x_min: 0, y_min: 0, x_max: 500, y_max: 800 });
}

#[test]
fn off_curve_points_imply_midpoints() {
    // One contour: on-curve (0,0), off-curve (100,0), off-curve (100,100).
    // The two consecutive off-curve points imply an on-curve midpoint at
    // (100,50), and the contour closes back to the start.
    let mut g = Vec::new();
    g.extend_from_slice(&be16(1));
    g.extend_from_slice(&[0u8; 8]); // bbox
    g.extend_from_slice(&be16(2));
    g.extend_from_slice(&be16(0));
    g.extend_from_slice(&[0x01, 0x00, 0x00]); // flags
    for dx in [0i16, 100, 0] {
        g.extend_from_slice(&be16(dx as u16));
    }
    for dy in [0i16, 0, 100] {
        g.extend_from_slice(&be16(dy as u16));
    }
    g.push(0); // pad to even length
    let data = build_glyf_font(&[g]);
    let font = Font::from_data(&data, 0).unwrap();
    let mut rec = EventRecorder::new();
    font.outline_glyph(GlyphId(0), &mut rec).unwrap();
    assert_eq!(
        rec.events,
        vec![
            move_to(0, 0),
            OutlineEvent::QuadTo { x1: 100, y1: 0, x: 100, y: 50 },
            OutlineEvent::QuadTo { x1: 100, y1: 100, x: 0, y: 0 },
            OutlineEvent::Close,
        ]
    );
}

#[test]
fn glyph_id_out_of_range_emits_nothing() {
    let data = build_glyf_font(&[square_glyph()]);
    let font = Font::from_data(&data, 0).unwrap();
    assert_eq!(font.number_of_glyphs(), 1);
    let mut rec = EventRecorder::new();
    assert!(matches!(font.outline_glyph(GlyphId(1), &mut rec), Err(Error::NoGlyph)));
    assert!(matches!(font.outline_glyph(GlyphId(999), &mut rec), Err(Error::NoGlyph)));
    assert!(rec.events.is_empty());
}

#[test]
fn empty_glyph_range_has_no_outline() {
    // Two identical consecutive offsets: glyph 0 has an empty range.
    let data = build_sfnt(
        0x00010000,
        &[
            (b"glyf", vec![0u8; 4]),
            (b"head", head_table(0)),
            (b"hhea", vec![0u8; 36]),
            (b"loca", vec![0, 0, 0, 0]),
            (b"maxp", maxp_table(1)),
        ],
    );
    let font = Font::from_data(&data, 0).unwrap();
    let mut rec = EventRecorder::new();
    assert!(matches!(font.outline_glyph(GlyphId(0), &mut rec), Err(Error::NoOutline)));
    assert!(rec.events.is_empty());
}

#[test]
fn self_referential_composite_hits_recursion_limit() {
    // A composite glyph whose only component is itself.
    let mut g = Vec::new();
    g.extend_from_slice(&be16(0xFFFF));
    g.extend_from_slice(&[0u8; 8]);
    g.extend_from_slice(&be16(0x0003));
    g.extend_from_slice(&be16(0)); // child: itself
    g.extend_from_slice(&be16(0));
    g.extend_from_slice(&be16(0));
    let data = build_glyf_font(&[g]);
    let font = Font::from_data(&data, 0).unwrap();
    let mut rec = EventRecorder::new();
    assert!(matches!(
        font.outline_glyph(GlyphId(0), &mut rec),
        Err(Error::RecursionLimitReached)
    ));
}

// ---- Compact outline format ----

/// Builds an index structure with single-byte offsets.
fn build_index(items: &[Vec<u8>]) -> Vec<u8> {
    let mut out = Vec::new();
    out.extend_from_slice(&be16(items.len() as u16));
    if items.is_empty() {
        return out;
    }
    out.push(1); // offSize
    let mut off = 1usize;
    out.push(off as u8);
    for item in items {
        off += item.len();
        assert!(off <= 255);
        out.push(off as u8);
    }
    for item in items {
        out.extend_from_slice(item);
    }
    out
}

/// Builds a compact-outline table holding the given charstrings and
/// global subroutines.
fn build_cff(charstrings: &[Vec<u8>], gsubrs: &[Vec<u8>]) -> Vec<u8> {
    let header = vec![1u8, 0, 4, 1];
    let name_index = build_index(&[b"A".to_vec()]);
    let string_index = build_index(&[]);
    let gsubr_index = build_index(gsubrs);
    // The top dictionary holds one entry: the charstrings offset.
    let top_dict_len = 6; // 32-bit operand (5 bytes) + operator (1 byte)
    let top_index_len = 2 + 1 + 2 + top_dict_len;
    let charstrings_offset =
        header.len() + name_index.len() + top_index_len + string_index.len() + gsubr_index.len();
    let mut top_dict = Vec::new();
    top_dict.push(29);
    top_dict.extend_from_slice(&be32(charstrings_offset as u32));
    top_dict.push(17);
    let top_index = build_index(&[top_dict]);
    assert_eq!(top_index.len(), top_index_len);

    let mut out = Vec::new();
    out.extend_from_slice(&header);
    out.extend_from_slice(&name_index);
    out.extend_from_slice(&top_index);
    out.extend_from_slice(&string_index);
    out.extend_from_slice(&gsubr_index);
    assert_eq!(out.len(), charstrings_offset);
    out.extend_from_slice(&build_index(charstrings));
    out
}

fn build_cff_font(charstrings: &[Vec<u8>], gsubrs: &[Vec<u8>]) -> Vec<u8> {
    build_sfnt(
        0x4F54544F,
        &[
            (b"CFF ", build_cff(charstrings, gsubrs)),
            (b"head", head_table(0)),
            (b"hhea", vec![0u8; 36]),
            (b"maxp", maxp_table(charstrings.len() as u16)),
        ],
    )
}

/// Encodes a small integer operand (|v| <= 107).
fn op_num(v: i32) -> u8 {
    assert!((-107..=107).contains(&v));
    (v + 139) as u8
}

#[test]
fn charstring_draws_lines() {
    // 10 20 rmoveto 30 40 rlineto endchar
    let cs = vec![op_num(10), op_num(20), 21, op_num(30), op_num(40), 5, 14];
    let data = build_cff_font(&[cs], &[]);
    let font = Font::from_data(&data, 0).unwrap();
    let mut rec = EventRecorder::new();
    let bbox = font.outline_glyph(GlyphId(0), &mut rec).unwrap();
    assert_eq!(
        rec.events,
        vec![move_to(10, 20), line_to(40, 60), OutlineEvent::Close]
    );
    // The bounding box accumulates every emitted coordinate.
    assert_eq!(bbox, Rect { x_min: 10, y_min: 20, x_max: 40, y_max: 60 });
}

#[test]
fn leading_width_operand_is_consumed_not_drawn() {
    // The first stack-clearing operator (rmoveto) carries one extra
    // leading operand: it is the advance width and never a coordinate.
    let with_width = vec![op_num(99), op_num(10), op_num(20), 21, 14];
    let without_width = vec![op_num(10), op_num(20), 21, 14];
    let data_w = build_cff_font(&[with_width], &[]);
    let data_p = build_cff_font(&[without_width], &[]);
    let font_w = Font::from_data(&data_w, 0).unwrap();
    let font_p = Font::from_data(&data_p, 0).unwrap();
    let mut rec_w = EventRecorder::new();
    let mut rec_p = EventRecorder::new();
    font_w.outline_glyph(GlyphId(0), &mut rec_w).unwrap();
    font_p.outline_glyph(GlyphId(0), &mut rec_p).unwrap();
    assert_eq!(rec_w.events, rec_p.events);
    assert_eq!(rec_w.events[0], move_to(10, 20));
}

#[test]
fn width_rule_applies_to_stem_operators_too() {
    // Odd operand count before hstem: the leading operand is the width.
    // 99 0 10 hstem 5 5 rmoveto endchar
    let cs = vec![op_num(99), op_num(0), op_num(10), 1, op_num(5), op_num(5), 21, 14];
    let data = build_cff_font(&[cs], &[]);
    let font = Font::from_data(&data, 0).unwrap();
    let mut rec = EventRecorder::new();
    font.outline_glyph(GlyphId(0), &mut rec).unwrap();
    assert_eq!(rec.events[0], move_to(5, 5));
}

#[test]
fn self_referential_subroutine_hits_nesting_limit() {
    // The global subroutine calls itself: with one subroutine the bias
    // is 107, so operand -107 resolves to index 0.
    let subr = vec![op_num(-107), 29];
    let cs = vec![op_num(-107), 29, 14];
    let data = build_cff_font(&[cs], &[subr]);
    let font = Font::from_data(&data, 0).unwrap();
    let mut rec = EventRecorder::new();
    assert!(matches!(
        font.outline_glyph(GlyphId(0), &mut rec),
        Err(Error::CFFError(CFFError::NestingLimitReached))
    ));
}

#[test]
fn subroutine_index_out_of_range() {
    let cs = vec![op_num(0), 29, 14]; // index 0 + bias 107 = 107: none
    let data = build_cff_font(&[cs], &[vec![11]]);
    let font = Font::from_data(&data, 0).unwrap();
    let mut rec = EventRecorder::new();
    assert!(matches!(
        font.outline_glyph(GlyphId(0), &mut rec),
        Err(Error::CFFError(CFFError::InvalidSubroutineIndex))
    ));
}

#[test]
fn unknown_operator_is_rejected() {
    let cs = vec![op_num(1), op_num(2), 21, 2, 14]; // 2 is reserved
    let data = build_cff_font(&[cs], &[]);
    let font = Font::from_data(&data, 0).unwrap();
    let mut rec = EventRecorder::new();
    assert!(matches!(
        font.outline_glyph(GlyphId(0), &mut rec),
        Err(Error::CFFError(CFFError::InvalidOperator))
    ));
}

#[test]
fn stack_overflow_is_a_typed_error() {
    let mut cs = Vec::new();
    for _ in 0..49 {
        cs.push(op_num(1));
    }
    cs.push(14);
    let data = build_cff_font(&[cs], &[]);
    let font = Font::from_data(&data, 0).unwrap();
    let mut rec = EventRecorder::new();
    assert!(matches!(
        font.outline_glyph(GlyphId(0), &mut rec),
        Err(Error::CFFError(CFFError::StackOverflow))
    ));
}

#[test]
fn truncated_charstring_is_a_typed_error() {
    let cs = vec![28]; // a 16-bit operand with no payload
    let data = build_cff_font(&[cs], &[]);
    let font = Font::from_data(&data, 0).unwrap();
    let mut rec = EventRecorder::new();
    assert!(matches!(
        font.outline_glyph(GlyphId(0), &mut rec),
        Err(Error::CFFError(CFFError::ReadOutOfBounds))
    ));
}

#[test]
fn curve_operator_emits_cubics() {
    // 0 0 rmoveto 10 20 30 40 50 60 rrcurveto endchar
    let cs = vec![
        op_num(0),
        op_num(0),
        21,
        op_num(10),
        op_num(20),
        op_num(30),
        op_num(40),
        op_num(50),
        op_num(60),
        8,
        14,
    ];
    let data = build_cff_font(&[cs], &[]);
    let font = Font::from_data(&data, 0).unwrap();
    let mut rec = EventRecorder::new();
    font.outline_glyph(GlyphId(0), &mut rec).unwrap();
    assert_eq!(
        rec.events,
        vec![
            move_to(0, 0),
            OutlineEvent::CurveTo { x1: 10, y1: 20, x2: 40, y2: 60, x: 90, y: 120 },
            OutlineEvent::Close,
        ]
    );
}

#[test]
fn malformed_cff_degrades_to_absent_table() {
    // A compact-outline table whose header metadata cannot be parsed is
    // treated as absent rather than failing the load.
    let data = build_sfnt(
        0x4F54544F,
        &[
            (b"CFF ", vec![9u8, 9, 9]),
            (b"head", head_table(0)),
            (b"hhea", vec![0u8; 36]),
            (b"maxp", maxp_table(1)),
        ],
    );
    let font = Font::from_data(&data, 0).unwrap();
    assert!(!font.has_table(ttf_parser::TableName::CompactFontFormat));
    let mut rec = EventRecorder::new();
    assert!(matches!(font.outline_glyph(GlyphId(0), &mut rec), Err(Error::NoGlyph)));
}

#[test]
fn no_outline_table_means_no_glyph() {
    let data = build_sfnt(
        0x00010000,
        &[
            (b"head", head_table(0)),
            (b"hhea", vec![0u8; 36]),
            (b"maxp", maxp_table(4)),
        ],
    );
    let font = Font::from_data(&data, 0).unwrap();
    let mut rec = EventRecorder::new();
    assert!(matches!(font.outline_glyph(GlyphId(0), &mut rec), Err(Error::NoGlyph)));
    assert!(rec.events.is_empty());
}

#[test]
fn scaled_composite_halves_coordinates() {
    // A component with a 2.14 scale of one half.
    let mut g = Vec::new();
    g.extend_from_slice(&be16(0xFFFF));
    g.extend_from_slice(&[0u8; 8]);
    g.extend_from_slice(&be16(0x000B)); // words + xy values + simple scale
    g.extend_from_slice(&be16(0)); // child glyph id
    g.extend_from_slice(&be16(0)); // dx
    g.extend_from_slice(&be16(0)); // dy
    g.extend_from_slice(&be16(0x2000)); // 0.5 in 2.14 fixed point
    let data = build_glyf_font(&[square_glyph(), g]);
    let font = Font::from_data(&data, 0).unwrap();
    let mut rec = EventRecorder::new();
    font.outline_glyph(GlyphId(1), &mut rec).unwrap();
    assert_eq!(
        rec.events,
        vec![
            move_to(25, 0),
            line_to(25, 375),
            line_to(225, 375),
            line_to(225, 0),
            line_to(25, 0),
            OutlineEvent::Close,
        ]
    );
}

#[test]
fn alternating_line_operator_switches_axes() {
    // 0 0 rmoveto 10 20 30 hlineto endchar
    let cs = vec![op_num(0), op_num(0), 21, op_num(10), op_num(20), op_num(30), 6, 14];
    let data = build_cff_font(&[cs], &[]);
    let font = Font::from_data(&data, 0).unwrap();
    let mut rec = EventRecorder::new();
    font.outline_glyph(GlyphId(0), &mut rec).unwrap();
    assert_eq!(
        rec.events,
        vec![
            move_to(0, 0),
            line_to(10, 0),
            line_to(10, 20),
            line_to(40, 20),
            OutlineEvent::Close,
        ]
    );
}

#[test]
fn hint_mask_skips_its_bitmask() {
    // 0 10 hstem, a one-byte mask, then a move.
    let cs = vec![op_num(0), op_num(10), 1, 19, 0x80, op_num(5), op_num(5), 21, 14];
    let data = build_cff_font(&[cs], &[]);
    let font = Font::from_data(&data, 0).unwrap();
    let mut rec = EventRecorder::new();
    font.outline_glyph(GlyphId(0), &mut rec).unwrap();
    assert_eq!(rec.events, vec![move_to(5, 5), OutlineEvent::Close]);
}

#[test]
fn fixed_point_operands_truncate_toward_negative_infinity() {
    // 2.5 and -2.5 in the 16.16 operand encoding become 2 and -3.
    let cs = vec![
        255, 0x00, 0x02, 0x80, 0x00, // 2.5
        255, 0xFF, 0xFD, 0x80, 0x00, // -2.5
        21, // rmoveto
        14,
    ];
    let data = build_cff_font(&[cs], &[]);
    let font = Font::from_data(&data, 0).unwrap();
    let mut rec = EventRecorder::new();
    font.outline_glyph(GlyphId(0), &mut rec).unwrap();
    assert_eq!(rec.events, vec![move_to(2, -3), OutlineEvent::Close]);
}

#[test]
fn alternating_curve_operator_starts_vertical() {
    // 0 0 rmoveto 10 20 30 40 vhcurveto endchar
    let cs = vec![
        op_num(0),
        op_num(0),
        21,
        op_num(10),
        op_num(20),
        op_num(30),
        op_num(40),
        30,
        14,
    ];
    let data = build_cff_font(&[cs], &[]);
    let font = Font::from_data(&data, 0).unwrap();
    let mut rec = EventRecorder::new();
    font.outline_glyph(GlyphId(0), &mut rec).unwrap();
    assert_eq!(
        rec.events,
        vec![
            move_to(0, 0),
            OutlineEvent::CurveTo { x1: 0, y1: 10, x2: 20, y2: 40, x: 60, y: 40 },
            OutlineEvent::Close,
        ]
    );
}

#[test]
fn accent_composition_draws_base_then_shifted_accent() {
    // Glyph 2's endchar carries four operands: compose base glyph 0 with
    // accent glyph 1 shifted by (5, 7).
    let base = vec![op_num(0), op_num(0), 21, op_num(10), op_num(0), 5, 14];
    let accent = vec![op_num(0), op_num(0), 21, op_num(0), op_num(10), 5, 14];
    let composed = vec![op_num(5), op_num(7), op_num(0), op_num(1), 14];
    let data = build_cff_font(&[base, accent, composed], &[]);
    let font = Font::from_data(&data, 0).unwrap();
    let mut rec = EventRecorder::new();
    font.outline_glyph(GlyphId(2), &mut rec).unwrap();
    assert_eq!(
        rec.events,
        vec![
            move_to(0, 0),
            line_to(10, 0),
            OutlineEvent::Close,
            move_to(5, 7),
            line_to(5, 17),
            OutlineEvent::Close,
        ]
    );
}

#[test]
fn long_offset_index_format_resolves_ranges() {
    // The same square glyph, but with 32-bit offsets in the index.
    let glyph = square_glyph();
    let mut loca = Vec::new();
    loca.extend_from_slice(&be32(0));
    loca.extend_from_slice(&be32(glyph.len() as u32));
    let data = build_sfnt(
        0x00010000,
        &[
            (b"glyf", glyph),
            (b"head", head_table(1)),
            (b"hhea", vec![0u8; 36]),
            (b"loca", loca),
            (b"maxp", maxp_table(1)),
        ],
    );
    let font = Font::from_data(&data, 0).unwrap();
    let mut rec = EventRecorder::new();
    let bbox = font.outline_glyph(GlyphId(0), &mut rec).unwrap();
    assert_eq!(rec.events.len(), 6);
    assert_eq!(rec.events[0], move_to(50, 0));
    assert_eq!(bbox, Rect { x_min: 50, y_min: 0, x_max: 450, y_max: 750 });
}

#[test]
fn missing_offset_index_is_reported() {
    let data = build_sfnt(
        0x00010000,
        &[
            (b"glyf", vec![0u8; 4]),
            (b"head", head_table(0)),
            (b"hhea", vec![0u8; 36]),
            (b"maxp", maxp_table(1)),
        ],
    );
    let font = Font::from_data(&data, 0).unwrap();
    let mut rec = EventRecorder::new();
    assert!(matches!(
        font.outline_glyph(GlyphId(0), &mut rec),
        Err(Error::TableMissing(ttf_parser::TableName::IndexToLocation))
    ));
    assert!(rec.events.is_empty());
}

#[test]
fn quadratic_table_takes_precedence_over_compact() {
    // With both outline tables present, the quadratic one serves glyphs.
    let cs = vec![op_num(1), op_num(1), 21, 14];
    let cff = build_cff(&[cs], &[]);
    let glyph = square_glyph();
    let mut loca = Vec::new();
    loca.extend_from_slice(&be16(0));
    loca.extend_from_slice(&be16((glyph.len() / 2) as u16));
    let data = build_sfnt(
        0x00010000,
        &[
            (b"CFF ", cff),
            (b"glyf", glyph),
            (b"head", head_table(0)),
            (b"hhea", vec![0u8; 36]),
            (b"loca", loca),
            (b"maxp", maxp_table(1)),
        ],
    );
    let font = Font::from_data(&data, 0).unwrap();
    assert!(font.has_table(ttf_parser::TableName::GlyphData));
    assert!(font.has_table(ttf_parser::TableName::CompactFontFormat));
    let mut rec = EventRecorder::new();
    font.outline_glyph(GlyphId(0), &mut rec).unwrap();
    assert_eq!(rec.events[0], move_to(50, 0));
}

#[test]
fn flex_emits_two_cubics() {
    // 0 0 rmoveto, then flex with twelve unit deltas and a flex depth.
    let mut cs = vec![op_num(0), op_num(0), 21];
    for _ in 0..12 {
        cs.push(op_num(1));
    }
    cs.push(op_num(50)); // flex depth, unused by outlining
    cs.push(12);
    cs.push(35);
    cs.push(14);
    let data = build_cff_font(&[cs], &[]);
    let font = Font::from_data(&data, 0).unwrap();
    let mut rec = EventRecorder::new();
    font.outline_glyph(GlyphId(0), &mut rec).unwrap();
    assert_eq!(
        rec.events,
        vec![
            move_to(0, 0),
            OutlineEvent::CurveTo { x1: 1, y1: 1, x2: 2, y2: 2, x: 3, y: 3 },
            OutlineEvent::CurveTo { x1: 4, y1: 4, x2: 5, y2: 5, x: 6, y: 6 },
            OutlineEvent::Close,
        ]
    );
}

#[test]
fn hflex_returns_to_the_starting_elevation() {
    // 0 0 rmoveto 1 2 3 4 5 6 7 hflex endchar
    let cs = vec![
        op_num(0),
        op_num(0),
        21,
        op_num(1),
        op_num(2),
        op_num(3),
        op_num(4),
        op_num(5),
        op_num(6),
        op_num(7),
        12,
        34,
        14,
    ];
    let data = build_cff_font(&[cs], &[]);
    let font = Font::from_data(&data, 0).unwrap();
    let mut rec = EventRecorder::new();
    font.outline_glyph(GlyphId(0), &mut rec).unwrap();
    assert_eq!(
        rec.events,
        vec![
            move_to(0, 0),
            OutlineEvent::CurveTo { x1: 1, y1: 0, x2: 3, y2: 3, x: 7, y: 3 },
            OutlineEvent::CurveTo { x1: 12, y1: 3, x2: 18, y2: 0, x: 25, y: 0 },
            OutlineEvent::Close,
        ]
    );
}

#[test]
fn arithmetic_and_stack_operators_shape_the_stack() {
    // 10 20 add 40 exch rmoveto: the sum lands under 40, exch swaps.
    let cs = vec![op_num(10), op_num(20), 12, 10, op_num(40), 12, 28, 21, 14];
    let data = build_cff_font(&[cs], &[]);
    let font = Font::from_data(&data, 0).unwrap();
    let mut rec = EventRecorder::new();
    font.outline_glyph(GlyphId(0), &mut rec).unwrap();
    assert_eq!(rec.events[0], move_to(40, 30));

    // -5 abs 6 neg rmoveto.
    let cs2 = vec![op_num(-5), 12, 9, op_num(6), 12, 14, 21, 14];
    let data2 = build_cff_font(&[cs2], &[]);
    let font2 = Font::from_data(&data2, 0).unwrap();
    let mut rec2 = EventRecorder::new();
    font2.outline_glyph(GlyphId(0), &mut rec2).unwrap();
    assert_eq!(rec2.events[0], move_to(5, -6));

    // 7 dup drop 9 rmoveto.
    let cs3 = vec![op_num(7), 12, 27, 12, 18, op_num(9), 21, 14];
    let data3 = build_cff_font(&[cs3], &[]);
    let font3 = Font::from_data(&data3, 0).unwrap();
    let mut rec3 = EventRecorder::new();
    font3.outline_glyph(GlyphId(0), &mut rec3).unwrap();
    assert_eq!(rec3.events[0], move_to(7, 9));
}

#[test]
fn axis_curve_operator_takes_leading_cross_delta() {
    // 0 0 rmoveto 2 10 20 30 40 vvcurveto endchar
    let cs = vec![
        op_num(0),
        op_num(0),
        21,
        op_num(2),
        op_num(10),
        op_num(20),
        op_num(30),
        op_num(40),
        26,
        14,
    ];
    let data = build_cff_font(&[cs], &[]);
    let font = Font::from_data(&data, 0).unwrap();
    let mut rec = EventRecorder::new();
    font.outline_glyph(GlyphId(0), &mut rec).unwrap();
    assert_eq!(
        rec.events,
        vec![
            move_to(0, 0),
            OutlineEvent::CurveTo { x1: 2, y1: 10, x2: 22, y2: 40, x: 22, y: 80 },
            OutlineEvent::Close,
        ]
    );
}

#[test]
fn curve_then_line_and_line_then_curve() {
    // 0 0 rmoveto 1 2 3 4 5 6 7 8 rcurveline endchar
    let cs = vec![
        op_num(0),
        op_num(0),
        21,
        op_num(1),
        op_num(2),
        op_num(3),
        op_num(4),
        op_num(5),
        op_num(6),
        op_num(7),
        op_num(8),
        24,
        14,
    ];
    let data = build_cff_font(&[cs], &[]);
    let font = Font::from_data(&data, 0).unwrap();
    let mut rec = EventRecorder::new();
    font.outline_glyph(GlyphId(0), &mut rec).unwrap();
    assert_eq!(
        rec.events,
        vec![
            move_to(0, 0),
            OutlineEvent::CurveTo { x1: 1, y1: 2, x2: 4, y2: 6, x: 9, y: 12 },
            line_to(16, 20),
            OutlineEvent::Close,
        ]
    );

    // 0 0 rmoveto 1 2 3 4 5 6 7 8 rlinecurve endchar
    let cs2 = vec![
        op_num(0),
        op_num(0),
        21,
        op_num(1),
        op_num(2),
        op_num(3),
        op_num(4),
        op_num(5),
        op_num(6),
        op_num(7),
        op_num(8),
        25,
        14,
    ];
    let data2 = build_cff_font(&[cs2], &[]);
    let font2 = Font::from_data(&data2, 0).unwrap();
    let mut rec2 = EventRecorder::new();
    font2.outline_glyph(GlyphId(0), &mut rec2).unwrap();
    assert_eq!(
        rec2.events,
        vec![
            move_to(0, 0),
            line_to(1, 2),
            OutlineEvent::CurveTo { x1: 4, y1: 6, x2: 9, y2: 12, x: 16, y: 20 },
            OutlineEvent::Close,
        ]
    );
}

#[test]
fn interpreter_never_faults_on_arbitrary_charstrings() {
    // Random programs must produce an outline or a typed error, never a
    // fault, however the bytes fall.
    let mut seed: u32 = 0xC0FFEE;
    for len in 0..120usize {
        let mut cs = Vec::with_capacity(len);
        for _ in 0..len {
            seed = seed.wrapping_mul(1664525).wrapping_add(1013904223);
            cs.push((seed >> 24) as u8);
        }
        let subr = vec![op_num(-107), 29];
        let data = build_cff_font(&[cs], &[subr]);
        let font = Font::from_data(&data, 0).unwrap();
        let mut rec = EventRecorder::new();
        let _ = font.outline_glyph(GlyphId(0), &mut rec);
    }
}

#[test]
fn quadratic_decoder_never_faults_on_arbitrary_glyph_data() {
    let mut seed: u32 = 0xBADF00D;
    for len in (0..120usize).step_by(2) {
        let mut g = Vec::with_capacity(len);
        for _ in 0..len {
            seed = seed.wrapping_mul(1664525).wrapping_add(1013904223);
            g.push((seed >> 24) as u8);
        }
        if len >= 2 && len % 6 == 0 {
            // Nudge some records toward small contour counts.
            g[0] = 0;
            g[1] = 1;
        }
        let data = build_glyf_font(&[g]);
        let font = Font::from_data(&data, 0).unwrap();
        let mut rec = EventRecorder::new();
        let _ = font.outline_glyph(GlyphId(0), &mut rec);
    }
}
