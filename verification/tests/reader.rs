use ttf_parser::Error;
use ttf_parser::GlyphId;
use ttf_parser::HorizontalMetrics;
use ttf_parser::Rect;
use ttf_parser::VerticalMetrics;
use ttf_parser::parser::SafeStream;
use ttf_parser::parser::Stream;
use ttf_parser::parser::read_i16_at;
use ttf_parser::parser::read_u16_at;
use ttf_parser::parser::read_u32_at;
use ttf_parser::parser::try_slice;

#[test]
fn big_endian_primitives() {
    let data = [0x12u8, 0x34, 0x56, 0x78, 0xFF, 0xFE];
    assert_eq!(read_u16_at(&data, 0), 0x1234);
    assert_eq!(read_u16_at(&data, 1), 0x3456);
    assert_eq!(read_u32_at(&data, 0), 0x12345678);
    assert_eq!(read_i16_at(&data, 4), -2);
}

#[test]
fn stream_reads_in_order_and_fails_past_the_end() {
    let data = [0x00u8, 0x2A, 0x00, 0x00, 0x01, 0x00];
    let mut s = Stream::new(&data);
    assert_eq!(s.read_u16().unwrap(), 42);
    assert_eq!(s.read_u32().unwrap(), 256);
    match s.read_u16() {
        Err(Error::SliceOutOfBounds { start, end, data_len }) => {
            assert_eq!((start, end, data_len), (6, 8, 6));
        }
        _ => panic!("expected an out-of-bounds error"),
    }
}

#[test]
fn stream_skip_parks_at_the_end() {
    let data = [1u8, 2, 3];
    let mut s = Stream::new(&data);
    s.skip(100);
    assert!(s.read_u16().is_err());
}

#[test]
fn safe_stream_reads_validated_region() {
    let data = [0x01u8, 0x00, 0x2A, 0xFF, 0xD8];
    let mut s = SafeStream::new(&data);
    assert_eq!(s.read_u8(), 1);
    assert_eq!(s.read_u16(), 42);
    assert_eq!(s.read_i16(), -40);
}

#[test]
fn try_slice_checks_bounds() {
    let data = [10u8, 20, 30, 40];
    assert_eq!(try_slice(&data, 1, 3).unwrap(), &[20, 30]);
    assert_eq!(try_slice(&data, 2, 2).unwrap(), &[] as &[u8]);
    match try_slice(&data, 2, 6) {
        Err(Error::SliceOutOfBounds { start, end, data_len }) => {
            assert_eq!((start, end, data_len), (2, 6, 4));
        }
        _ => panic!("expected an out-of-bounds error"),
    }
    assert!(try_slice(&data, 3, 2).is_err());
}

#[test]
fn metrics_records_parse_from_cursor() {
    let data = [0x02u8, 0x00, 0xFF, 0x9C, 0x01, 0x00, 0x00, 0x64];
    let mut s = SafeStream::new(&data);
    let h = HorizontalMetrics::parse(&mut s);
    assert_eq!(h, HorizontalMetrics { advance: 512, left_side_bearing: -100 });
    let v = VerticalMetrics::parse(&mut s);
    assert_eq!(v, VerticalMetrics { advance: 256, top_side_bearing: 100 });
}

#[test]
fn rect_parses_and_zeroes() {
    let data = [0x00u8, 0x0A, 0xFF, 0xF6, 0x00, 0x64, 0x00, 0xC8];
    let mut s = SafeStream::new(&data);
    let r = Rect::parse(&mut s);
    assert_eq!(r, Rect { x_min: 10, y_min: -10, x_max: 100, y_max: 200 });
    assert_eq!(Rect::zero(), Rect { x_min: 0, y_min: 0, x_max: 0, y_max: 0 });
}

#[test]
fn glyph_id_parses_from_cursor() {
    let data = [0x00u8, 0x07];
    let mut s = SafeStream::new(&data);
    assert_eq!(GlyphId::parse(&mut s), GlyphId(7));
}
