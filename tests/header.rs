use divans::{make_header, DivansResult, HeaderParser, HEADER_LENGTH};

fn parser_holding(bytes: &[u8]) -> HeaderParser<u32> {
    let mut p = HeaderParser::new(7u32);
    let mut offset = 0usize;
    p.read_from(bytes, &mut offset);
    p
}

#[test]
fn header_layout() {
    let h = make_header(22);
    assert_eq!(h.len(), HEADER_LENGTH);
    assert_eq!(&h[0..4], &[0xff, 0xe5, 0x8c, 0x9f]);
    assert_eq!(h[4], 0);
    assert_eq!(h[5], 22);
    assert!(h[6..].iter().all(|b| *b == 0));
}

#[test]
fn header_round_trip_every_window() {
    for ws in 10u8..=24 {
        let p = parser_holding(&make_header(ws));
        assert_eq!(p.read_offset, HEADER_LENGTH);
        assert_eq!(p.parse_header(), Ok(ws as usize));
    }
}

#[test]
fn header_rejects_bad_magic() {
    for i in 0..4 {
        let mut h = make_header(20);
        h[i] ^= 0x01;
        let p = parser_holding(&h);
        assert_eq!(p.parse_header(), Err(DivansResult::ResultFailure));
    }
}

#[test]
fn header_rejects_window_out_of_range() {
    for ws in [0u8, 9, 25, 26, 255] {
        let p = parser_holding(&make_header(ws));
        assert_eq!(p.parse_header(), Err(DivansResult::ResultFailure));
    }
}

#[test]
fn header_read_in_pieces() {
    let h = make_header(16);
    let mut p = HeaderParser::new(1u32);
    let mut offset = 0usize;
    p.read_from(&h[..3], &mut offset);
    assert_eq!(offset, 3);
    assert_eq!(p.read_offset, 3);
    let mut offset = 0usize;
    let mut longer = h[3..].to_vec();
    longer.extend_from_slice(&[1, 2, 3]);
    p.read_from(&longer, &mut offset);
    assert_eq!(offset, 13);
    assert_eq!(p.read_offset, HEADER_LENGTH);
    assert_eq!(p.header, h);
    assert_eq!(p.parse_header(), Ok(16));
}
