use brawl_geom::DecodeErrorKind;
use brawl_geom::bytes::parse_tag;
use brawl_geom::bytes::read_i16;
use brawl_geom::bytes::read_i32;
use brawl_geom::bytes::read_u16;
use brawl_geom::bytes::read_u32;
use brawl_geom::resources::resources;
use brawl_geom::util::parse_str;
use brawl_geom::util::read_c_string;

fn put_u32(buf: &mut Vec<u8>, off: usize, v: u32) {
    while buf.len() < off + 4 {
        buf.push(0);
    }
    buf[off..off + 4].copy_from_slice(&v.to_be_bytes());
}

fn put_u16(buf: &mut Vec<u8>, off: usize, v: u16) {
    while buf.len() < off + 2 {
        buf.push(0);
    }
    buf[off..off + 2].copy_from_slice(&v.to_be_bytes());
}

fn put_str(buf: &mut Vec<u8>, off: usize, s: &str) {
    let bytes = s.as_bytes();
    while buf.len() < off + bytes.len() + 1 {
        buf.push(0);
    }
    buf[off..off + bytes.len()].copy_from_slice(bytes);
    buf[off + bytes.len()] = 0;
}

/// Builds a resource group: header, sentinel, and one node per (name, data
/// offset) pair, with the strings packed after the nodes.
fn build_group(children: &[(&str, i32)]) -> Vec<u8> {
    let n = children.len();
    let nodes_end = 8 + 0x10 * (n + 1);
    let mut buf: Vec<u8> = Vec::new();
    put_u32(&mut buf, 0, 0); // total size, unused here
    put_u32(&mut buf, 4, n as u32);
    // The sentinel node and the child nodes must all be present.
    while buf.len() < nodes_end {
        buf.push(0);
    }
    let mut str_off = nodes_end;
    for (i, (name, data_off)) in children.iter().enumerate() {
        let node = 8 + 0x10 * (i + 1);
        put_u32(&mut buf, node + 8, str_off as u32);
        put_u32(&mut buf, node + 12, *data_off as u32);
        put_str(&mut buf, str_off, name);
        str_off += name.len() + 1;
    }
    buf
}

#[test]
fn read_fixed_width_values() {
    let data = [0x12u8, 0x34, 0x56, 0x78, 0xff, 0xff, 0xff, 0xfe];
    assert_eq!(read_u16(&data, 0), Ok(0x1234));
    assert_eq!(read_u32(&data, 0), Ok(0x12345678));
    assert_eq!(read_i16(&data, 4), Ok(-1));
    assert_eq!(read_i32(&data, 4), Ok(-2));
    assert_eq!(read_i32(&data, 1).unwrap(), 0x345678ff);
    let e = read_u32(&data, 5).unwrap_err();
    assert_eq!(e.kind, DecodeErrorKind::OutOfBounds);
    assert_eq!(e.offset, 5);
}

#[test]
fn parse_tag_peeks_four_opaque_bytes() {
    assert_eq!(parse_tag(&[0x41, 0x52, 0x43, 0x00, 9]).unwrap(), [0x41, 0x52, 0x43, 0x00]);
    // Garbage bytes are a meaningful key, not an error.
    assert_eq!(parse_tag(&[0xff, 0x00, 0x80, 0x7f]).unwrap(), [0xff, 0x00, 0x80, 0x7f]);
    assert!(parse_tag(&[1, 2, 3]).is_err());
}

#[test]
fn parse_str_reads_until_terminator() {
    assert_eq!(parse_str(b"hello\0world").unwrap(), "hello");
    assert_eq!(parse_str(b"\0").unwrap(), "");
    let e = parse_str(b"never ending").unwrap_err();
    assert_eq!(e, "String was not terminated");
    // Invalid UTF-8 before the terminator is rejected too.
    assert!(parse_str(&[0xff, 0xfe, 0x00]).is_err());
}

#[test]
fn read_c_string_error_kinds() {
    let e = read_c_string(b"abc", 9).unwrap_err();
    assert_eq!(e.kind, DecodeErrorKind::OutOfBounds);
    let e = read_c_string(b"abc", 0).unwrap_err();
    assert_eq!(e.kind, DecodeErrorKind::Unterminated);
    let e = read_c_string(&[0xff, 0x00], 0).unwrap_err();
    assert_eq!(e.kind, DecodeErrorKind::CorruptContainer);
    assert_eq!(read_c_string(b"ab\0cd", 0).unwrap(), "ab");
    assert_eq!(read_c_string(b"ab\0cd\0", 3).unwrap(), "cd");
}

#[test]
fn resources_skips_sentinel_and_keeps_node_order() {
    let buf = build_group(&[("alpha", 0x100), ("beta", 0x200), ("gamma", 0x300)]);
    let got = resources(&buf).unwrap();
    assert_eq!(got.len(), 3);
    assert_eq!(got[0].string, "alpha");
    assert_eq!(got[0].data_offset, 0x100);
    assert_eq!(got[1].string, "beta");
    assert_eq!(got[1].data_offset, 0x200);
    assert_eq!(got[2].string, "gamma");
    assert_eq!(got[2].data_offset, 0x300);
}

#[test]
fn resources_empty_group() {
    let buf = build_group(&[]);
    assert_eq!(resources(&buf).unwrap().len(), 0);
}

#[test]
fn resources_rejects_negative_count() {
    let mut buf = build_group(&[]);
    put_u32(&mut buf, 4, 0xffff_ffff);
    let e = resources(&buf).unwrap_err();
    assert_eq!(e.kind, DecodeErrorKind::CorruptContainer);
}

#[test]
fn resources_rejects_truncated_node_array() {
    let mut buf = build_group(&[("alpha", 0)]);
    put_u32(&mut buf, 4, 5);
    let e = resources(&buf).unwrap_err();
    assert_eq!(e.kind, DecodeErrorKind::OutOfBounds);
}

#[test]
fn resources_rejects_unterminated_name() {
    let mut buf = build_group(&[("alpha", 0)]);
    // Point the node's string offset at the buffer end: no terminator there.
    let len = buf.len() as u32;
    put_u32(&mut buf, 8 + 0x10 + 8, len - 1);
    buf.pop();
    let e = resources(&buf).unwrap_err();
    assert_eq!(e.kind, DecodeErrorKind::Unterminated);
}
