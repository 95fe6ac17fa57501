use ebpf_audit::data::{
    FileEvent, SocketEvent, COMM_LEN, COMM_OFFSET, DST_IP_OFFSET, EXE_LEN, EXE_OFFSET,
    FILE_RECORD_SIZE, PATH_LEN, PATH_OFFSET, SOCKET_RECORD_SIZE,
};
use ebpf_audit::decode::{
    decode_file_event, decode_socket_event, read_u32_le, read_u64_le, DecodeError,
};
use ebpf_audit::text::{ascii_string, field_text};

fn put_text(buf: &mut [u8], at: usize, len: usize, s: &[u8]) {
    assert!(s.len() <= len);
    buf[at..at + s.len()].copy_from_slice(s);
}

fn file_record(ts: u64, pid: u32, comm: &[u8], exe: &[u8], path: &[u8]) -> Vec<u8> {
    let mut buf = vec![0u8; FILE_RECORD_SIZE];
    buf[0..8].copy_from_slice(&ts.to_le_bytes());
    buf[8..12].copy_from_slice(&pid.to_le_bytes());
    put_text(&mut buf, COMM_OFFSET, COMM_LEN, comm);
    put_text(&mut buf, EXE_OFFSET, EXE_LEN, exe);
    put_text(&mut buf, PATH_OFFSET, PATH_LEN, path);
    buf
}

fn socket_record(ts: u64, pid: u32, comm: &[u8], exe: &[u8], ip: [u8; 4]) -> Vec<u8> {
    let mut buf = vec![0u8; SOCKET_RECORD_SIZE];
    buf[0..8].copy_from_slice(&ts.to_le_bytes());
    buf[8..12].copy_from_slice(&pid.to_le_bytes());
    put_text(&mut buf, COMM_OFFSET, COMM_LEN, comm);
    put_text(&mut buf, EXE_OFFSET, EXE_LEN, exe);
    buf[DST_IP_OFFSET..DST_IP_OFFSET + 4].copy_from_slice(&ip);
    buf
}

#[test]
fn record_sizes_match_layout() {
    assert_eq!(FILE_RECORD_SIZE, 288);
    assert_eq!(SOCKET_RECORD_SIZE, 160);
}

#[test]
fn short_file_buffers_are_rejected() {
    let full = file_record(1, 2, b"a", b"b", b"c");
    for n in 0..FILE_RECORD_SIZE {
        let r = decode_file_event(&full[..n]);
        assert_eq!(
            r.err(),
            Some(DecodeError::Malformed { needed: FILE_RECORD_SIZE, got: n })
        );
        assert!(FileEvent::parse(&full[..n]).is_err());
    }
    assert!(decode_file_event(&full).is_ok());
}

#[test]
fn short_socket_buffers_are_rejected() {
    let full = socket_record(1, 2, b"a", b"b", [1, 2, 3, 4]);
    for n in 0..SOCKET_RECORD_SIZE {
        let r = decode_socket_event(&full[..n]);
        assert_eq!(
            r.err(),
            Some(DecodeError::Malformed { needed: SOCKET_RECORD_SIZE, got: n })
        );
        assert!(SocketEvent::parse(&full[..n]).is_err());
    }
    assert!(decode_socket_event(&full).is_ok());
}

#[test]
fn file_open_record_decodes() {
    let ts: u64 = 1_700_000_000_123_456_789;
    let rec = file_record(ts, 1234, b"cat", b"/usr/bin/cat", b"/etc/passwd");
    let ev = decode_file_event(&rec).unwrap();
    assert_eq!(ev.timestamp, ts);
    assert_eq!(ev.pid, 1234);
    assert_eq!(ev.comm, "cat");
    assert_eq!(ev.exe, "/usr/bin/cat");
    assert_eq!(ev.path, "/etc/passwd");
}

#[test]
fn longer_buffer_decodes_its_prefix() {
    let mut rec = file_record(5, 6, b"sh", b"/bin/sh", b"/tmp/x");
    rec.extend_from_slice(&[0xff; 40]);
    let ev = decode_file_event(&rec).unwrap();
    assert_eq!(ev.timestamp, 5);
    assert_eq!(ev.pid, 6);
    assert_eq!(ev.path, "/tmp/x");
}

#[test]
fn socket_destination_is_dotted_decimal() {
    let rec = socket_record(42, 7, b"curl", b"/usr/bin/curl", [93, 184, 216, 34]);
    let ev = decode_socket_event(&rec).unwrap();
    assert_eq!(ev.dst_ip, "93.184.216.34");
    assert_eq!(ev.timestamp, 42);
    assert_eq!(ev.pid, 7);
    assert_eq!(ev.comm, "curl");
    assert_eq!(ev.exe, "/usr/bin/curl");
}

#[test]
fn dotted_decimal_edges() {
    let rec = socket_record(0, 0, b"", b"", [0, 9, 10, 255]);
    let ev = decode_socket_event(&rec).unwrap();
    assert_eq!(ev.dst_ip, "0.9.10.255");
    assert_eq!(ev.comm, "");
    let rec = socket_record(0, 0, b"", b"", [100, 99, 1, 200]);
    assert_eq!(decode_socket_event(&rec).unwrap().dst_ip, "100.99.1.200");
}

#[test]
fn text_is_cut_at_first_nul() {
    let mut rec = file_record(1, 1, b"ab", b"x", b"p");
    // Bytes after the terminating NUL are ignored.
    rec[COMM_OFFSET + 3] = b'z';
    rec[COMM_OFFSET + 4] = b'y';
    let ev = decode_file_event(&rec).unwrap();
    assert_eq!(ev.comm, "ab");
}

#[test]
fn text_without_nul_fills_whole_field() {
    let comm = [b'q'; COMM_LEN];
    let mut rec = file_record(1, 1, &comm, b"x", b"p");
    // The next field starts right after; it must not leak into comm.
    rec[EXE_OFFSET] = b'E';
    let ev = decode_file_event(&rec).unwrap();
    assert_eq!(ev.comm, "q".repeat(COMM_LEN));
    assert_eq!(ev.exe, "E");
}

#[test]
fn invalid_utf8_is_decoded_lossily() {
    let rec = file_record(1, 1, &[b'a', 0xff, b'b'], b"x", b"p");
    let ev = decode_file_event(&rec).unwrap();
    assert_eq!(ev.comm, "a\u{FFFD}b");
}

#[test]
fn field_text_reads_ascii_exactly() {
    let bytes = b"xxhello\0world";
    assert_eq!(field_text(bytes, 2, 11), "hello");
    assert_eq!(field_text(bytes, 2, 3), "hel");
    assert_eq!(field_text(bytes, 7, 6), "");
    assert_eq!(ascii_string(b"1.2.3.4"), "1.2.3.4");
}

#[test]
fn integers_are_little_endian() {
    let b = [0x78, 0x56, 0x34, 0x12, 0xf0, 0xde, 0xbc, 0x9a, 0x00];
    assert_eq!(read_u32_le(&b, 0), 0x1234_5678);
    assert_eq!(read_u64_le(&b, 0), 0x9abc_def0_1234_5678);
    assert_eq!(read_u32_le(&b, 4), 0x9abc_def0);
    assert_eq!(read_u64_le(&[0xff; 8], 0), u64::MAX);
}

#[test]
fn raw_record_keeps_byte_fields() {
    let rec = socket_record(3, 4, b"nc", b"/bin/nc", [10, 0, 0, 1]);
    let raw = SocketEvent::parse(&rec).unwrap();
    assert_eq!(raw.comm.len(), COMM_LEN);
    assert_eq!(&raw.comm[..3], b"nc\0");
    assert_eq!(raw.dst_ip, vec![10, 0, 0, 1]);
    let ev = raw.to_text();
    assert_eq!(ev.dst_ip, "10.0.0.1");
    let rec = file_record(3, 4, b"ls", b"/bin/ls", b"/");
    let raw = FileEvent::parse(&rec).unwrap();
    assert_eq!(raw.path.len(), PATH_LEN);
    assert_eq!(raw.to_text().path, "/");
}
