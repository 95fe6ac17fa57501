use vstd::prelude::*;
use crate::data::{
    FileEvent, RustFileEvent, RustSocketEvent, SocketEvent, COMM_LEN, COMM_OFFSET, DST_IP_LEN,
    DST_IP_OFFSET, EXE_LEN, EXE_OFFSET, FILE_RECORD_SIZE, PATH_LEN, PATH_OFFSET, PID_OFFSET,
    SOCKET_RECORD_SIZE, TIMESTAMP_OFFSET,
};
use crate::text::{
    all_ascii, ascii_chars, field_text, lemma_text_field_round_trip, lossy_text, text_bytes,
};

verus! {

/// Why a record was not decoded.
#[derive(Debug, Clone, Copy, PartialEq, Eq, Structural)]
pub enum DecodeError {
    /// The buffer is shorter than the record layout: `needed` bytes were
    /// expected and only `got` arrived.
    Malformed { needed: usize, got: usize },
}

/// The little-endian integer held by `b[at..at + 4]`.
pub open spec fn le_u32_at(b: Seq<u8>, at: int) -> int {
    b[at] + 256 * (b[at + 1] + 256 * (b[at + 2] + 256 * b[at + 3]))
}

/// The little-endian integer held by `b[at..at + 8]`.
pub open spec fn le_u64_at(b: Seq<u8>, at: int) -> int {
    le_u32_at(b, at) + 4294967296 * le_u32_at(b, at + 4)
}

/// Decimal digits of `n` as ASCII bytes, without leading zeros.
pub open spec fn decimal(n: nat) -> Seq<u8>
    decreases n,
{
    if n < 10 {
        seq![(48 + n) as u8]
    } else {
        decimal(n / 10) + seq![(48 + n % 10) as u8]
    }
}

/// Four octets in dotted-decimal notation, as ASCII bytes.
pub open spec fn dotted_quad(ip: Seq<u8>) -> Seq<u8> {
    decimal(ip[0] as nat) + seq![46u8] + decimal(ip[1] as nat) + seq![46u8] + decimal(
        ip[2] as nat,
    ) + seq![46u8] + decimal(ip[3] as nat)
}

/// The text of a NUL-terminated byte field.
pub open spec fn text_of(f: Seq<u8>) -> Seq<char> {
    lossy_text(text_bytes(f))
}

/// `e` holds the fields of the file-open record at the start of `raw`.
pub open spec fn file_record_fields(raw: Seq<u8>, e: FileEvent) -> bool {
    &&& e.wf()
    &&& e.timestamp == le_u64_at(raw, TIMESTAMP_OFFSET as int)
    &&& e.pid == le_u32_at(raw, PID_OFFSET as int)
    &&& e.comm@ == raw.subrange(COMM_OFFSET as int, COMM_OFFSET + COMM_LEN)
    &&& e.exe@ == raw.subrange(EXE_OFFSET as int, EXE_OFFSET + EXE_LEN)
    &&& e.path@ == raw.subrange(PATH_OFFSET as int, PATH_OFFSET + PATH_LEN)
}

/// `e` holds the fields of the socket-connect record at the start of `raw`.
pub open spec fn socket_record_fields(raw: Seq<u8>, e: SocketEvent) -> bool {
    &&& e.wf()
    &&& e.timestamp == le_u64_at(raw, TIMESTAMP_OFFSET as int)
    &&& e.pid == le_u32_at(raw, PID_OFFSET as int)
    &&& e.comm@ == raw.subrange(COMM_OFFSET as int, COMM_OFFSET + COMM_LEN)
    &&& e.exe@ == raw.subrange(EXE_OFFSET as int, EXE_OFFSET + EXE_LEN)
    &&& e.dst_ip@ == raw.subrange(DST_IP_OFFSET as int, DST_IP_OFFSET + DST_IP_LEN)
}

/// `d` is the text form of the file-open record `e`.
pub open spec fn file_event_text(e: FileEvent, d: RustFileEvent) -> bool {
    &&& d.timestamp == e.timestamp
    &&& d.pid == e.pid
    &&& d.comm@ == text_of(e.comm@)
    &&& d.exe@ == text_of(e.exe@)
    &&& d.path@ == text_of(e.path@)
}

/// `d` is the text form of the socket-connect record `e`.
pub open spec fn socket_event_text(e: SocketEvent, d: RustSocketEvent) -> bool {
    &&& d.timestamp == e.timestamp
    &&& d.pid == e.pid
    &&& d.comm@ == text_of(e.comm@)
    &&& d.exe@ == text_of(e.exe@)
    &&& d.dst_ip@ == ascii_chars(dotted_quad(e.dst_ip@))
}

/// `d` is what the file-open record at the start of `raw` decodes to.
pub open spec fn file_decodes_to(raw: Seq<u8>, d: RustFileEvent) -> bool {
    &&& d.timestamp == le_u64_at(raw, TIMESTAMP_OFFSET as int)
    &&& d.pid == le_u32_at(raw, PID_OFFSET as int)
    &&& d.comm@ == text_of(raw.subrange(COMM_OFFSET as int, COMM_OFFSET + COMM_LEN))
    &&& d.exe@ == text_of(raw.subrange(EXE_OFFSET as int, EXE_OFFSET + EXE_LEN))
    &&& d.path@ == text_of(raw.subrange(PATH_OFFSET as int, PATH_OFFSET + PATH_LEN))
}

/// `d` is what the socket-connect record at the start of `raw` decodes to.
pub open spec fn socket_decodes_to(raw: Seq<u8>, d: RustSocketEvent) -> bool {
    &&& d.timestamp == le_u64_at(raw, TIMESTAMP_OFFSET as int)
    &&& d.pid == le_u32_at(raw, PID_OFFSET as int)
    &&& d.comm@ == text_of(raw.subrange(COMM_OFFSET as int, COMM_OFFSET + COMM_LEN))
    &&& d.exe@ == text_of(raw.subrange(EXE_OFFSET as int, EXE_OFFSET + EXE_LEN))
    &&& d.dst_ip@ == ascii_chars(
        dotted_quad(raw.subrange(DST_IP_OFFSET as int, DST_IP_OFFSET + DST_IP_LEN)),
    )
}

/// Reads the little-endian `u32` at `b[at..at + 4]`.
pub fn read_u32_le(b: &[u8], at: usize) -> (r: u32)
    requires
        at + 4 <= b@.len(),
    ensures
        r == le_u32_at(b@, at as int),
{
    let b0 = b[at] as u32;
    let b1 = b[at + 1] as u32;
    let b2 = b[at + 2] as u32;
    let b3 = b[at + 3] as u32;
    b0 + 256 * (b1 + 256 * (b2 + 256 * b3))
}

/// Reads the little-endian `u64` at `b[at..at + 8]`.
pub fn read_u64_le(b: &[u8], at: usize) -> (r: u64)
    requires
        at + 8 <= b@.len(),
    ensures
        r == le_u64_at(b@, at as int),
{
    let _len = b.len();
    let lo = read_u32_le(b, at) as u64;
    let hi = read_u32_le(b, at + 4) as u64;
    lo + 4294967296 * hi
}

/// Copies `b[start..start + len]`.
fn copy_bytes(b: &[u8], start: usize, len: usize) -> (r: Vec<u8>)
    requires
        start + len <= b@.len(),
    ensures
        r@ == b@.subrange(start as int, start + len),
{
    let blen = b.len();
    let mut out: Vec<u8> = Vec::with_capacity(len);
    let mut i: usize = 0;
    while i < len
        invariant
            i <= len,
            blen == b@.len(),
            start + len <= b@.len(),
            out@ == b@.subrange(start as int, start + i),
        decreases len - i,
    {
        out.push(b[start + i]);
        i = i + 1;
        assert(out@ =~= b@.subrange(start as int, start + i));
    }
    out
}

/// Appends the decimal digits of `n`.
fn push_decimal(out: &mut Vec<u8>, n: u8)
    ensures
        final(out)@ == old(out)@ + decimal(n as nat),
{
    proof {
        reveal_with_fuel(decimal, 3);
    }
    if n >= 100 {
        out.push(48 + n / 100);
        out.push(48 + (n / 10) % 10);
        out.push(48 + n % 10);
        assert(decimal(n as nat) =~= seq![(48 + n / 100) as u8, (48 + (n / 10) % 10) as u8, (48 + n % 10) as u8]);
    } else if n >= 10 {
        out.push(48 + n / 10);
        out.push(48 + n % 10);
        assert(decimal(n as nat) =~= seq![(48 + n / 10) as u8, (48 + n % 10) as u8]);
    } else {
        out.push(48 + n);
    }
    assert(final(out)@ =~= old(out)@ + decimal(n as nat));
}

proof fn lemma_decimal_ascii(n: nat)
    ensures
        all_ascii(decimal(n)),
    decreases n,
{
    if n >= 10 {
        lemma_decimal_ascii(n / 10);
    }
}

proof fn lemma_dotted_quad_ascii(ip: Seq<u8>)
    requires
        ip.len() == 4,
    ensures
        all_ascii(dotted_quad(ip)),
{
    lemma_decimal_ascii(ip[0] as nat);
    lemma_decimal_ascii(ip[1] as nat);
    lemma_decimal_ascii(ip[2] as nat);
    lemma_decimal_ascii(ip[3] as nat);
}


/// The dotted-decimal form of the four octets `b[at..at + 4]`.
fn dotted_quad_text(b: &[u8], at: usize) -> (r: String)
    requires
        at + 4 <= b@.len(),
    ensures
        r@ == ascii_chars(dotted_quad(b@.subrange(at as int, at + 4))),
{
    let ghost ip = b@.subrange(at as int, at + 4);
    let _len = b.len();
    let mut out: Vec<u8> = Vec::with_capacity(15);
    push_decimal(&mut out, b[at]);
    out.push(46u8);
    push_decimal(&mut out, b[at + 1]);
    out.push(46u8);
    push_decimal(&mut out, b[at + 2]);
    out.push(46u8);
    push_decimal(&mut out, b[at + 3]);
    assert(out@ =~= dotted_quad(ip));
    proof {
        lemma_dotted_quad_ascii(ip);
    }
    crate::text::ascii_string(out.as_slice())
}

impl FileEvent {
    /// Reads the fields of a file-open record, field by field. A buffer
    /// shorter than the record is rejected before any field is read; bytes
    /// past the record are ignored.
    pub fn parse(data: &[u8]) -> (r: Result<FileEvent, DecodeError>)
        ensures
            data@.len() < FILE_RECORD_SIZE <==> r is Err,
            r matches Err(e) ==> e == (DecodeError::Malformed {
                needed: FILE_RECORD_SIZE,
                got: data@.len() as usize,
            }),
            r matches Ok(e) ==> file_record_fields(data@, e),
    {
        let len = data.len();
        if len < FILE_RECORD_SIZE {
            return Err(DecodeError::Malformed { needed: FILE_RECORD_SIZE, got: len });
        }
        Ok(FileEvent {
            timestamp: read_u64_le(data, TIMESTAMP_OFFSET),
            pid: read_u32_le(data, PID_OFFSET),
            comm: copy_bytes(data, COMM_OFFSET, COMM_LEN),
            exe: copy_bytes(data, EXE_OFFSET, EXE_LEN),
            path: copy_bytes(data, PATH_OFFSET, PATH_LEN),
        })
    }

    /// The text form of this record: each byte field cut at its first NUL
    /// and read as lossy UTF-8.
    pub fn to_text(&self) -> (r: RustFileEvent)
        requires
            self.wf(),
        ensures
            file_event_text(*self, r),
    {
        let comm = field_text(self.comm.as_slice(), 0, COMM_LEN);
        let exe = field_text(self.exe.as_slice(), 0, EXE_LEN);
        let path = field_text(self.path.as_slice(), 0, PATH_LEN);
        assert(self.comm@.subrange(0, COMM_LEN as int) =~= self.comm@);
        assert(self.exe@.subrange(0, EXE_LEN as int) =~= self.exe@);
        assert(self.path@.subrange(0, PATH_LEN as int) =~= self.path@);
        RustFileEvent { timestamp: self.timestamp, pid: self.pid, comm, exe, path }
    }
}

impl SocketEvent {
    /// Reads the fields of a socket-connect record, field by field. A buffer
    /// shorter than the record is rejected before any field is read; bytes
    /// past the record are ignored.
    pub fn parse(data: &[u8]) -> (r: Result<SocketEvent, DecodeError>)
        ensures
            data@.len() < SOCKET_RECORD_SIZE <==> r is Err,
            r matches Err(e) ==> e == (DecodeError::Malformed {
                needed: SOCKET_RECORD_SIZE,
                got: data@.len() as usize,
            }),
            r matches Ok(e) ==> socket_record_fields(data@, e),
    {
        let len = data.len();
        if len < SOCKET_RECORD_SIZE {
            return Err(DecodeError::Malformed { needed: SOCKET_RECORD_SIZE, got: len });
        }
        Ok(SocketEvent {
            timestamp: read_u64_le(data, TIMESTAMP_OFFSET),
            pid: read_u32_le(data, PID_OFFSET),
            comm: copy_bytes(data, COMM_OFFSET, COMM_LEN),
            exe: copy_bytes(data, EXE_OFFSET, EXE_LEN),
            dst_ip: copy_bytes(data, DST_IP_OFFSET, DST_IP_LEN),
        })
    }

    /// The text form of this record: byte fields cut at their first NUL and
    /// read as lossy UTF-8, the destination in dotted-decimal notation.
    pub fn to_text(&self) -> (r: RustSocketEvent)
        requires
            self.wf(),
        ensures
            socket_event_text(*self, r),
    {
        let comm = field_text(self.comm.as_slice(), 0, COMM_LEN);
        let exe = field_text(self.exe.as_slice(), 0, EXE_LEN);
        let dst_ip = dotted_quad_text(self.dst_ip.as_slice(), 0);
        assert(self.comm@.subrange(0, COMM_LEN as int) =~= self.comm@);
        assert(self.exe@.subrange(0, EXE_LEN as int) =~= self.exe@);
        assert(self.dst_ip@.subrange(0, DST_IP_LEN as int) =~= self.dst_ip@);
        RustSocketEvent { timestamp: self.timestamp, pid: self.pid, comm, exe, dst_ip }
    }
}

/// Decodes a file-open record into its text form, or rejects a buffer that
/// is shorter than the record.
pub fn decode_file_event(data: &[u8]) -> (r: Result<RustFileEvent, DecodeError>)
    ensures
        data@.len() < FILE_RECORD_SIZE <==> r is Err,
        r matches Err(e) ==> e == (DecodeError::Malformed {
            needed: FILE_RECORD_SIZE,
            got: data@.len() as usize,
        }),
        r matches Ok(d) ==> file_decodes_to(data@, d),
{
    match FileEvent::parse(data) {
        Ok(raw) => Ok(raw.to_text()),
        Err(e) => Err(e),
    }
}

/// Decodes a socket-connect record into its text form, or rejects a buffer
/// that is shorter than the record.
pub fn decode_socket_event(data: &[u8]) -> (r: Result<RustSocketEvent, DecodeError>)
    ensures
        data@.len() < SOCKET_RECORD_SIZE <==> r is Err,
        r matches Err(e) ==> e == (DecodeError::Malformed {
            needed: SOCKET_RECORD_SIZE,
            got: data@.len() as usize,
        }),
        r matches Ok(d) ==> socket_decodes_to(data@, d),
{
    match SocketEvent::parse(data) {
        Ok(raw) => Ok(raw.to_text()),
        Err(e) => Err(e),
    }
}

/// A text field of a record that holds a text `s` without NUL bytes, then a
/// NUL and any padding, decodes to the text of exactly `s`; so does a field
/// that `s` fills to its end. Applies to every text field that
/// `file_decodes_to` and `socket_decodes_to` read.
pub proof fn lemma_decoded_field_round_trip(raw: Seq<u8>, at: int, len: int, s: Seq<u8>, pad: Seq<u8>)
    requires
        0 <= at,
        at + len <= raw.len(),
        forall|i: int| 0 <= i < s.len() ==> s[i] != 0,
        raw.subrange(at, at + len) == s + seq![0u8] + pad || raw.subrange(at, at + len) == s,
    ensures
        text_of(raw.subrange(at, at + len)) == lossy_text(s),
{
    lemma_text_field_round_trip(s, pad);
}

} // verus!
