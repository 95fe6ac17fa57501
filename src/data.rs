use vstd::prelude::*;

verus! {

// Layout of the records that the kernel probes write, field by field, in the
// host's byte order (little-endian on the machines the probes target). Each
// record is padded to a multiple of eight bytes.
pub const TIMESTAMP_OFFSET: usize = 0;
pub const PID_OFFSET: usize = 8;
pub const COMM_OFFSET: usize = 12;
pub const COMM_LEN: usize = 16;
pub const EXE_OFFSET: usize = 28;
pub const EXE_LEN: usize = 128;
pub const PATH_OFFSET: usize = 156;
pub const PATH_LEN: usize = 128;
pub const DST_IP_OFFSET: usize = 156;
pub const DST_IP_LEN: usize = 4;

/// Size of a file-open record.
pub const FILE_RECORD_SIZE: usize = 288;
/// Size of a socket-connect record.
pub const SOCKET_RECORD_SIZE: usize = 160;

/// A socket-connect record as the kernel wrote it: text fields are raw,
/// NUL-terminated byte arrays and the destination is four IPv4 octets.
#[derive(Debug)]
pub struct SocketEvent {
    pub timestamp: u64,
    pub pid: u32,
    pub comm: Vec<u8>,
    pub exe: Vec<u8>,
    pub dst_ip: Vec<u8>,
}

impl SocketEvent {
    /// Every field has the length that the record layout gives it.
    pub open spec fn wf(&self) -> bool {
        &&& self.comm@.len() == COMM_LEN
        &&& self.exe@.len() == EXE_LEN
        &&& self.dst_ip@.len() == DST_IP_LEN
    }
}

/// A decoded socket-connect event, with its text fields as owned strings and
/// the destination in dotted-decimal form.
#[derive(Debug)]
pub struct RustSocketEvent {
    pub timestamp: u64,
    pub pid: u32,
    pub comm: String,
    pub exe: String,
    pub dst_ip: String,
}

/// A file-open record as the kernel wrote it.
#[derive(Debug)]
pub struct FileEvent {
    pub timestamp: u64,
    pub pid: u32,
    pub comm: Vec<u8>,
    pub exe: Vec<u8>,
    pub path: Vec<u8>,
}

impl FileEvent {
    /// Every field has the length that the record layout gives it.
    pub open spec fn wf(&self) -> bool {
        &&& self.comm@.len() == COMM_LEN
        &&& self.exe@.len() == EXE_LEN
        &&& self.path@.len() == PATH_LEN
    }
}

/// A decoded file-open event.
#[derive(Debug)]
pub struct RustFileEvent {
    pub timestamp: u64,
    pub pid: u32,
    pub comm: String,
    pub exe: String,
    pub path: String,
}

} // verus!
