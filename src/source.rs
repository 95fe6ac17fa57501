use vstd::prelude::*;
use crate::batch::{push_model, BatchAggregator, BatchState};
use crate::channel::BoundedChannel;
use crate::data::{RustFileEvent, RustSocketEvent, FILE_RECORD_SIZE, SOCKET_RECORD_SIZE};
use crate::decode::{decode_file_event, decode_socket_event, file_decodes_to, socket_decodes_to};

verus! {

/// Events the channel of one source holds before it starts dropping.
pub const CHANNEL_CAPACITY: usize = 1024;
/// Events written per storage transaction.
pub const BATCH_SIZE: usize = 1024;
/// How long a non-empty batch waits for more events before it is written.
pub const IDLE_FLUSH_MS: u64 = 500;

/// The two kinds of event source; they share one pipeline and differ in the
/// record layout, the polling period and the destination table.
#[derive(Debug, Clone, Copy, PartialEq, Eq, Structural)]
pub enum SourceKind {
    FileOpen,
    SocketConnect,
}

impl SourceKind {
    pub open spec fn record_size_spec(self) -> nat {
        match self {
            SourceKind::FileOpen => FILE_RECORD_SIZE as nat,
            SourceKind::SocketConnect => SOCKET_RECORD_SIZE as nat,
        }
    }

    /// Size in bytes of one record of this kind.
    pub fn record_size(self) -> (r: usize)
        ensures
            r == self.record_size_spec(),
    {
        match self {
            SourceKind::FileOpen => FILE_RECORD_SIZE,
            SourceKind::SocketConnect => SOCKET_RECORD_SIZE,
        }
    }

    /// How long one poll of the ring buffer waits, in milliseconds: file
    /// events come often, socket events seldom.
    pub fn poll_timeout_ms(self) -> (r: u64)
        ensures
            r == (match self {
                SourceKind::FileOpen => 50u64,
                SourceKind::SocketConnect => 1000u64,
            }),
    {
        match self {
            SourceKind::FileOpen => 50,
            SourceKind::SocketConnect => 1000,
        }
    }

    /// Statement that creates this source's table when it is absent. The
    /// natural key is (timestamp, pid, target).
    pub fn create_table_sql(self) -> (r: &'static str)
        ensures
            r@ == (match self {
                SourceKind::FileOpen => "create table if not exists files_opened (timestamp integer, pid integer, comm text, exe text, path text, PRIMARY KEY (timestamp, pid, path))"@,
                SourceKind::SocketConnect => "create table if not exists sockets_opened (timestamp integer, pid integer, comm text, exe text, dst_ip text, PRIMARY KEY (timestamp, pid, dst_ip))"@,
            }),
    {
        match self {
            SourceKind::FileOpen => "create table if not exists files_opened (timestamp integer, pid integer, comm text, exe text, path text, PRIMARY KEY (timestamp, pid, path))",
            SourceKind::SocketConnect => "create table if not exists sockets_opened (timestamp integer, pid integer, comm text, exe text, dst_ip text, PRIMARY KEY (timestamp, pid, dst_ip))",
        }
    }

    /// Statement that inserts one event. A row whose natural key is already
    /// stored is ignored: the same (time, pid, target) may plausibly be
    /// reported twice under a coarse clock, and that is no error.
    pub fn insert_sql(self) -> (r: &'static str)
        ensures
            r@ == (match self {
                SourceKind::FileOpen => "INSERT OR IGNORE INTO files_opened (timestamp, pid, comm, exe, path) VALUES (?1, ?2, ?3, ?4, ?5)"@,
                SourceKind::SocketConnect => "INSERT OR IGNORE INTO sockets_opened (timestamp, pid, comm, exe, dst_ip) VALUES (?1, ?2, ?3, ?4, ?5)"@,
            }),
    {
        match self {
            SourceKind::FileOpen => "INSERT OR IGNORE INTO files_opened (timestamp, pid, comm, exe, path) VALUES (?1, ?2, ?3, ?4, ?5)",
            SourceKind::SocketConnect => "INSERT OR IGNORE INTO sockets_opened (timestamp, pid, comm, exe, dst_ip) VALUES (?1, ?2, ?3, ?4, ?5)",
        }
    }
}

/// What became of one raw record handed over by the ring buffer.
#[derive(Debug, Clone, Copy, PartialEq, Eq, Structural)]
pub enum Ingest {
    /// Decoded and queued for the batching loop.
    Queued,
    /// Shorter than the record layout; discarded undecoded.
    Malformed,
    /// Decoded, but the channel was full; discarded.
    Dropped,
}

/// Ring-buffer callback of the file-open source: decodes `data` and queues the
/// event, dropping it when the channel is full. Never blocks.
pub fn ingest_file_record(chan: &mut BoundedChannel<RustFileEvent>, data: &[u8]) -> (r: Ingest)
    requires
        old(chan).wf(),
    ensures
        final(chan).wf(),
        final(chan).cap() == old(chan).cap(),
        (r == Ingest::Malformed) <==> data@.len() < FILE_RECORD_SIZE,
        (r == Ingest::Dropped) <==> (data@.len() >= FILE_RECORD_SIZE && old(chan)@.len()
            >= old(chan).cap()),
        r != Ingest::Queued ==> final(chan)@ == old(chan)@,
        r == Ingest::Queued ==> {
            &&& final(chan)@.len() == old(chan)@.len() + 1
            &&& final(chan)@.drop_last() == old(chan)@
            &&& file_decodes_to(data@, final(chan)@.last())
        },
{
    match decode_file_event(data) {
        Err(_) => Ingest::Malformed,
        Ok(ev) => {
            match chan.try_send(ev) {
                Ok(()) => {
                    assert(final(chan)@.drop_last() =~= old(chan)@);
                    Ingest::Queued
                },
                Err(_) => Ingest::Dropped,
            }
        },
    }
}

/// Ring-buffer callback of the socket-connect source: decodes `data` and
/// queues the event, dropping it when the channel is full. Never blocks.
pub fn ingest_socket_record(chan: &mut BoundedChannel<RustSocketEvent>, data: &[u8]) -> (r: Ingest)
    requires
        old(chan).wf(),
    ensures
        final(chan).wf(),
        final(chan).cap() == old(chan).cap(),
        (r == Ingest::Malformed) <==> data@.len() < SOCKET_RECORD_SIZE,
        (r == Ingest::Dropped) <==> (data@.len() >= SOCKET_RECORD_SIZE && old(chan)@.len()
            >= old(chan).cap()),
        r != Ingest::Queued ==> final(chan)@ == old(chan)@,
        r == Ingest::Queued ==> {
            &&& final(chan)@.len() == old(chan)@.len() + 1
            &&& final(chan)@.drop_last() == old(chan)@
            &&& socket_decodes_to(data@, final(chan)@.last())
        },
{
    match decode_socket_event(data) {
        Err(_) => Ingest::Malformed,
        Ok(ev) => {
            match chan.try_send(ev) {
                Ok(()) => {
                    assert(final(chan)@.drop_last() =~= old(chan)@);
                    Ingest::Queued
                },
                Err(_) => Ingest::Dropped,
            }
        },
    }
}

/// The events of a sequence of batches, batch after batch.
pub open spec fn concat<T>(bs: Seq<Vec<T>>) -> Seq<T>
    decreases bs.len(),
{
    if bs.len() == 0 {
        Seq::empty()
    } else {
        concat(bs.drop_last()) + bs.last()@
    }
}

/// Moves every queued event, oldest first, into the aggregator at time `now`,
/// and returns the batches that filled up on the way, in order. Together
/// those batches and what stays buffered are the previously buffered events
/// followed by the queued ones: nothing is lost, duplicated or reordered.
pub fn drain_into<T>(chan: &mut BoundedChannel<T>, agg: &mut BatchAggregator<T>, now: u64) -> (r: Vec<Vec<T>>)
    requires
        old(chan).wf(),
        old(agg).wf(),
        !old(agg).state().finished,
    ensures
        final(chan).wf(),
        final(chan).cap() == old(chan).cap(),
        final(chan)@.len() == 0,
        final(agg).wf(),
        !final(agg).state().finished,
        final(agg).threshold_spec() == old(agg).threshold_spec(),
        final(agg).idle_spec() == old(agg).idle_spec(),
        concat(r@) + final(agg).state().pending == old(agg).state().pending + old(chan)@,
        forall|i: int| 0 <= i < r@.len() ==> r@[i]@.len() == old(agg).threshold_spec(),
{
    let mut out: Vec<Vec<T>> = Vec::new();
    while !chan.is_empty()
        invariant
            chan.wf(),
            chan.cap() == old(chan).cap(),
            agg.wf(),
            !agg.state().finished,
            agg.threshold_spec() == old(agg).threshold_spec(),
            agg.idle_spec() == old(agg).idle_spec(),
            concat(out@) + agg.state().pending + chan@ == old(agg).state().pending + old(chan)@,
            forall|i: int| 0 <= i < out@.len() ==> out@[i]@.len() == old(agg).threshold_spec(),
        decreases chan@.len(),
    {
        let ghost c0 = chan@;
        let ghost p0 = agg.state().pending;
        let ghost out0 = out@;
        match chan.try_recv() {
            Some(ev) => {
                let flushed = agg.push(ev, now);
                match flushed {
                    Some(full) => {
                        out.push(full);
                        assert(out@.drop_last() =~= out0);
                        assert(concat(out@) =~= concat(out0) + p0.push(ev));
                    },
                    None => {},
                }
                assert(concat(out@) + agg.state().pending + chan@ =~= concat(out0) + p0 + c0);
            },
            None => {},
        }
    }
    assert(chan@ =~= Seq::<T>::empty());
    assert(concat(out@) + agg.state().pending =~= concat(out@) + agg.state().pending + chan@);
    out
}

} // verus!
