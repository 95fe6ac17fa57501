//! User-space side of a host audit agent: decoding of the fixed-layout
//! records that kernel probes emit, a bounded drop-on-full event channel,
//! and the batching rules that decide when events are written out.

pub mod data;
pub mod text;
pub mod decode;
pub mod channel;
pub mod batch;
pub mod source;
