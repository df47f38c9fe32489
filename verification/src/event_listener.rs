//! Flush-job information handed to event listeners, and the listener trait.
use vstd::prelude::*;

use crate::property_map::copy_of_bytes;
use crate::raw_bytes::RawBytes;

verus! {

/// The bytes a native string accessor stands for: `None` for a null pointer.
pub open spec fn accessor_value(raw: RawBytes) -> Option<Seq<u8>> {
    match raw {
        RawBytes::Null { .. } => None,
        RawBytes::Bytes(v) => Some(v@),
    }
}

/// What a native string accessor returned is taken as it is: the reported
/// bytes, unchanged, for a non-null pointer, and nothing for a null one.
pub proof fn lemma_accessor_value_is_the_reported_bytes(raw: RawBytes)
    ensures
        raw matches RawBytes::Bytes(v) ==> accessor_value(raw) matches Some(b) && b == v@,
        raw is Null ==> accessor_value(raw) is None,
{
}

/// An owned copy of what a native string accessor returned.
fn accessor_bytes(raw: &RawBytes) -> (r: Option<Vec<u8>>)
    ensures
        r is Some <==> accessor_value(*raw) is Some,
        r matches Some(v) ==> accessor_value(*raw) == Some(v@),
        *raw matches RawBytes::Bytes(b) ==> r matches Some(v) && v@ == b@,
        *raw is Null ==> r is None,
{
    match raw {
        RawBytes::Null { .. } => None,
        RawBytes::Bytes(v) => Some(copy_of_bytes(v.as_slice())),
    }
}

/// Information about one flush job, as RocksDB reported it.
pub struct FlushJobInfo {
    cf_name: RawBytes,
    file_path: RawBytes,
    triggered_writes_slowdown: u8,
    triggered_writes_stop: u8,
    largest_seqno: u64,
    smallest_seqno: u64,
}

impl FlushJobInfo {
    /// The information from the values the native accessors return: the
    /// column family name and file path as pointer and length, the two flags
    /// as native integers, and the sequence numbers.
    pub fn new(
        cf_name: RawBytes,
        file_path: RawBytes,
        triggered_writes_slowdown: u8,
        triggered_writes_stop: u8,
        largest_seqno: u64,
        smallest_seqno: u64,
    ) -> (info: FlushJobInfo)
        ensures
            info.cf_name_value() == accessor_value(cf_name),
            info.file_path_value() == accessor_value(file_path),
            info.cf_name_reported() == cf_name,
            info.file_path_reported() == file_path,
            info.slowdown_flag() == triggered_writes_slowdown,
            info.stop_flag() == triggered_writes_stop,
            info.largest() == largest_seqno,
            info.smallest() == smallest_seqno,
    {
        FlushJobInfo {
            cf_name,
            file_path,
            triggered_writes_slowdown,
            triggered_writes_stop,
            largest_seqno,
            smallest_seqno,
        }
    }

    /// The column family name as RocksDB reported it.
    pub closed spec fn cf_name_reported(&self) -> RawBytes {
        self.cf_name
    }

    /// The file path as RocksDB reported it.
    pub closed spec fn file_path_reported(&self) -> RawBytes {
        self.file_path
    }

    /// The bytes of the column family name, `None` when RocksDB gave none.
    pub closed spec fn cf_name_value(&self) -> Option<Seq<u8>> {
        accessor_value(self.cf_name)
    }

    /// The bytes of the file path, `None` when RocksDB gave none.
    pub closed spec fn file_path_value(&self) -> Option<Seq<u8>> {
        accessor_value(self.file_path)
    }

    /// The native write-slowdown flag.
    pub closed spec fn slowdown_flag(&self) -> u8 {
        self.triggered_writes_slowdown
    }

    /// The native write-stop flag.
    pub closed spec fn stop_flag(&self) -> u8 {
        self.triggered_writes_stop
    }

    /// The largest sequence number of the flushed data.
    pub closed spec fn largest(&self) -> u64 {
        self.largest_seqno
    }

    /// The smallest sequence number of the flushed data.
    pub closed spec fn smallest(&self) -> u64 {
        self.smallest_seqno
    }

    /// The bytes of the column family name, copied.
    pub fn cf_name(&self) -> (name: Option<Vec<u8>>)
        ensures
            name is Some <==> self.cf_name_value() is Some,
            name matches Some(v) ==> self.cf_name_value() == Some(v@),
            self.cf_name_reported() matches RawBytes::Bytes(b) ==> name matches Some(v) && v@ == b@,
            self.cf_name_reported() is Null ==> name is None,
    {
        accessor_bytes(&self.cf_name)
    }

    /// The bytes of the path of the file the flush wrote, copied.
    pub fn file_path(&self) -> (path: Option<Vec<u8>>)
        ensures
            path is Some <==> self.file_path_value() is Some,
            path matches Some(v) ==> self.file_path_value() == Some(v@),
            self.file_path_reported() matches RawBytes::Bytes(b) ==> path matches Some(v) && v@
                == b@,
            self.file_path_reported() is Null ==> path is None,
    {
        accessor_bytes(&self.file_path)
    }

    /// Whether the flush triggered a write slowdown.
    pub fn triggered_writes_slowdown(&self) -> (b: bool)
        ensures
            b == (self.slowdown_flag() != 0),
    {
        self.triggered_writes_slowdown != 0
    }

    /// Whether the flush triggered a write stop.
    pub fn triggered_writes_stop(&self) -> (b: bool)
        ensures
            b == (self.stop_flag() != 0),
    {
        self.triggered_writes_stop != 0
    }

    pub fn largest_seqno(&self) -> (n: u64)
        ensures
            n == self.largest(),
    {
        self.largest_seqno
    }

    pub fn smallest_seqno(&self) -> (n: u64)
        ensures
            n == self.smallest(),
    {
        self.smallest_seqno
    }
}

/// Receives RocksDB's flush events. Every method does nothing unless the
/// listener provides it.
pub trait EventListener: Send + Sync {
    fn on_flush_begin(&self, info: &FlushJobInfo) {
    }

    fn on_flush_completed(&self, info: &FlushJobInfo) {
    }
}

} // verus!
