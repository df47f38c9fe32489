//! Entry types observed while RocksDB builds an SST file, and the logic of
//! the collector callbacks.
use vstd::prelude::*;

use crate::property_map::{keys_distinct, map_of_pairs, pairs_view, PropertyMap};
use crate::raw_bytes::{raw_bytes_content, raw_bytes_valid, RawBytes};

verus! {

/// Entry type for key-value pairs observed while RocksDB builds an SST file.
#[derive(Clone, Copy, Debug, PartialEq, Eq, Structural)]
pub enum DBEntryType {
    Put,
    Delete,
    SingleDelete,
    Merge,
    RangeDeletion,
    BlobIndex,
    DeleteWithTimestamp,
    WideColumnEntity,
    TimedPut,
    Other,
}

/// The stable integer code RocksDB uses for each entry type.
pub open spec fn entry_type_code(e: DBEntryType) -> u8 {
    match e {
        DBEntryType::Put => 0,
        DBEntryType::Delete => 1,
        DBEntryType::SingleDelete => 2,
        DBEntryType::Merge => 3,
        DBEntryType::RangeDeletion => 4,
        DBEntryType::BlobIndex => 5,
        DBEntryType::DeleteWithTimestamp => 6,
        DBEntryType::WideColumnEntity => 7,
        DBEntryType::TimedPut => 8,
        DBEntryType::Other => 9,
    }
}

/// The entry type for a raw code: known codes map to their variant, every
/// other code to `Other`.
pub open spec fn entry_type_of(value: u8) -> DBEntryType {
    if value == 0 {
        DBEntryType::Put
    } else if value == 1 {
        DBEntryType::Delete
    } else if value == 2 {
        DBEntryType::SingleDelete
    } else if value == 3 {
        DBEntryType::Merge
    } else if value == 4 {
        DBEntryType::RangeDeletion
    } else if value == 5 {
        DBEntryType::BlobIndex
    } else if value == 6 {
        DBEntryType::DeleteWithTimestamp
    } else if value == 7 {
        DBEntryType::WideColumnEntity
    } else if value == 8 {
        DBEntryType::TimedPut
    } else {
        DBEntryType::Other
    }
}

/// Every entry type survives the trip through its RocksDB code, every code up
/// to 9 names the entry type it is the code of, and every code from 9 on
/// stands for `Other`.
pub proof fn lemma_entry_type_codes(e: DBEntryType, v: u8)
    ensures
        entry_type_of(entry_type_code(e)) == e,
        v <= 9 ==> entry_type_code(entry_type_of(v)) == v,
        v >= 9 ==> entry_type_of(v) == DBEntryType::Other,
{
}

impl From<u8> for DBEntryType {
    fn from(value: u8) -> (e: Self) {
        match value {
            0 => DBEntryType::Put,
            1 => DBEntryType::Delete,
            2 => DBEntryType::SingleDelete,
            3 => DBEntryType::Merge,
            4 => DBEntryType::RangeDeletion,
            5 => DBEntryType::BlobIndex,
            6 => DBEntryType::DeleteWithTimestamp,
            7 => DBEntryType::WideColumnEntity,
            8 => DBEntryType::TimedPut,
            _ => DBEntryType::Other,
        }
    }
}

impl vstd::std_specs::convert::FromSpecImpl<u8> for DBEntryType {
    open spec fn obeys_from_spec() -> bool {
        true
    }

    open spec fn from_spec(value: u8) -> DBEntryType {
        entry_type_of(value)
    }
}

/// Collects application-defined properties for one RocksDB SST file.
///
/// RocksDB owns each collector after it is created and may run it on a
/// background thread. Calls for one collector are sequential and mutable, so
/// implementations need to be [`Send`] but do not need to be [`Sync`].
pub trait TablePropertiesCollector: Send + 'static {
    /// Returns a stable name used by RocksDB for diagnostics, without a
    /// terminating NUL byte.
    fn name(&self) -> &[u8];

    /// Observes a key-value entry being added to the table.
    fn add(
        &mut self,
        key: &[u8],
        value: &[u8],
        entry_type: DBEntryType,
        sequence: u64,
        file_size: u64,
    );

    /// Produces the binary user-collected properties stored in the SST file.
    fn finish(&mut self) -> PropertyMap;

    /// Produces optional human-readable properties for diagnostics; none
    /// unless the collector provides them.
    fn get_readable_properties(&self) -> (props: PropertyMap)
        default_ensures
            props@ == Map::<Seq<u8>, Seq<u8>>::empty(),
    {
        PropertyMap::new()
    }
}

pub trait TablePropertiesCollectorAddUserKeyFn: FnMut(&[u8], &[u8], DBEntryType, u64, u64) + Send + 'static {

}

impl<F> TablePropertiesCollectorAddUserKeyFn for F where
    F: FnMut(&[u8], &[u8], DBEntryType, u64, u64) + Send + 'static,
 {

}

pub trait TablePropertiesCollectorFinishFn: FnMut() -> PropertyMap + Send + 'static {

}

impl<F> TablePropertiesCollectorFinishFn for F where F: FnMut() -> PropertyMap + Send + 'static {

}

pub trait TablePropertiesCollectorGetReadablePropertiesFn: Fn() -> PropertyMap + Send + 'static {

}

impl<F> TablePropertiesCollectorGetReadablePropertiesFn for F where
    F: Fn() -> PropertyMap + Send + 'static,
 {

}

/// The bytes of a native pointer and length handed to a collector callback:
/// `None` for a null pointer with a non-zero length.
pub fn bytes_from_raw(raw: RawBytes) -> (bytes: Option<Vec<u8>>)
    ensures
        bytes is Some <==> raw_bytes_valid(raw),
        bytes matches Some(b) ==> b@ == raw_bytes_content(raw),
{
    match raw {
        RawBytes::Null { len } => {
            if len == 0 {
                Some(Vec::new())
            } else {
                None
            }
        },
        RawBytes::Bytes(b) => Some(b),
    }
}

/// The arguments of one `add` call, decoded from what the native side passed.
pub struct CollectorEntry {
    pub key: Vec<u8>,
    pub value: Vec<u8>,
    pub entry_type: DBEntryType,
    pub sequence: u64,
    pub file_size: u64,
}

/// Decodes the arguments of the native `add` callback: `None` when the key or
/// the value is a null pointer with a non-zero length.
pub fn decode_entry(
    key: RawBytes,
    value: RawBytes,
    entry_type: u8,
    sequence: u64,
    file_size: u64,
) -> (entry: Option<CollectorEntry>)
    ensures
        entry is Some <==> raw_bytes_valid(key) && raw_bytes_valid(value),
        entry matches Some(e) ==> {
            &&& e.key@ == raw_bytes_content(key)
            &&& e.value@ == raw_bytes_content(value)
            &&& e.entry_type == entry_type_of(entry_type)
            &&& e.sequence == sequence
            &&& e.file_size == file_size
        },
{
    let key = match bytes_from_raw(key) {
        Some(k) => k,
        None => return None,
    };
    let value = match bytes_from_raw(value) {
        Some(v) => v,
        None => return None,
    };
    Some(
        CollectorEntry {
            key,
            value,
            entry_type: DBEntryType::from(entry_type),
            sequence,
            file_size,
        },
    )
}

/// The native `add` callback: hands the decoded entry to the collector's
/// `add`, once, and answers 1; or answers 0 and leaves the collector as it was
/// when there is no collector or the key or value cannot be read.
pub fn add_callback<T: TablePropertiesCollector>(
    collector: Option<&mut T>,
    key: RawBytes,
    value: RawBytes,
    entry_type: u8,
    sequence: u64,
    file_size: u64,
) -> (status: u8)
    ensures
        status == 0 || status == 1,
        status == 1 <==> collector is Some && raw_bytes_valid(key) && raw_bytes_valid(value),
        collector matches Some(c) ==> (status == 1 ==> exists|cr: &mut T, k: &[u8], v: &[u8]|
            {
                &&& *cr == *c
                &&& *final(cr) == *final(c)
                &&& k@ == raw_bytes_content(key)
                &&& v@ == raw_bytes_content(value)
                &&& #[trigger] call_ensures(
                    T::add,
                    (cr, k, v, entry_type_of(entry_type), sequence, file_size),
                    (),
                )
            }),
        collector matches Some(c) ==> (status == 0 ==> *final(c) == *c),
{
    match collector {
        Some(c) => match decode_entry(key, value, entry_type, sequence, file_size) {
            Some(e) => {
                c.add(e.key.as_slice(), e.value.as_slice(), e.entry_type, e.sequence, e.file_size);
                1
            },
            None => 0,
        },
        None => 0,
    }
}

/// The state of handing a property map to a native sink one pair at a time,
/// stopping at the first pair the sink refuses.
pub struct PropertyForwarder {
    entries: Vec<(Vec<u8>, Vec<u8>)>,
    sent: usize,
    refused: bool,
}

/// What the native side does next while properties are forwarded.
pub enum ForwardAction<'a> {
    /// Hand this pair to the sink and report whether it accepted it.
    Send { key: &'a [u8], value: &'a [u8] },
    /// Stop; the callback answers `status`.
    Done { status: u8 },
}

impl PropertyForwarder {
    /// The counts and pairs are consistent.
    pub closed spec fn wf(&self) -> bool {
        &&& self.sent <= self.entries@.len()
        &&& keys_distinct(pairs_view(self.entries@))
    }

    /// The pairs to forward, in order.
    pub closed spec fn entries(&self) -> Seq<(Seq<u8>, Seq<u8>)> {
        pairs_view(self.entries@)
    }

    /// How many pairs the sink has accepted.
    pub closed spec fn sent(&self) -> nat {
        self.sent as nat
    }

    /// Whether the sink refused a pair, or forwarding could not start.
    pub closed spec fn refused(&self) -> bool {
        self.refused
    }

    /// The pairs the sink has accepted, in order.
    pub open spec fn delivered(&self) -> Seq<(Seq<u8>, Seq<u8>)> {
        self.entries().take(self.sent() as int)
    }

    /// Forwarding of every pair of `props`, none sent yet.
    pub fn new(props: PropertyMap) -> (f: PropertyForwarder)
        ensures
            f.wf(),
            !f.refused(),
            f.sent() == 0,
            keys_distinct(f.entries()),
            map_of_pairs(f.entries()) == props@,
    {
        PropertyForwarder { entries: props.into_pairs(), sent: 0, refused: false }
    }

    /// Forwarding that cannot start; the callback answers 0.
    pub fn refusal() -> (f: PropertyForwarder)
        ensures
            f.wf(),
            f.refused(),
            f.sent() == 0,
            f.entries().len() == 0,
    {
        let f = PropertyForwarder { entries: Vec::new(), sent: 0, refused: true };
        assert(f.entries() =~= Seq::empty());
        f
    }

    /// The next step: send the first pair not yet accepted, or stop with 0
    /// after a refusal and with 1 once every pair was accepted.
    pub fn next_action(&self) -> (a: ForwardAction<'_>)
        requires
            self.wf(),
        ensures
            match a {
                ForwardAction::Send { key, value } => !self.refused() && self.sent()
                    < self.entries().len() && (key@, value@) == self.entries()[self.sent() as int],
                ForwardAction::Done { status } => (self.refused() && status == 0) || (
                !self.refused() && self.sent() == self.entries().len() && status == 1),
            },
    {
        if self.refused {
            ForwardAction::Done { status: 0 }
        } else if self.sent == self.entries.len() {
            ForwardAction::Done { status: 1 }
        } else {
            let pair = &self.entries[self.sent];
            ForwardAction::Send { key: pair.0.as_slice(), value: pair.1.as_slice() }
        }
    }

    /// Records the sink's answer for the pair last sent.
    pub fn record(&mut self, accepted: bool)
        requires
            old(self).wf(),
            !old(self).refused(),
            old(self).sent() < old(self).entries().len(),
        ensures
            final(self).wf(),
            final(self).entries() == old(self).entries(),
            accepted ==> !final(self).refused() && final(self).sent() == old(self).sent() + 1,
            !accepted ==> final(self).refused() && final(self).sent() == old(self).sent(),
    {
        let n = self.entries.len();
        if accepted {
            assert(self.sent < n);
            self.sent = self.sent + 1;
        } else {
            self.refused = true;
        }
    }
}

/// Once every pair was accepted, the sink has received each key of the
/// forwarded map exactly once, with its value.
pub proof fn lemma_forwarding_delivers_each_key_once(f: PropertyForwarder)
    requires
        f.wf(),
        !f.refused(),
        f.sent() == f.entries().len(),
    ensures
        f.delivered() == f.entries(),
        keys_distinct(f.delivered()),
        f.delivered().len() == map_of_pairs(f.entries()).len(),
        forall|k: Seq<u8>|
            #[trigger] map_of_pairs(f.entries()).dom().contains(k) ==> exists|i: int|
                0 <= i < f.delivered().len() && f.delivered()[i] == (k, map_of_pairs(f.entries())[k]),
{
    let s = f.entries();
    assert(f.delivered() =~= s);
    crate::property_map::lemma_map_of_distinct_pairs(s);
    crate::property_map::lemma_map_of_pairs_len(s);
    assert forall|k: Seq<u8>| #[trigger] map_of_pairs(s).dom().contains(k) implies exists|i: int|
        0 <= i < s.len() && s[i] == (k, map_of_pairs(s)[k]) by {
        let i = choose|i: int| 0 <= i < s.len() && s[i].0 == k;
        assert(map_of_pairs(s).dom().contains(s[i].0));
    }
}

/// Pairs with distinct keys that are the same pairs, in whatever order, make
/// the same map.
pub proof fn lemma_map_of_pairs_order_free(s1: Seq<(Seq<u8>, Seq<u8>)>, s2: Seq<(Seq<u8>, Seq<u8>)>)
    requires
        keys_distinct(s1),
        keys_distinct(s2),
        forall|i: int| 0 <= i < s1.len() ==> s2.contains(#[trigger] s1[i]),
        forall|j: int| 0 <= j < s2.len() ==> s1.contains(#[trigger] s2[j]),
    ensures
        map_of_pairs(s1) == map_of_pairs(s2),
{
    crate::property_map::lemma_map_of_distinct_pairs(s1);
    crate::property_map::lemma_map_of_distinct_pairs(s2);
    assert forall|k: Seq<u8>| #[trigger]
        map_of_pairs(s1).dom().contains(k) <==> map_of_pairs(s2).dom().contains(k) by {
        crate::property_map::lemma_map_of_pairs_dom(s1, k);
        crate::property_map::lemma_map_of_pairs_dom(s2, k);
        if map_of_pairs(s1).dom().contains(k) {
            let i = choose|i: int| 0 <= i < s1.len() && s1[i].0 == k;
            assert(s2.contains(s1[i]));
            let j = choose|j: int| 0 <= j < s2.len() && s2[j] == s1[i];
            assert(s2[j].0 == k);
        }
        if map_of_pairs(s2).dom().contains(k) {
            let j = choose|j: int| 0 <= j < s2.len() && s2[j].0 == k;
            assert(s1.contains(s2[j]));
            let i = choose|i: int| 0 <= i < s1.len() && s1[i] == s2[j];
            assert(s1[i].0 == k);
        }
    }
    assert forall|k: Seq<u8>| #[trigger]
        map_of_pairs(s1).dom().contains(k) implies map_of_pairs(s1)[k] == map_of_pairs(s2)[k] by {
        let i = choose|i: int| 0 <= i < s1.len() && s1[i].0 == k;
        assert(map_of_pairs(s1).dom().contains(s1[i].0));
        assert(s2.contains(s1[i]));
        let j = choose|j: int| 0 <= j < s2.len() && s2[j] == s1[i];
        assert(map_of_pairs(s2).dom().contains(s2[j].0));
    }
    assert(map_of_pairs(s1) =~= map_of_pairs(s2));
}

/// Properties a collector finishes with reach the SST file intact: once the
/// sink has accepted every pair, reading back those same pairs, in whatever
/// order the native side stores them, gives the finished map again.
pub proof fn lemma_forwarded_properties_read_back(
    f: PropertyForwarder,
    read_back: Seq<(Seq<u8>, Seq<u8>)>,
)
    requires
        f.wf(),
        !f.refused(),
        f.sent() == f.entries().len(),
        keys_distinct(read_back),
        forall|i: int| 0 <= i < read_back.len() ==> f.delivered().contains(#[trigger] read_back[i]),
        forall|j: int| 0 <= j < f.delivered().len() ==> read_back.contains(#[trigger] f.delivered()[j]),
    ensures
        map_of_pairs(read_back) == map_of_pairs(f.entries()),
{
    lemma_forwarding_delivers_each_key_once(f);
    lemma_map_of_pairs_order_free(read_back, f.delivered());
}

/// The native `finish` callback: calls the collector's `finish` once and
/// forwards what it returned to the sink; or, when there is no collector or
/// no sink, a refusal that leaves the collector as it was.
pub fn finish_callback<T: TablePropertiesCollector>(collector: Option<&mut T>, sink_present: bool) -> (f: PropertyForwarder)
    ensures
        f.wf(),
        f.sent() == 0,
        keys_distinct(f.entries()),
        f.refused() <==> collector is None || !sink_present,
        f.refused() ==> f.entries().len() == 0,
        collector matches Some(c) ==> (sink_present ==> exists|cr: &mut T, p: PropertyMap|
            {
                &&& *cr == *c
                &&& *final(cr) == *final(c)
                &&& #[trigger] call_ensures(T::finish, (cr,), p)
                &&& map_of_pairs(f.entries()) == p@
            }),
        collector matches Some(c) ==> (!sink_present ==> *final(c) == *c),
{
    match collector {
        Some(c) => {
            if !sink_present {
                return PropertyForwarder::refusal();
            }
            PropertyForwarder::new(c.finish())
        },
        None => PropertyForwarder::refusal(),
    }
}

/// The native readable-properties callback: calls the collector's
/// `get_readable_properties` once and forwards what it returned to the sink;
/// or a refusal when there is no collector or no sink.
pub fn readable_callback<T: TablePropertiesCollector>(collector: Option<&T>, sink_present: bool) -> (f: PropertyForwarder)
    ensures
        f.wf(),
        f.sent() == 0,
        keys_distinct(f.entries()),
        f.refused() <==> collector is None || !sink_present,
        f.refused() ==> f.entries().len() == 0,
        collector matches Some(c) ==> (sink_present ==> exists|p: PropertyMap|
            #[trigger] call_ensures(T::get_readable_properties, (c,), p) && map_of_pairs(
                f.entries(),
            ) == p@),
{
    match collector {
        Some(c) => {
            if !sink_present {
                return PropertyForwarder::refusal();
            }
            PropertyForwarder::new(c.get_readable_properties())
        },
        None => PropertyForwarder::refusal(),
    }
}

} // verus!
